use precompress::codec::{artifact_path, Codec};
use precompress::filter::{
    chars_of, classify, ends_like_artifact, has_dotted_suffix, has_extension, is_compressed,
    split_extensions, Verdict, DEFAULT_EXTENSIONS,
};

fn s(text: &str) -> String {
    text.to_string()
}

#[test]
fn chars_of_gives_every_character() {
    assert_eq!(chars_of(""), Vec::<char>::new());
    assert_eq!(chars_of("a.b"), vec!['a', '.', 'b']);
    assert_eq!(chars_of("\u{e9}\u{1F600}z"), vec!['\u{e9}', '\u{1F600}', 'z']);
}

#[test]
fn dotted_suffix_needs_the_dot() {
    assert!(has_dotted_suffix("a.gz", "gz"));
    assert!(has_dotted_suffix(".gz", "gz"));
    assert!(!has_dotted_suffix("gz", "gz"));
    assert!(!has_dotted_suffix("agz", "gz"));
    assert!(!has_dotted_suffix("a.gz", "z"));
    assert!(!has_dotted_suffix("a.gzz", "gz"));
    assert!(!has_dotted_suffix("a.GZ", "gz"));
    assert!(!has_dotted_suffix("", "gz"));
}

#[test]
fn dotted_suffix_with_empty_or_long_extension() {
    assert!(has_dotted_suffix("a.", ""));
    assert!(!has_dotted_suffix("a", ""));
    assert!(!has_dotted_suffix("", ""));
    assert!(has_dotted_suffix("x.tar.gz", "tar.gz"));
    assert!(!has_dotted_suffix("gz", "tar.gz"));
    assert!(has_dotted_suffix("r\u{e9}sum\u{e9}.\u{e9}t\u{e9}", "\u{e9}t\u{e9}"));
}

#[test]
fn artifact_endings_as_written() {
    assert!(ends_like_artifact("a.gz"));
    assert!(ends_like_artifact("a.br"));
    assert!(ends_like_artifact("a.zst"));
    assert!(ends_like_artifact(".br"));
    assert!(!ends_like_artifact("a.GZ"));
    assert!(!ends_like_artifact("a.zstd"));
    assert!(!ends_like_artifact("a.zs"));
    assert!(!ends_like_artifact("br"));
    assert!(!ends_like_artifact(""));
}

#[test]
fn extension_match_ignores_case() {
    assert!(has_extension(&s("/srv/INDEX.HTML"), &vec!["html"]));
    assert!(has_extension(&s("/srv/index.html"), &vec!["HTML"]));
    assert!(has_extension(&s("/srv/index.HtMl"), &vec!["css", "hTmL"]));
    assert!(!has_extension(&s("/srv/index.htm"), &vec!["html"]));
    assert!(!has_extension(&s("/srv/indexhtml"), &vec!["html"]));
    assert!(!has_extension(&s("/srv/index.html"), &vec![]));
}

#[test]
fn artifact_names_are_recognised() {
    assert!(is_compressed(&s("a.html.gz")));
    assert!(is_compressed(&s("a.html.br")));
    assert!(is_compressed(&s("a.html.zst")));
    assert!(is_compressed(&s("A.HTML.GZ")));
    assert!(is_compressed(&s("a.html.Br")));
    assert!(is_compressed(&s(".zst")));
    assert!(!is_compressed(&s("a.html")));
    assert!(!is_compressed(&s("a.gzip")));
    assert!(!is_compressed(&s("gz")));
    assert!(!is_compressed(&s("a.html.gz.txt")));
    assert!(!is_compressed(&s("")));
}

#[test]
fn every_artifact_path_is_recognised() {
    for input in ["a.html", "", "/x/y.JS", "noext", "\u{3a3}"] {
        for codec in [Codec::Gzip, Codec::Brotli, Codec::Zstd] {
            let path = artifact_path(input, codec);
            assert!(is_compressed(&path));
            assert_eq!(classify(&path, true, &vec![], &vec![]), Verdict::Artifact);
            assert_eq!(
                classify(&path, true, &vec!["gz", "br", "zst", "html"], &vec![]),
                Verdict::Artifact
            );
        }
    }
}

#[test]
fn excluded_wins_over_included() {
    let included = vec!["html", "js"];
    let excluded = vec!["js"];
    assert_eq!(classify(&s("a.js"), true, &included, &excluded), Verdict::Excluded);
    assert_eq!(classify(&s("a.html"), true, &included, &excluded), Verdict::Process);
    assert_eq!(classify(&s("a"), true, &included, &excluded), Verdict::NotIncluded);
    assert_eq!(classify(&s("Makefile"), true, &included, &excluded), Verdict::NotIncluded);
}

#[test]
fn artifact_is_not_an_input_even_if_included() {
    let included = vec!["gz", "html"];
    assert_eq!(classify(&s("a.html.gz"), true, &included, &vec![]), Verdict::Artifact);
    assert_eq!(classify(&s("a.html.gz"), false, &included, &vec![]), Verdict::Artifact);
    assert_eq!(classify(&s("a.html"), true, &included, &vec![]), Verdict::Process);
}

#[test]
fn empty_include_list_lets_everything_in() {
    assert_eq!(classify(&s("a.bin"), true, &vec![], &vec![]), Verdict::Process);
    assert_eq!(classify(&s("noext"), true, &vec![], &vec![]), Verdict::Process);
    assert_eq!(classify(&s("a.bin"), true, &vec![], &vec!["bin"]), Verdict::Excluded);
    assert_eq!(classify(&s("a.BIN"), true, &vec![], &vec!["bin"]), Verdict::Excluded);
}

#[test]
fn directories_are_not_inputs() {
    assert_eq!(classify(&s("/srv/www"), false, &vec![], &vec![]), Verdict::NotAFile);
    assert_eq!(classify(&s("/srv/site.html"), false, &vec!["html"], &vec![]), Verdict::NotAFile);
    assert_eq!(classify(&s("/srv/cache.gz"), false, &vec![], &vec![]), Verdict::Artifact);
}

#[test]
fn split_keeps_fields_in_order() {
    assert_eq!(
        split_extensions(DEFAULT_EXTENSIONS),
        vec!["html", "css", "js", "atom", "stl", "xml", "svg", "json", "txt"]
    );
    assert_eq!(split_extensions("svg,json,txt"), vec!["svg", "json", "txt"]);
    assert_eq!(split_extensions("html"), vec!["html"]);
    assert_eq!(split_extensions("HTML,Js"), vec!["HTML", "Js"]);
}

#[test]
fn split_drops_empty_fields() {
    assert_eq!(split_extensions(""), Vec::<&str>::new());
    assert_eq!(split_extensions(","), Vec::<&str>::new());
    assert_eq!(split_extensions(",,,"), Vec::<&str>::new());
    assert_eq!(split_extensions("a,,b"), vec!["a", "b"]);
    assert_eq!(split_extensions(",a,b,"), vec!["a", "b"]);
    assert_eq!(split_extensions("a, b"), vec!["a", " b"]);
    assert_eq!(split_extensions("\u{e9},\u{1F600}x,"), vec!["\u{e9}", "\u{1F600}x"]);
}

#[test]
fn split_lists_feed_the_filter() {
    let included = split_extensions("html,js");
    let excluded = split_extensions("js");
    assert_eq!(classify(&s("a.js"), true, &included, &excluded), Verdict::Excluded);
    assert_eq!(classify(&s("a.html"), true, &included, &excluded), Verdict::Process);
    assert_eq!(classify(&s("a"), true, &included, &excluded), Verdict::NotIncluded);
    let none = split_extensions("");
    assert_eq!(classify(&s("a"), true, &none, &none), Verdict::Process);
}
