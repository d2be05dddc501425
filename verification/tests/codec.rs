use precompress::codec::{
    artifact_path, Codec, Enabled, BROTLI_BUFFER_SIZE, BROTLI_WINDOW, CHUNK_SIZE,
};

#[test]
fn codecs_are_ordered_oldest_first() {
    assert_eq!(Codec::Gzip.order(), 0);
    assert_eq!(Codec::Brotli.order(), 1);
    assert_eq!(Codec::Zstd.order(), 2);
}

#[test]
fn codec_names() {
    assert_eq!(Codec::Gzip.name(), "Gzip");
    assert_eq!(Codec::Brotli.name(), "Brotli");
    assert_eq!(Codec::Zstd.name(), "Zstd");
}

#[test]
fn codec_extensions() {
    assert_eq!(Codec::Gzip.extension(), "gz");
    assert_eq!(Codec::Brotli.extension(), "br");
    assert_eq!(Codec::Zstd.extension(), "zst");
}

#[test]
fn codec_levels_are_fixed() {
    assert_eq!(Codec::Gzip.level(), 9);
    assert_eq!(Codec::Brotli.level(), 11);
    assert_eq!(Codec::Zstd.level(), 19);
}

#[test]
fn fixed_sizes() {
    assert_eq!(CHUNK_SIZE, 64 * 1024);
    assert_eq!(BROTLI_BUFFER_SIZE, 64 * 1024);
    assert_eq!(BROTLI_WINDOW, 22);
}

#[test]
fn artifacts_sit_beside_the_input() {
    assert_eq!(artifact_path("foo.html", Codec::Gzip), "foo.html.gz");
    assert_eq!(artifact_path("foo.html", Codec::Brotli), "foo.html.br");
    assert_eq!(artifact_path("foo.html", Codec::Zstd), "foo.html.zst");
}

#[test]
fn artifact_path_of_odd_inputs() {
    assert_eq!(artifact_path("", Codec::Gzip), ".gz");
    assert_eq!(artifact_path("/srv/www/Index.HTML", Codec::Brotli), "/srv/www/Index.HTML.br");
    assert_eq!(artifact_path("a.gz", Codec::Gzip), "a.gz.gz");
    assert_eq!(artifact_path("d\u{e9}j\u{e0}.txt", Codec::Zstd), "d\u{e9}j\u{e0}.txt.zst");
}

#[test]
fn enabled_allows_what_is_switched_on() {
    let only_brotli = Enabled { gzip: false, brotli: true, zstd: false };
    assert!(!only_brotli.allows(Codec::Gzip));
    assert!(only_brotli.allows(Codec::Brotli));
    assert!(!only_brotli.allows(Codec::Zstd));
    let all = Enabled { gzip: true, brotli: true, zstd: true };
    assert!(all.allows(Codec::Gzip) && all.allows(Codec::Brotli) && all.allows(Codec::Zstd));
}

#[test]
fn artifact_paths_tell_input_and_codec() {
    let mut seen: Vec<String> = Vec::new();
    for input in ["", "a", "a.gz", "a.html", "a.html.gz", "a.html.g", "a.z"] {
        for codec in [Codec::Gzip, Codec::Brotli, Codec::Zstd] {
            let path = artifact_path(input, codec);
            assert_ne!(path, input);
            assert!(!seen.contains(&path), "{} twice", path);
            seen.push(path);
        }
    }
    assert_eq!(seen.len(), 21);
}
