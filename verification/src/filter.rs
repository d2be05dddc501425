//! Which paths are inputs: the extension filters, and the test that keeps
//! artifacts from being compressed again.
//!
//! An extension matches a path when the lower-cased path ends with a dot
//! followed by the lower-cased extension.

use crate::codec::{dotted, spec_artifact_path, Codec};
use vstd::prelude::*;
use vstd::string::StrSliceExecFns;

verus! {

/// The extensions that are compressed when none are asked for, as a
/// comma-separated list.
pub const DEFAULT_EXTENSIONS: &'static str = "html,css,js,atom,stl,xml,svg,json,txt";

/// The lower-case form of a text, as `str::to_lowercase` gives it.
pub uninterp spec fn lowercase(s: Seq<char>) -> Seq<char>;

/// `str::to_lowercase` of std. Trusted: the result is the text named
/// `lowercase` of the argument; nothing more is claimed of it.
#[verifier::external_body]
pub(crate) fn to_lowercase(s: &str) -> (lower: String)
    ensures
        lower@ == lowercase(s@),
{
    s.to_lowercase()
}

/// What is done with a path that the directory walk comes across.
#[derive(Clone, Copy, Debug, PartialEq, Eq, Structural)]
pub enum Verdict {
    /// The path looks like an artifact: it is passed over, and if it is a
    /// directory nothing below it is looked at.
    Artifact,
    /// The path is not a regular file.
    NotAFile,
    /// An include list is in force and no extension on it matches.
    NotIncluded,
    /// An extension on the exclude list matches.
    Excluded,
    /// The file is an input: it is handed to the pipeline.
    Process,
}

/// The texts that a sequence of string slices stands for.
pub open spec fn views(texts: Seq<&str>) -> Seq<Seq<char>> {
    Seq::new(texts.len(), |i: int| texts[i]@)
}

/// Whether the lower-cased `file` ends with a dot and one of the lower-cased
/// extensions.
pub open spec fn spec_has_extension(file: Seq<char>, exts: Seq<Seq<char>>) -> bool {
    exists|i: int|
        0 <= i < exts.len() && dotted(lowercase(#[trigger] exts[i])).is_suffix_of(lowercase(file))
}

/// Whether `name` ends with a dot and the extension of one of the codecs.
pub open spec fn spec_ends_like_artifact(name: Seq<char>) -> bool {
    exists|codec: Codec| dotted(#[trigger] codec.spec_extension()).is_suffix_of(name)
}

/// Whether `file` is named like an artifact: it ends with a dot and the
/// extension of one of the codecs, as it is written or once it is
/// lower-cased.
pub open spec fn spec_is_compressed(file: Seq<char>) -> bool {
    spec_ends_like_artifact(file) || spec_ends_like_artifact(lowercase(file))
}

/// The verdict on a path: artifacts first, then what is not a file, then the
/// include list if it is not empty, then the exclude list.
pub open spec fn spec_classify(
    path: Seq<char>,
    is_file: bool,
    included: Seq<Seq<char>>,
    excluded: Seq<Seq<char>>,
) -> Verdict {
    if spec_is_compressed(path) {
        Verdict::Artifact
    } else if !is_file {
        Verdict::NotAFile
    } else if included.len() > 0 && !spec_has_extension(path, included) {
        Verdict::NotIncluded
    } else if spec_has_extension(path, excluded) {
        Verdict::Excluded
    } else {
        Verdict::Process
    }
}

/// Position of the first comma of a text, or its length if it has none.
pub open spec fn first_comma(s: Seq<char>) -> nat
    decreases s.len(),
{
    if s.len() == 0 || s[0] == ',' {
        0
    } else {
        1 + first_comma(s.drop_first())
    }
}

/// The fields of a comma-separated list, in order, without the empty ones.
pub open spec fn spec_split_extensions(list: Seq<char>) -> Seq<Seq<char>>
    decreases list.len(),
{
    if list.len() == 0 {
        Seq::empty()
    } else {
        let n = first_comma(list) as int;
        let rest = if n < list.len() {
            spec_split_extensions(list.skip(n + 1))
        } else {
            Seq::empty()
        };
        if n == 0 {
            rest
        } else {
            seq![list.take(n)] + rest
        }
    }
}

/// The characters of a string, one by one.
pub fn chars_of(s: &str) -> (v: Vec<char>)
    ensures
        v@ == s@,
{
    let mut v: Vec<char> = Vec::new();
    for c in it: s.chars()
        invariant
            it.seq() == s@,
            v@ == it.seq().take(it.index()),
    {
        v.push(c);
    }
    v
}

/// Whether `name` ends with a dot followed by `ext`, character for character.
#[verifier::loop_isolation(false)]
pub fn has_dotted_suffix(name: &str, ext: &str) -> (found: bool)
    ensures
        found == dotted(ext@).is_suffix_of(name@),
{
    let name_chars = chars_of(name);
    let ext_chars = chars_of(ext);
    let n: usize = name_chars.len();
    let m: usize = ext_chars.len();
    let ghost tail = dotted(ext@);
    assert(tail.len() == m + 1);
    assert(tail[0] == '.');
    assert(forall|k: int| 0 <= k < m ==> tail[k + 1] == ext@[k]);
    if m >= n {
        return false;
    }
    let start: usize = n - m - 1;
    let ghost end = name@.subrange(start as int, n as int);
    if name_chars[start] != '.' {
        assert(end[0] != tail[0]);
        return false;
    }
    let mut k: usize = 0;
    while k < m
        invariant
            k <= m,
            forall|j: int| 0 <= j < k ==> name@[start + 1 + j] == ext@[j],
        decreases m - k,
    {
        if name_chars[start + 1 + k] != ext_chars[k] {
            assert(end[k + 1] != tail[k + 1]);
            return false;
        }
        k = k + 1;
    }
    assert(end =~= tail);
    true
}

/// Whether the path ends, without regard to case, with a dot and one of the
/// given extensions.
pub fn has_extension(file: &String, exts: &Vec<&str>) -> (found: bool)
    ensures
        found == spec_has_extension(file@, views(exts@)),
{
    let lower_file = to_lowercase(file.as_str());
    let mut i: usize = 0;
    while i < exts.len()
        invariant
            i <= exts.len(),
            lower_file@ == lowercase(file@),
            forall|j: int|
                0 <= j < i ==> !dotted(lowercase(#[trigger] views(exts@)[j])).is_suffix_of(
                    lowercase(file@),
                ),
        decreases exts.len() - i,
    {
        let lower_ext = to_lowercase(exts[i]);
        if has_dotted_suffix(lower_file.as_str(), lower_ext.as_str()) {
            assert(views(exts@)[i as int] == exts@[i as int]@);
            return true;
        }
        assert(views(exts@)[i as int] == exts@[i as int]@);
        i = i + 1;
    }
    false
}

/// Whether `name` ends with a dot and the extension of one of the codecs,
/// character for character.
pub fn ends_like_artifact(name: &str) -> (found: bool)
    ensures
        found == spec_ends_like_artifact(name@),
{
    let gz = has_dotted_suffix(name, Codec::Gzip.extension());
    let br = has_dotted_suffix(name, Codec::Brotli.extension());
    let zst = has_dotted_suffix(name, Codec::Zstd.extension());
    proof {
        if gz {
            assert(dotted(Codec::Gzip.spec_extension()).is_suffix_of(name@));
        }
        if br {
            assert(dotted(Codec::Brotli.spec_extension()).is_suffix_of(name@));
        }
        if zst {
            assert(dotted(Codec::Zstd.spec_extension()).is_suffix_of(name@));
        }
        if !(gz || br || zst) {
            assert forall|codec: Codec|
                !dotted(#[trigger] codec.spec_extension()).is_suffix_of(name@) by {
                match codec {
                    Codec::Gzip => {},
                    Codec::Brotli => {},
                    Codec::Zstd => {},
                }
            }
        }
    }
    gz || br || zst
}

/// Whether the path is named like an artifact: it ends with a dot and the
/// extension of one of the codecs, as it is written or without regard to
/// case. The path is lower-cased only if it does not match as it is written.
pub fn is_compressed(file: &String) -> (found: bool)
    ensures
        found == spec_is_compressed(file@),
{
    if ends_like_artifact(file.as_str()) {
        return true;
    }
    let lower_file = to_lowercase(file.as_str());
    ends_like_artifact(lower_file.as_str())
}

/// Decides what is done with a path. A path named like an artifact is never
/// an input, whatever the lists say; an excluded extension wins over an
/// included one; an empty include list lets every extension in.
pub fn classify(path: &String, is_file: bool, included: &Vec<&str>, excluded: &Vec<&str>) -> (v:
    Verdict)
    ensures
        v == spec_classify(path@, is_file, views(included@), views(excluded@)),
        spec_is_compressed(path@) ==> v != Verdict::Process,
        spec_has_extension(path@, views(excluded@)) ==> v != Verdict::Process,
        included@.len() > 0 && !spec_has_extension(path@, views(included@)) ==> v
            != Verdict::Process,
        !is_file ==> v != Verdict::Process,
{
    if is_compressed(path) {
        Verdict::Artifact
    } else if !is_file {
        Verdict::NotAFile
    } else if included.len() > 0 && !has_extension(path, included) {
        Verdict::NotIncluded
    } else if has_extension(path, excluded) {
        Verdict::Excluded
    } else {
        Verdict::Process
    }
}

/// An artifact is never an input: the path of any codec's artifact, for any
/// input path, is named like an artifact and is passed over, whatever the
/// lists hold.
pub proof fn artifact_is_never_input(
    file: Seq<char>,
    codec: Codec,
    is_file: bool,
    included: Seq<Seq<char>>,
    excluded: Seq<Seq<char>>,
)
    ensures
        spec_is_compressed(spec_artifact_path(file, codec)),
        spec_classify(spec_artifact_path(file, codec), is_file, included, excluded)
            == Verdict::Artifact,
{
    let path = spec_artifact_path(file, codec);
    let tail = dotted(codec.spec_extension());
    assert(path.subrange(path.len() - tail.len(), path.len() as int) =~= tail);
    assert(tail.is_suffix_of(path));
}

/// A text with no comma before position `k`, and a comma or its end there,
/// has its first comma at `k`.
proof fn lemma_first_comma(s: Seq<char>, k: int)
    requires
        0 <= k <= s.len(),
        forall|j: int| 0 <= j < k ==> s[j] != ',',
        k == s.len() || s[k] == ',',
    ensures
        first_comma(s) == k,
    decreases k,
{
    if k > 0 {
        let rest = s.drop_first();
        assert forall|j: int| 0 <= j < k - 1 implies rest[j] != ',' by {
            assert(rest[j] == s[j + 1]);
        }
        lemma_first_comma(rest, k - 1);
    }
}

/// Splits a comma-separated list of extensions into its fields, in order,
/// leaving out the empty ones.
pub fn split_extensions<'a>(list: &'a str) -> (exts: Vec<&'a str>)
    ensures
        views(exts@) == spec_split_extensions(list@),
{
    let chars = chars_of(list);
    let n: usize = chars.len();
    let mut exts: Vec<&'a str> = Vec::new();
    let mut start: usize = 0;
    let mut i: usize = 0;
    assert(list@.skip(0) =~= list@);
    assert(views(exts@) =~= Seq::<Seq<char>>::empty());
    while i < n
        invariant
            start <= i <= n,
            n == chars@.len(),
            chars@ == list@,
            forall|j: int| start <= j < i ==> list@[j] != ',',
            spec_split_extensions(list@) == views(exts@) + spec_split_extensions(
                list@.skip(start as int),
            ),
        decreases n - i,
    {
        if chars[i] == ',' {
            let ghost field = list@.skip(start as int);
            let ghost before = views(exts@);
            proof {
                assert forall|j: int| 0 <= j < i - start implies field[j] != ',' by {
                    assert(field[j] == list@[start + j]);
                }
                lemma_first_comma(field, i - start);
                assert(field.skip(i - start + 1) =~= list@.skip(i + 1));
                assert(field.take(i - start) =~= list@.subrange(start as int, i as int));
            }
            if start < i {
                exts.push(list.substring_char(start, i));
                proof {
                    assert(views(exts@) =~= before + seq![
                        list@.subrange(start as int, i as int),
                    ]);
                }
            }
            start = i + 1;
        }
        i = i + 1;
    }
    let ghost field = list@.skip(start as int);
    let ghost before = views(exts@);
    proof {
        assert forall|j: int| 0 <= j < n - start implies field[j] != ',' by {
            assert(field[j] == list@[start + j]);
        }
        lemma_first_comma(field, n - start);
        assert(field.take(n - start) =~= list@.subrange(start as int, n as int));
    }
    if start < n {
        exts.push(list.substring_char(start, n));
        proof {
            assert(views(exts@) =~= before + seq![list@.subrange(start as int, n as int)]);
        }
    }
    exts
}

} // verus!
