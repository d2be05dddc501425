//! The closed set of codecs, their fixed parameters, and the names of the
//! artifacts they produce.

use vstd::prelude::*;
use vstd::string::StringExecFns;

verus! {

/// Number of bytes handed to an encoder at a time.
pub const CHUNK_SIZE: usize = 65536;

/// Size in bytes of the buffer a brotli encoder works with.
pub const BROTLI_BUFFER_SIZE: usize = 65536;

/// Binary logarithm of the window a brotli encoder looks back over.
pub const BROTLI_WINDOW: u32 = 22;

/// A compression format, listed oldest (most widely understood) first.
#[derive(Clone, Copy, Debug, PartialEq, Eq, Structural)]
pub enum Codec {
    Gzip,
    Brotli,
    Zstd,
}

/// Which codecs a run is allowed to try.
#[derive(Clone, Copy, Debug, PartialEq, Eq, Structural)]
pub struct Enabled {
    pub gzip: bool,
    pub brotli: bool,
    pub zstd: bool,
}

impl Codec {
    /// Position of the codec in the fixed order in which codecs are tried.
    pub open spec fn rank(self) -> int {
        match self {
            Codec::Gzip => 0,
            Codec::Brotli => 1,
            Codec::Zstd => 2,
        }
    }

    /// The codec at a given position of the fixed order.
    pub open spec fn at(rank: int) -> Codec {
        if rank == 0 {
            Codec::Gzip
        } else if rank == 1 {
            Codec::Brotli
        } else {
            Codec::Zstd
        }
    }

    /// The quality level the codec always runs at.
    pub open spec fn spec_level(self) -> u32 {
        match self {
            Codec::Gzip => 9,
            Codec::Brotli => 11,
            Codec::Zstd => 19,
        }
    }

    /// The name the codec is reported under.
    pub open spec fn spec_name(self) -> Seq<char> {
        match self {
            Codec::Gzip => "Gzip"@,
            Codec::Brotli => "Brotli"@,
            Codec::Zstd => "Zstd"@,
        }
    }

    /// What follows the last dot in the name of the codec's artifacts.
    pub open spec fn spec_extension(self) -> Seq<char> {
        match self {
            Codec::Gzip => "gz"@,
            Codec::Brotli => "br"@,
            Codec::Zstd => "zst"@,
        }
    }

    /// Position of the codec in the fixed order, as a machine integer.
    pub fn order(self) -> (n: u8)
        ensures
            n == self.rank(),
            n < 3,
    {
        match self {
            Codec::Gzip => 0,
            Codec::Brotli => 1,
            Codec::Zstd => 2,
        }
    }

    /// The quality level the codec always runs at: the best for gzip, 11
    /// for brotli, 19 for zstd.
    #[verifier::when_used_as_spec(spec_level)]
    pub fn level(self) -> (q: u32)
        ensures
            q == self.spec_level(),
    {
        match self {
            Codec::Gzip => 9,
            Codec::Brotli => 11,
            Codec::Zstd => 19,
        }
    }

    /// The name the codec is reported under.
    pub fn name(self) -> (s: &'static str)
        ensures
            s@ == self.spec_name(),
    {
        match self {
            Codec::Gzip => "Gzip",
            Codec::Brotli => "Brotli",
            Codec::Zstd => "Zstd",
        }
    }

    /// What follows the last dot in the name of the codec's artifacts.
    pub fn extension(self) -> (s: &'static str)
        ensures
            s@ == self.spec_extension(),
    {
        match self {
            Codec::Gzip => "gz",
            Codec::Brotli => "br",
            Codec::Zstd => "zst",
        }
    }
}

impl Enabled {
    /// Whether the set allows the given codec.
    pub open spec fn spec_allows(self, codec: Codec) -> bool {
        match codec {
            Codec::Gzip => self.gzip,
            Codec::Brotli => self.brotli,
            Codec::Zstd => self.zstd,
        }
    }

    /// Whether the set allows the given codec.
    #[verifier::when_used_as_spec(spec_allows)]
    pub fn allows(self, codec: Codec) -> (b: bool)
        ensures
            b == self.spec_allows(codec),
    {
        match codec {
            Codec::Gzip => self.gzip,
            Codec::Brotli => self.brotli,
            Codec::Zstd => self.zstd,
        }
    }
}

/// A dot followed by the given extension.
pub open spec fn dotted(ext: Seq<char>) -> Seq<char> {
    seq!['.'] + ext
}

/// The path of the artifact that a codec produces for an input path: the
/// input path, a dot, and the codec's extension.
pub open spec fn spec_artifact_path(file: Seq<char>, codec: Codec) -> Seq<char> {
    file + dotted(codec.spec_extension())
}

/// Where the artifact of `codec` for the input `file` lives: beside the input,
/// never in its place.
pub fn artifact_path(file: &str, codec: Codec) -> (path: String)
    ensures
        path@ == spec_artifact_path(file@, codec),
        path@ != file@,
{
    let mut path = String::from_str(file);
    path.append(".");
    path.append(codec.extension());
    proof {
        reveal_strlit(".");
        assert("."@ =~= seq!['.']);
        assert(path@ =~= file@ + (seq!['.'] + codec.spec_extension()));
    }
    path
}

/// No two artifacts share a path: the artifact's path tells both the input
/// and the codec it belongs to.
pub proof fn artifact_paths_are_distinct(
    file_a: Seq<char>,
    codec_a: Codec,
    file_b: Seq<char>,
    codec_b: Codec,
)
    requires
        spec_artifact_path(file_a, codec_a) == spec_artifact_path(file_b, codec_b),
    ensures
        file_a == file_b,
        codec_a == codec_b,
{
    reveal_strlit("gz");
    reveal_strlit("br");
    reveal_strlit("zst");
    let path = spec_artifact_path(file_a, codec_a);
    let tail_a = dotted(codec_a.spec_extension());
    let tail_b = dotted(codec_b.spec_extension());
    let n = path.len() as int;
    assert(path[n - 1] == tail_a[tail_a.len() - 1]);
    assert(path[n - 1] == tail_b[tail_b.len() - 1]);
    assert(path[n - 2] == tail_a[tail_a.len() - 2]);
    assert(path[n - 2] == tail_b[tail_b.len() - 2]);
    assert(codec_a == codec_b);
    assert(file_a =~= path.take(n - tail_a.len()));
    assert(file_b =~= path.take(n - tail_b.len()));
}

} // verus!
