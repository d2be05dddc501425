//! The three outside encoders, each writing into a byte vector in memory.
//!
//! Nothing in this file is proved: every function here hands its arguments to
//! an encoder of `flate2`, `brotli` or `zstd`, and its contract is taken on
//! trust. The contracts speak of three things an encoder stands for, the
//! settings it was made with, the calls it has taken so far and the part of
//! its stream that has been taken out of its vector, and name what follows
//! from the first two: whether the next call succeeds, and the stream that
//! comes back at the end. Both depend on the settings and the calls alone,
//! for two reasons. An encoder that writes into a vector does no input or
//! output. And the encoders are built so that their arithmetic is the same
//! on every machine: flate2 on its pure Rust back end, zstd single-threaded,
//! and brotli with its `portable-float` feature, without which its cost
//! estimates go through the platform's `log2` and `powf` and a block split
//! can move from one machine to the next.
//!
//! Verus cannot be told of the encoders' own types, which are bounded by
//! `std::io::Write`, so each is held in a struct that Verus treats as opaque.
//!
//! Every function takes the encoder by value and gives it back only on
//! success, so an encoder that has reported an error cannot be used again.

use brotli::CompressorWriter;
use flate2::write::GzEncoder;
use flate2::Compression;
use std::io::Write;
use vstd::prelude::*;
use zstd::stream::write::Encoder;

verus! {

/// `std::io::Error`, the error that the encoders report. Verus does not look
/// inside it.
#[verifier::external_type_specification]
#[verifier::external_body]
pub struct ExIoError(std::io::Error);

/// A `flate2::write::GzEncoder` that writes into a byte vector. Verus does not
/// look inside it.
#[verifier::external_body]
pub struct GzipEncoder {
    inner: GzEncoder<Vec<u8>>,
}

/// A `brotli::CompressorWriter` that writes into a byte vector. Verus does not
/// look inside it.
#[verifier::external_body]
pub struct BrotliEncoder {
    inner: CompressorWriter<Vec<u8>>,
}

/// A `zstd::stream::write::Encoder` that writes into a byte vector. Verus does
/// not look inside it.
#[verifier::external_body]
pub struct ZstdEncoder {
    inner: Encoder<'static, Vec<u8>>,
}

/// The calls a gzip encoder has taken since it was made, in order: `Some`
/// with the bytes handed over for a write, `None` for a flush.
pub uninterp spec fn gzip_log(e: GzipEncoder) -> Seq<Option<Seq<u8>>>;

/// The beginning of its stream that has been taken out of a gzip encoder's
/// vector so far.
pub uninterp spec fn gzip_handed(e: GzipEncoder) -> Seq<u8>;

/// The compression level a gzip encoder was made with.
pub uninterp spec fn gzip_level(e: GzipEncoder) -> u32;

/// Whether a gzip encoder made with `level` succeeds in the last of `calls`,
/// a `Write::write_all` or a `Write::flush`, after it has taken the calls
/// before it.
pub uninterp spec fn gzip_takes(level: u32, calls: Seq<Option<Seq<u8>>>) -> bool;

/// What `GzEncoder::finish` gives for an encoder made with `level` that has
/// taken `calls`: the whole gzip stream, or nothing where it fails.
pub uninterp spec fn gzip_stream(level: u32, calls: Seq<Option<Seq<u8>>>) -> Option<Seq<u8>>;

/// The calls a brotli encoder has taken since it was made, in order: `Some`
/// with the bytes handed over for a write, `None` for a flush.
pub uninterp spec fn brotli_log(e: BrotliEncoder) -> Seq<Option<Seq<u8>>>;

/// The beginning of its stream that has been taken out of a brotli encoder's
/// vector so far.
pub uninterp spec fn brotli_handed(e: BrotliEncoder) -> Seq<u8>;

/// What a brotli encoder was made with: the size of its buffer, its quality,
/// and the binary logarithm of its window.
pub uninterp spec fn brotli_settings(e: BrotliEncoder) -> (usize, u32, u32);

/// Whether a brotli encoder made with the three settings succeeds in the
/// last of `calls`, a `Write::write_all` or a `Write::flush`, after it has
/// taken the calls before it.
pub uninterp spec fn brotli_takes(
    buffer_size: usize,
    quality: u32,
    window: u32,
    calls: Seq<Option<Seq<u8>>>,
) -> bool;

/// What `CompressorWriter::into_inner` gives for an encoder made with the
/// three settings that has taken `calls`: the vector it wrote into. This is
/// a function of its arguments only in a build with brotli's
/// `portable-float` feature, which this crate asks for.
pub uninterp spec fn brotli_stream(
    buffer_size: usize,
    quality: u32,
    window: u32,
    calls: Seq<Option<Seq<u8>>>,
) -> Seq<u8>;

/// The calls a zstd encoder has taken since it was made, in order: `Some`
/// with the bytes handed over for a write, `None` for a flush.
pub uninterp spec fn zstd_log(e: ZstdEncoder) -> Seq<Option<Seq<u8>>>;

/// The beginning of its stream that has been taken out of a zstd encoder's
/// vector so far.
pub uninterp spec fn zstd_handed(e: ZstdEncoder) -> Seq<u8>;

/// The compression level a zstd encoder was made with.
pub uninterp spec fn zstd_level(e: ZstdEncoder) -> i32;

/// Whether `Encoder::new` of zstd succeeds at `level`.
pub uninterp spec fn zstd_opens(level: i32) -> bool;

/// Whether a zstd encoder made with `level` succeeds in the last of `calls`,
/// a `Write::write_all` or a `Write::flush`, after it has taken the calls
/// before it.
pub uninterp spec fn zstd_takes(level: i32, calls: Seq<Option<Seq<u8>>>) -> bool;

/// What `Encoder::finish` of zstd gives for an encoder made with `level`
/// that has taken `calls`: the whole frame, or nothing where it fails.
pub uninterp spec fn zstd_stream(level: i32, calls: Seq<Option<Seq<u8>>>) -> Option<Seq<u8>>;

/// `GzEncoder::new` over an empty vector, at `Compression::new(level)`.
/// Trusted: the new encoder has taken no call yet and was made with `level`.
#[verifier::external_body]
pub(crate) fn gzip_open(level: u32) -> (e: GzipEncoder)
    requires
        level <= 9,
    ensures
        gzip_log(e) == Seq::<Option<Seq<u8>>>::empty(),
        gzip_handed(e) == Seq::<u8>::empty(),
        gzip_level(e) == level,
{
    GzipEncoder { inner: GzEncoder::new(Vec::new(), Compression::new(level)) }
}

/// `Write::write_all` on a `GzEncoder`. Trusted: it succeeds exactly
/// where `gzip_takes` says so; on success the encoder has taken one more
/// call, a write of all of `chunk`, and keeps its settings.
#[verifier::external_body]
pub(crate) fn gzip_write(e: GzipEncoder, chunk: &[u8]) -> (r: Result<GzipEncoder, std::io::Error>)
    ensures
        r is Ok <==> gzip_takes(gzip_level(e), gzip_log(e).push(Some(chunk@))),
        r matches Ok(next) ==> gzip_log(next) == gzip_log(e).push(Some(chunk@)),
        r matches Ok(next) ==> gzip_level(next) == gzip_level(e),
        r matches Ok(next) ==> gzip_handed(next) == gzip_handed(e),
{
    let mut e = e;
    e.inner.write_all(chunk)?;
    Ok(e)
}

/// `Write::flush` on a `GzEncoder`. Trusted: it succeeds exactly where
/// `gzip_takes` says so; on success the encoder has taken one more call, a
/// flush, and keeps its settings.
#[verifier::external_body]
pub(crate) fn gzip_flush(e: GzipEncoder) -> (r: Result<GzipEncoder, std::io::Error>)
    ensures
        r is Ok <==> gzip_takes(gzip_level(e), gzip_log(e).push(None)),
        r matches Ok(next) ==> gzip_log(next) == gzip_log(e).push(None),
        r matches Ok(next) ==> gzip_level(next) == gzip_level(e),
        r matches Ok(next) ==> gzip_handed(next) == gzip_handed(e),
{
    let mut e = e;
    e.inner.flush()?;
    Ok(e)
}

/// `GzEncoder::get_mut` with `std::mem::take`: takes out what the encoder has written
/// into its vector so far and leaves the vector empty. Trusted: the encoder
/// keeps its settings and its calls, and what is taken out follows what was
/// taken out before.
#[verifier::external_body]
pub(crate) fn gzip_drain(e: GzipEncoder) -> (r: (GzipEncoder, Vec<u8>))
    ensures
        gzip_log(r.0) == gzip_log(e),
        gzip_level(r.0) == gzip_level(e),
        gzip_handed(r.0) == gzip_handed(e) + r.1@,
{
    let mut e = e;
    let piece = std::mem::take(e.inner.get_mut());
    (e, piece)
}

/// `GzEncoder::finish`. Trusted: it succeeds exactly where `gzip_stream`
/// names a stream for the encoder's level and calls, and what was taken out
/// before, followed by the vector handed back, is that stream.
#[verifier::external_body]
pub(crate) fn gzip_finish(e: GzipEncoder) -> (r: Result<Vec<u8>, std::io::Error>)
    ensures
        r is Ok <==> gzip_stream(gzip_level(e), gzip_log(e)) is Some,
        r matches Ok(rest) ==> gzip_stream(gzip_level(e), gzip_log(e)) == Some(
            gzip_handed(e) + rest@,
        ),
{
    e.inner.finish()
}

/// `CompressorWriter::new` over an empty vector. Trusted: the new encoder has
/// taken no call yet and was made with the three arguments.
#[verifier::external_body]
pub(crate) fn brotli_open(buffer_size: usize, quality: u32, window: u32) -> (e: BrotliEncoder)
    requires
        0 < buffer_size <= 0x100_0000,
        quality <= 11,
        10 <= window <= 24,
    ensures
        brotli_log(e) == Seq::<Option<Seq<u8>>>::empty(),
        brotli_handed(e) == Seq::<u8>::empty(),
        brotli_settings(e) == (buffer_size, quality, window),
{
    BrotliEncoder { inner: CompressorWriter::new(Vec::new(), buffer_size, quality, window) }
}

/// `Write::write_all` on a `CompressorWriter`. Trusted: it succeeds exactly
/// where `brotli_takes` says so; on success the encoder has taken one more
/// call, a write of all of `chunk`, and keeps its settings.
#[verifier::external_body]
pub(crate) fn brotli_write(e: BrotliEncoder, chunk: &[u8]) -> (r: Result<
    BrotliEncoder,
    std::io::Error,
>)
    ensures
        r is Ok <==> brotli_takes(
            brotli_settings(e).0,
            brotli_settings(e).1,
            brotli_settings(e).2,
            brotli_log(e).push(Some(chunk@)),
        ),
        r matches Ok(next) ==> brotli_log(next) == brotli_log(e).push(Some(chunk@)),
        r matches Ok(next) ==> brotli_settings(next) == brotli_settings(e),
        r matches Ok(next) ==> brotli_handed(next) == brotli_handed(e),
{
    let mut e = e;
    e.inner.write_all(chunk)?;
    Ok(e)
}

/// `Write::flush` on a `CompressorWriter`. Trusted: it succeeds exactly where
/// `brotli_takes` says so; on success the encoder has taken one more call, a
/// flush, and keeps its settings.
#[verifier::external_body]
pub(crate) fn brotli_flush(e: BrotliEncoder) -> (r: Result<BrotliEncoder, std::io::Error>)
    ensures
        r is Ok <==> brotli_takes(
            brotli_settings(e).0,
            brotli_settings(e).1,
            brotli_settings(e).2,
            brotli_log(e).push(None),
        ),
        r matches Ok(next) ==> brotli_log(next) == brotli_log(e).push(None),
        r matches Ok(next) ==> brotli_settings(next) == brotli_settings(e),
        r matches Ok(next) ==> brotli_handed(next) == brotli_handed(e),
{
    let mut e = e;
    e.inner.flush()?;
    Ok(e)
}

/// `CompressorWriter::get_mut` with `std::mem::take`: takes out what the encoder has written
/// into its vector so far and leaves the vector empty. Trusted: the encoder
/// keeps its settings and its calls, and what is taken out follows what was
/// taken out before.
#[verifier::external_body]
pub(crate) fn brotli_drain(e: BrotliEncoder) -> (r: (BrotliEncoder, Vec<u8>))
    ensures
        brotli_log(r.0) == brotli_log(e),
        brotli_settings(r.0) == brotli_settings(e),
        brotli_handed(r.0) == brotli_handed(e) + r.1@,
{
    let mut e = e;
    let piece = std::mem::take(e.inner.get_mut());
    (e, piece)
}

/// `CompressorWriter::into_inner`, which closes the stream and reports no
/// error. Trusted: what was taken out before, followed by the vector handed
/// back, is what `brotli_stream` names for the encoder's settings and calls.
#[verifier::external_body]
pub(crate) fn brotli_finish(e: BrotliEncoder) -> (rest: Vec<u8>)
    ensures
        brotli_handed(e) + rest@ == brotli_stream(
            brotli_settings(e).0,
            brotli_settings(e).1,
            brotli_settings(e).2,
            brotli_log(e),
        ),
{
    e.inner.into_inner()
}

/// `Encoder::new` of zstd over an empty vector. Trusted: it succeeds exactly
/// where `zstd_opens` says so; on success the new encoder has taken no call
/// yet and was made with `level`.
#[verifier::external_body]
pub(crate) fn zstd_open(level: i32) -> (r: Result<ZstdEncoder, std::io::Error>)
    requires
        1 <= level <= 22,
    ensures
        r is Ok <==> zstd_opens(level),
        r matches Ok(e) ==> zstd_log(e) == Seq::<Option<Seq<u8>>>::empty(),
        r matches Ok(e) ==> zstd_handed(e) == Seq::<u8>::empty(),
        r matches Ok(e) ==> zstd_level(e) == level,
{
    Ok(ZstdEncoder { inner: Encoder::new(Vec::new(), level)? })
}

/// `Write::write_all` on a zstd `Encoder`. Trusted: it succeeds exactly where
/// `zstd_takes` says so; on success the encoder has taken one more call, a
/// write of all of `chunk`, and keeps its settings.
#[verifier::external_body]
pub(crate) fn zstd_write(e: ZstdEncoder, chunk: &[u8]) -> (r: Result<ZstdEncoder, std::io::Error>)
    ensures
        r is Ok <==> zstd_takes(zstd_level(e), zstd_log(e).push(Some(chunk@))),
        r matches Ok(next) ==> zstd_log(next) == zstd_log(e).push(Some(chunk@)),
        r matches Ok(next) ==> zstd_level(next) == zstd_level(e),
        r matches Ok(next) ==> zstd_handed(next) == zstd_handed(e),
{
    let mut e = e;
    e.inner.write_all(chunk)?;
    Ok(e)
}

/// `Write::flush` on a zstd `Encoder`. Trusted: it succeeds exactly where
/// `zstd_takes` says so; on success the encoder has taken one more call, a
/// flush, and keeps its settings.
#[verifier::external_body]
pub(crate) fn zstd_flush(e: ZstdEncoder) -> (r: Result<ZstdEncoder, std::io::Error>)
    ensures
        r is Ok <==> zstd_takes(zstd_level(e), zstd_log(e).push(None)),
        r matches Ok(next) ==> zstd_log(next) == zstd_log(e).push(None),
        r matches Ok(next) ==> zstd_level(next) == zstd_level(e),
        r matches Ok(next) ==> zstd_handed(next) == zstd_handed(e),
{
    let mut e = e;
    e.inner.flush()?;
    Ok(e)
}

/// `Encoder::get_mut` of zstd with `std::mem::take`: takes out what the encoder has written
/// into its vector so far and leaves the vector empty. Trusted: the encoder
/// keeps its settings and its calls, and what is taken out follows what was
/// taken out before.
#[verifier::external_body]
pub(crate) fn zstd_drain(e: ZstdEncoder) -> (r: (ZstdEncoder, Vec<u8>))
    ensures
        zstd_log(r.0) == zstd_log(e),
        zstd_level(r.0) == zstd_level(e),
        zstd_handed(r.0) == zstd_handed(e) + r.1@,
{
    let mut e = e;
    let piece = std::mem::take(e.inner.get_mut());
    (e, piece)
}

/// `Encoder::finish` of zstd. Trusted: it succeeds exactly where
/// `zstd_stream` names a frame for the encoder's level and calls, and what
/// was taken out before, followed by the vector handed back, is that frame.
#[verifier::external_body]
pub(crate) fn zstd_finish(e: ZstdEncoder) -> (r: Result<Vec<u8>, std::io::Error>)
    ensures
        r is Ok <==> zstd_stream(zstd_level(e), zstd_log(e)) is Some,
        r matches Ok(rest) ==> zstd_stream(zstd_level(e), zstd_log(e)) == Some(
            zstd_handed(e) + rest@,
        ),
{
    e.inner.finish()
}

/// `ToString::to_string` on an `std::io::Error`: the text the error shows.
/// Nothing is claimed of it.
#[verifier::external_body]
pub(crate) fn io_error_text(e: &std::io::Error) -> String {
    e.to_string()
}

} // verus!
