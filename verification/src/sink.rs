//! A compressing sink: one of the three encoders behind a common set of
//! operations, and the record of what it has been handed.

use crate::codec::{Codec, BROTLI_BUFFER_SIZE, BROTLI_WINDOW};
use crate::encoder::{
    brotli_drain, brotli_finish, brotli_flush, brotli_handed, brotli_log, brotli_open,
    brotli_settings, brotli_stream, brotli_takes, brotli_write, gzip_drain, gzip_finish,
    gzip_flush, gzip_handed, gzip_level, gzip_log, gzip_open, gzip_stream, gzip_takes,
    gzip_write, io_error_text, zstd_drain, zstd_finish, zstd_flush, zstd_handed, zstd_level,
    zstd_log, zstd_open, zstd_opens, zstd_stream, zstd_takes, zstd_write, BrotliEncoder,
    GzipEncoder, ZstdEncoder,
};
use vstd::prelude::*;

verus! {

/// The step of an attempt at which an encoder failed.
#[derive(Clone, Copy, Debug, PartialEq, Eq, Structural)]
pub enum Stage {
    Open,
    Write,
    Flush,
    Finish,
}

/// An encoder's failure. Once it is reported the encoder is gone, and the
/// attempt with it.
#[derive(Debug)]
pub struct CompressError {
    pub codec: Codec,
    pub stage: Stage,
    /// What the encoder said of the failure.
    pub message: String,
}

enum Encoder {
    Gzip(GzipEncoder),
    Brotli(BrotliEncoder),
    Zstd(ZstdEncoder),
}

/// A compressing sink over a byte vector: one of the three encoders, made
/// with the fixed settings of its codec, open and ready to accept bytes.
pub struct CodecSink {
    encoder: Encoder,
}

/// Whether an encoder of `codec` with the codec's fixed settings can be
/// opened. Of the three only zstd can refuse.
pub open spec fn opens(codec: Codec) -> bool {
    codec == Codec::Zstd ==> zstd_opens(Codec::Zstd.spec_level() as i32)
}

/// Whether an encoder of `codec` with the codec's fixed settings succeeds in
/// the last of `calls` after it has taken the calls before it. A call is
/// `Some` with its bytes for a write and `None` for a flush.
pub open spec fn takes(codec: Codec, calls: Seq<Option<Seq<u8>>>) -> bool {
    match codec {
        Codec::Gzip => gzip_takes(Codec::Gzip.spec_level(), calls),
        Codec::Brotli => brotli_takes(
            BROTLI_BUFFER_SIZE,
            Codec::Brotli.spec_level(),
            BROTLI_WINDOW,
            calls,
        ),
        Codec::Zstd => zstd_takes(Codec::Zstd.spec_level() as i32, calls),
    }
}

/// What an encoder of `codec` with the codec's fixed settings gives back
/// when it is finished after `calls`: the whole stream, or nothing where the
/// finish fails. Brotli reports no failure here.
pub open spec fn closes(codec: Codec, calls: Seq<Option<Seq<u8>>>) -> Option<Seq<u8>> {
    match codec {
        Codec::Gzip => gzip_stream(Codec::Gzip.spec_level(), calls),
        Codec::Brotli => Some(
            brotli_stream(BROTLI_BUFFER_SIZE, Codec::Brotli.spec_level(), BROTLI_WINDOW, calls),
        ),
        Codec::Zstd => zstd_stream(Codec::Zstd.spec_level() as i32, calls),
    }
}

/// Whether an encoder of `codec` that has taken the calls `before` succeeds
/// in every one of the calls `more`, one after the other.
pub open spec fn takes_all(
    codec: Codec,
    before: Seq<Option<Seq<u8>>>,
    more: Seq<Option<Seq<u8>>>,
) -> bool
    decreases more.len(),
{
    if more.len() == 0 {
        true
    } else {
        takes_all(codec, before, more.drop_last()) && takes(codec, before + more)
    }
}

/// One more call is taken after others exactly when the others are and it
/// is.
pub proof fn takes_all_push(
    codec: Codec,
    before: Seq<Option<Seq<u8>>>,
    more: Seq<Option<Seq<u8>>>,
    call: Option<Seq<u8>>,
)
    ensures
        takes_all(codec, before, more.push(call)) == (takes_all(codec, before, more) && takes(
            codec,
            (before + more).push(call),
        )),
{
    assert(more.push(call).drop_last() =~= more);
    assert(before + more.push(call) =~= (before + more).push(call));
}

/// Two runs of calls are taken one after the other exactly when the joined
/// run is.
pub proof fn takes_all_concat(
    codec: Codec,
    before: Seq<Option<Seq<u8>>>,
    first: Seq<Option<Seq<u8>>>,
    rest: Seq<Option<Seq<u8>>>,
)
    ensures
        takes_all(codec, before, first + rest) == (takes_all(codec, before, first) && takes_all(
            codec,
            before + first,
            rest,
        )),
    decreases rest.len(),
{
    if rest.len() == 0 {
        assert(first + rest =~= first);
    } else {
        assert((first + rest).drop_last() =~= first + rest.drop_last());
        assert(before + (first + rest) =~= (before + first) + rest);
        takes_all_concat(codec, before, first, rest.drop_last());
    }
}

/// The bytes that the writes of a call log handed over, in order. A call is
/// `Some` with its bytes for a write and `None` for a flush.
pub open spec fn written(log: Seq<Option<Seq<u8>>>) -> Seq<u8>
    decreases log.len(),
{
    if log.len() == 0 {
        Seq::empty()
    } else {
        written(log.drop_last()) + match log.last() {
            Some(chunk) => chunk,
            None => Seq::empty(),
        }
    }
}

/// One more call adds its bytes, if it is a write, to what was written.
pub proof fn written_push(log: Seq<Option<Seq<u8>>>, call: Option<Seq<u8>>)
    ensures
        written(log.push(call)) == written(log) + match call {
            Some(chunk) => chunk,
            None => Seq::empty(),
        },
{
    assert(log.push(call).drop_last() =~= log);
}

/// What two call logs wrote one after the other is what the joined log wrote.
pub proof fn written_concat(a: Seq<Option<Seq<u8>>>, b: Seq<Option<Seq<u8>>>)
    ensures
        written(a + b) == written(a) + written(b),
    decreases b.len(),
{
    if b.len() == 0 {
        assert(a + b =~= a);
    } else {
        written_concat(a, b.drop_last());
        assert((a + b).drop_last() =~= a + b.drop_last());
        assert((a + b).last() == b.last());
    }
}

fn failure(codec: Codec, stage: Stage, cause: &std::io::Error) -> (e: CompressError)
    ensures
        e.codec == codec,
        e.stage == stage,
{
    CompressError { codec, stage, message: io_error_text(cause) }
}

impl CodecSink {
    #[verifier::type_invariant]
    spec fn at_fixed_settings(self) -> bool {
        match self.encoder {
            Encoder::Gzip(e) => gzip_level(e) == Codec::Gzip.spec_level(),
            Encoder::Brotli(e) => brotli_settings(e) == (
                BROTLI_BUFFER_SIZE,
                Codec::Brotli.spec_level(),
                BROTLI_WINDOW,
            ),
            Encoder::Zstd(e) => zstd_level(e) == Codec::Zstd.spec_level(),
        }
    }

    /// The codec whose encoder this is.
    pub closed spec fn codec(self) -> Codec {
        match self.encoder {
            Encoder::Gzip(_) => Codec::Gzip,
            Encoder::Brotli(_) => Codec::Brotli,
            Encoder::Zstd(_) => Codec::Zstd,
        }
    }

    /// The calls the sink has taken since it was opened, in order: `Some`
    /// with the bytes for a write, `None` for a flush.
    pub closed spec fn log(self) -> Seq<Option<Seq<u8>>> {
        match self.encoder {
            Encoder::Gzip(e) => gzip_log(e),
            Encoder::Brotli(e) => brotli_log(e),
            Encoder::Zstd(e) => zstd_log(e),
        }
    }

    /// The beginning of the stream that has been taken out of the sink so
    /// far.
    pub closed spec fn handed(self) -> Seq<u8> {
        match self.encoder {
            Encoder::Gzip(e) => gzip_handed(e),
            Encoder::Brotli(e) => brotli_handed(e),
            Encoder::Zstd(e) => zstd_handed(e),
        }
    }

    /// The bytes the sink has accepted so far, in order.
    pub open spec fn fed(self) -> Seq<u8> {
        written(self.log())
    }

    /// Opens an encoder for `codec` with the codec's fixed settings and no
    /// call taken yet. Only zstd can refuse.
    pub fn open(codec: Codec) -> (r: Result<CodecSink, CompressError>)
        ensures
            r is Ok <==> opens(codec),
            r matches Ok(sink) ==> {
                &&& sink.codec() == codec
                &&& sink.log() == Seq::<Option<Seq<u8>>>::empty()
                &&& sink.fed() == Seq::<u8>::empty()
                &&& sink.handed() == Seq::<u8>::empty()
            },
            r matches Err(e) ==> e.codec == codec && e.stage == Stage::Open,
    {
        match codec {
            Codec::Gzip => Ok(CodecSink { encoder: Encoder::Gzip(gzip_open(codec.level())) }),
            Codec::Brotli => Ok(
                CodecSink {
                    encoder: Encoder::Brotli(
                        brotli_open(BROTLI_BUFFER_SIZE, codec.level(), BROTLI_WINDOW),
                    ),
                },
            ),
            Codec::Zstd => match zstd_open(codec.level() as i32) {
                Ok(e) => Ok(CodecSink { encoder: Encoder::Zstd(e) }),
                Err(cause) => Err(failure(codec, Stage::Open, &cause)),
            },
        }
    }

    /// The codec whose encoder this is.
    pub fn kind(&self) -> (codec: Codec)
        ensures
            codec == self.codec(),
    {
        match &self.encoder {
            Encoder::Gzip(_) => Codec::Gzip,
            Encoder::Brotli(_) => Codec::Brotli,
            Encoder::Zstd(_) => Codec::Zstd,
        }
    }

    /// Hands `chunk` to the encoder. On success the sink has accepted all of
    /// it, after what it had accepted before.
    pub fn write(self, chunk: &[u8]) -> (r: Result<CodecSink, CompressError>)
        ensures
            r is Ok <==> takes(self.codec(), self.log().push(Some(chunk@))),
            r matches Ok(next) ==> {
                &&& next.codec() == self.codec()
                &&& next.log() == self.log().push(Some(chunk@))
                &&& next.fed() == self.fed() + chunk@
                &&& next.handed() == self.handed()
            },
            r matches Err(e) ==> e.codec == self.codec() && e.stage == Stage::Write,
    {
        proof {
            use_type_invariant(&self);
            written_push(self.log(), Some(chunk@));
        }
        match self.encoder {
            Encoder::Gzip(e) => match gzip_write(e, chunk) {
                Ok(next) => Ok(CodecSink { encoder: Encoder::Gzip(next) }),
                Err(cause) => Err(failure(Codec::Gzip, Stage::Write, &cause)),
            },
            Encoder::Brotli(e) => match brotli_write(e, chunk) {
                Ok(next) => Ok(CodecSink { encoder: Encoder::Brotli(next) }),
                Err(cause) => Err(failure(Codec::Brotli, Stage::Write, &cause)),
            },
            Encoder::Zstd(e) => match zstd_write(e, chunk) {
                Ok(next) => Ok(CodecSink { encoder: Encoder::Zstd(next) }),
                Err(cause) => Err(failure(Codec::Zstd, Stage::Write, &cause)),
            },
        }
    }

    /// Makes the encoder push out what it holds back. What the sink has
    /// accepted does not change.
    pub fn flush(self) -> (r: Result<CodecSink, CompressError>)
        ensures
            r is Ok <==> takes(self.codec(), self.log().push(None)),
            r matches Ok(next) ==> {
                &&& next.codec() == self.codec()
                &&& next.log() == self.log().push(None)
                &&& next.fed() == self.fed()
                &&& next.handed() == self.handed()
            },
            r matches Err(e) ==> e.codec == self.codec() && e.stage == Stage::Flush,
    {
        proof {
            use_type_invariant(&self);
            written_push(self.log(), None);
            assert(self.fed() + Seq::<u8>::empty() =~= self.fed());
        }
        match self.encoder {
            Encoder::Gzip(e) => match gzip_flush(e) {
                Ok(next) => Ok(CodecSink { encoder: Encoder::Gzip(next) }),
                Err(cause) => Err(failure(Codec::Gzip, Stage::Flush, &cause)),
            },
            Encoder::Brotli(e) => match brotli_flush(e) {
                Ok(next) => Ok(CodecSink { encoder: Encoder::Brotli(next) }),
                Err(cause) => Err(failure(Codec::Brotli, Stage::Flush, &cause)),
            },
            Encoder::Zstd(e) => match zstd_flush(e) {
                Ok(next) => Ok(CodecSink { encoder: Encoder::Zstd(next) }),
                Err(cause) => Err(failure(Codec::Zstd, Stage::Flush, &cause)),
            },
        }
    }

    /// Takes out what the encoder has put out so far, so that it need not be
    /// held until the end. What the sink has accepted does not change.
    pub fn drain(self) -> (r: (CodecSink, Vec<u8>))
        ensures
            r.0.codec() == self.codec(),
            r.0.log() == self.log(),
            r.0.handed() == self.handed() + r.1@,
    {
        proof {
            use_type_invariant(&self);
        }
        match self.encoder {
            Encoder::Gzip(e) => {
                let (next, piece) = gzip_drain(e);
                (CodecSink { encoder: Encoder::Gzip(next) }, piece)
            },
            Encoder::Brotli(e) => {
                let (next, piece) = brotli_drain(e);
                (CodecSink { encoder: Encoder::Brotli(next) }, piece)
            },
            Encoder::Zstd(e) => {
                let (next, piece) = zstd_drain(e);
                (CodecSink { encoder: Encoder::Zstd(next) }, piece)
            },
        }
    }

    /// Closes the stream and gives back the rest of it: the whole stream is
    /// what was taken out before, followed by the rest. The sink is used up,
    /// so the stream cannot be measured before it is complete. Brotli
    /// reports no failure here.
    pub fn finish(self) -> (r: Result<Vec<u8>, CompressError>)
        ensures
            r is Ok <==> closes(self.codec(), self.log()) is Some,
            r matches Ok(rest) ==> closes(self.codec(), self.log()) == Some(
                self.handed() + rest@,
            ),
            r matches Err(e) ==> e.codec == self.codec() && e.stage == Stage::Finish,
    {
        proof {
            use_type_invariant(&self);
        }
        match self.encoder {
            Encoder::Gzip(e) => match gzip_finish(e) {
                Ok(stream) => Ok(stream),
                Err(cause) => Err(failure(Codec::Gzip, Stage::Finish, &cause)),
            },
            Encoder::Brotli(e) => Ok(brotli_finish(e)),
            Encoder::Zstd(e) => match zstd_finish(e) {
                Ok(stream) => Ok(stream),
                Err(cause) => Err(failure(Codec::Zstd, Stage::Finish, &cause)),
            },
        }
    }
}

} // verus!
