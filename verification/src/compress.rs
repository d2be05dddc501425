//! One codec's attempt on one input: pass over an artifact that is already
//! there; otherwise feed the input through the codec's encoder chunk by
//! chunk, close the stream, measure it, and keep it only if it beats the
//! ceiling.
//!
//! Whether an attempt goes through, and with what stream, follows from the
//! codec's fixed settings and the calls the encoder is given. The contracts
//! here say for which inputs that is, over the names the encoders' outcomes
//! go by.

use crate::codec::{Codec, CHUNK_SIZE};
use crate::policy::{judge, skip, spec_judge, spec_skip, CompressionResult};
use crate::sink::{
    closes, opens, takes, takes_all, takes_all_concat, takes_all_push, written, written_concat,
    written_push, CodecSink, CompressError, Stage,
};
use vstd::prelude::*;
use vstd::slice::slice_subrange;

verus! {

/// An attempt's outcome together with the stream it produced.
pub struct Artifact {
    pub result: CompressionResult,
    /// The finished stream, whether it was accepted or not.
    pub stream: Vec<u8>,
}

/// The writes that a copy of `source` makes: the bytes in order, cut into
/// chunks of `CHUNK_SIZE` bytes, of which only the last may be shorter and
/// none is empty.
pub open spec fn chunk_writes(source: Seq<u8>) -> Seq<Option<Seq<u8>>>
    decreases source.len(),
{
    if source.len() == 0 {
        Seq::empty()
    } else if source.len() <= CHUNK_SIZE {
        seq![Some(source)]
    } else {
        seq![Some(source.take(CHUNK_SIZE as int))] + chunk_writes(source.skip(CHUNK_SIZE as int))
    }
}

/// The calls that a copy of `source` makes on a sink: its writes, then one
/// flush.
pub open spec fn copy_calls(source: Seq<u8>) -> Seq<Option<Seq<u8>>> {
    chunk_writes(source).push(None)
}

/// The calls that one step of a copy makes on a sink: a write of the chunk
/// unless it is empty, and a flush if the chunk is not full, which ends the
/// copy.
pub open spec fn chunk_calls(chunk: Seq<u8>) -> Seq<Option<Seq<u8>>> {
    let write = if chunk.len() > 0 {
        seq![Some(chunk)]
    } else {
        Seq::empty()
    };
    if chunk.len() < CHUNK_SIZE {
        write.push(None)
    } else {
        write
    }
}

/// What encoding `input` with `codec` comes to: the finished stream, or the
/// step at which the encoder fails. The encoder is opened with the codec's
/// fixed settings, takes the calls of one copy of `input`, and is finished.
pub open spec fn spec_encode(codec: Codec, input: Seq<u8>) -> Result<Seq<u8>, Stage> {
    let fresh = Seq::<Option<Seq<u8>>>::empty();
    if !opens(codec) {
        Err(Stage::Open)
    } else if !takes_all(codec, fresh, chunk_writes(input)) {
        Err(Stage::Write)
    } else if !takes_all(codec, fresh, copy_calls(input)) {
        Err(Stage::Flush)
    } else {
        match closes(codec, copy_calls(input)) {
            Some(stream) => Ok(stream),
            None => Err(Stage::Finish),
        }
    }
}

/// What one codec's attempt on `input` comes to, with the stream it yields.
/// Where the artifact is already present nothing is encoded, whatever the
/// ceiling: the attempt is a skip and yields no stream.
pub open spec fn spec_attempt(
    codec: Codec,
    input: Seq<u8>,
    present: bool,
    max_size: u64,
) -> Result<(CompressionResult, Seq<u8>), Stage> {
    if present {
        Ok((spec_skip(codec, input.len() as u64), Seq::empty()))
    } else {
        match spec_encode(codec, input) {
            Ok(stream) => Ok((spec_settle(codec, input.len() as u64, stream, max_size), stream)),
            Err(stage) => Err(stage),
        }
    }
}

/// The outcome for a finished stream held against a ceiling.
pub open spec fn spec_settle(
    codec: Codec,
    input_size: u64,
    stream: Seq<u8>,
    max_size: u64,
) -> CompressionResult {
    spec_judge(codec, input_size, stream.len() as u64, max_size)
}

/// After whole chunks, one more chunk that is not empty is one more write.
proof fn lemma_chunk_writes_extend(done: Seq<u8>, chunk: Seq<u8>)
    requires
        done.len() % (CHUNK_SIZE as nat) == 0,
        0 < chunk.len() <= CHUNK_SIZE,
    ensures
        chunk_writes(done + chunk) == chunk_writes(done).push(Some(chunk)),
    decreases done.len(),
{
    let all = done + chunk;
    if done.len() == 0 {
        assert(all =~= chunk);
        assert(chunk_writes(done).push(Some(chunk)) =~= seq![Some(chunk)]);
    } else {
        let size = CHUNK_SIZE as int;
        assert(done.len() >= size);
        assert(all.take(size) =~= done.take(size));
        assert(all.skip(size) =~= done.skip(size) + chunk);
        lemma_chunk_writes_extend(done.skip(size), chunk);
        if done.len() == size {
            assert(done.take(size) =~= done);
            assert(chunk_writes(done.skip(size)) =~= Seq::empty());
            assert(chunk_writes(done) =~= seq![Some(done)]);
        }
        assert(chunk_writes(all) =~= chunk_writes(done).push(Some(chunk)));
    }
}

/// The writes of a copy up to a chunk boundary, followed by the writes of a
/// copy of the rest, are the writes of the whole copy.
proof fn lemma_chunk_writes_split(source: Seq<u8>, p: int)
    requires
        0 <= p <= source.len(),
        p % (CHUNK_SIZE as int) == 0,
    ensures
        chunk_writes(source) == chunk_writes(source.take(p)) + chunk_writes(source.skip(p)),
    decreases source.len(),
{
    let size = CHUNK_SIZE as int;
    if p == 0 {
        assert(source.skip(0) =~= source);
        assert(chunk_writes(source.take(0)) + chunk_writes(source) =~= chunk_writes(source));
    } else if source.len() <= size {
        assert(source.take(p) =~= source);
        assert(chunk_writes(source) + chunk_writes(source.skip(p)) =~= chunk_writes(source));
    } else {
        let rest = source.skip(size);
        let head = source.take(p);
        lemma_chunk_writes_split(rest, p - size);
        assert(rest.skip(p - size) =~= source.skip(p));
        assert(head.take(size) =~= source.take(size));
        assert(head.skip(size) =~= rest.take(p - size));
        if p == size {
            assert(head.take(size) =~= head);
            assert(chunk_writes(head) =~= seq![Some(source.take(size))]);
            assert(chunk_writes(rest.take(0)) =~= Seq::empty());
        }
        assert(chunk_writes(source) =~= chunk_writes(head) + chunk_writes(source.skip(p)));
    }
}

/// The writes of a copy hand over the source, byte for byte.
pub proof fn copy_writes_the_source(source: Seq<u8>)
    ensures
        written(chunk_writes(source)) == source,
        written(copy_calls(source)) == source,
    decreases source.len(),
{
    written_push(chunk_writes(source), None);
    assert(source + Seq::<u8>::empty() =~= source);
    if source.len() == 0 {
    } else if source.len() <= CHUNK_SIZE {
        written_push(Seq::empty(), Some(source));
        assert(Seq::<Option<Seq<u8>>>::empty().push(Some(source)) =~= seq![Some(source)]);
        assert(Seq::<u8>::empty() + source =~= source);
    } else {
        let size = CHUNK_SIZE as int;
        let head = seq![Some(source.take(size))];
        copy_writes_the_source(source.skip(size));
        written_concat(head, chunk_writes(source.skip(size)));
        written_push(Seq::empty(), Some(source.take(size)));
        assert(Seq::<Option<Seq<u8>>>::empty().push(Some(source.take(size))) =~= head);
        assert(Seq::<u8>::empty() + source.take(size) =~= source.take(size));
        assert(source.take(size) + source.skip(size) =~= source);
    }
}

impl Artifact {
    /// The stream if it is to be stored, nothing if it is to be thrown away.
    pub fn kept(self) -> (stored: Option<Vec<u8>>)
        ensures
            stored is Some <==> self.result.accepted,
            stored matches Some(stream) ==> stream == self.stream,
    {
        if self.result.accepted {
            Some(self.stream)
        } else {
            None
        }
    }
}

/// One step of a copy: writes `chunk`, which is at most `CHUNK_SIZE` bytes
/// long, to the sink unless it is empty, and tells whether the copy is over,
/// which it is when the chunk is shorter than `CHUNK_SIZE`. The sink is
/// flushed when the copy is over.
pub fn copy_chunk(sink: CodecSink, chunk: &[u8]) -> (r: Result<(CodecSink, bool), CompressError>)
    requires
        chunk@.len() <= CHUNK_SIZE,
    ensures
        r is Ok <==> takes_all(sink.codec(), sink.log(), chunk_calls(chunk@)),
        r matches Ok((after, done)) ==> {
            &&& done == (chunk@.len() < CHUNK_SIZE)
            &&& after.codec() == sink.codec()
            &&& after.log() == sink.log() + chunk_calls(chunk@)
            &&& after.fed() == sink.fed() + chunk@
            &&& after.handed() == sink.handed()
        },
        r matches Err(e) ==> {
            &&& e.codec == sink.codec()
            &&& e.stage == if chunk@.len() > 0 && !takes(
                sink.codec(),
                sink.log().push(Some(chunk@)),
            ) {
                Stage::Write
            } else {
                Stage::Flush
            }
        },
{
    let ghost codec = sink.codec();
    let ghost before = sink.log();
    let ghost none = Seq::<Option<Seq<u8>>>::empty();
    proof {
        takes_all_push(codec, before, none, Some(chunk@));
        takes_all_push(codec, before, none.push(Some(chunk@)), None);
        takes_all_push(codec, before, none, None);
        assert(before + none =~= before);
        assert(none.push(Some(chunk@)) =~= seq![Some(chunk@)]);
        assert(before + seq![Some(chunk@)] =~= before.push(Some(chunk@)));
        assert(before + seq![Some(chunk@)].push(None) =~= before.push(Some(chunk@)).push(None));
        assert(before + none.push(None) =~= before.push(None));
        assert(sink.fed() + Seq::<u8>::empty() =~= sink.fed());
    }
    let current = if chunk.len() > 0 {
        match sink.write(chunk) {
            Ok(next) => next,
            Err(e) => {
                return Err(e);
            },
        }
    } else {
        proof {
            assert(sink.fed() + chunk@ =~= sink.fed());
        }
        sink
    };
    if chunk.len() < CHUNK_SIZE {
        match current.flush() {
            Ok(next) => Ok((next, true)),
            Err(e) => Err(e),
        }
    } else {
        Ok((current, false))
    }
}

/// Copies `source` into `sink` in chunks of `CHUNK_SIZE` bytes, in order, and
/// flushes the sink after the last chunk. The copy ends with the first chunk
/// that is not full; for a source whose length is a multiple of the chunk
/// size that is an empty chunk, which is not written.
///
/// Succeeds exactly where the encoder takes every call of the copy. On
/// success gives the number of bytes copied and the sink, which has accepted
/// exactly the bytes of `source` after what it had before.
pub fn chunked_read_write(source: &[u8], sink: CodecSink) -> (r: Result<
    (u64, CodecSink),
    CompressError,
>)
    ensures
        r is Ok <==> takes_all(sink.codec(), sink.log(), copy_calls(source@)),
        r matches Ok((copied, after)) ==> {
            &&& copied == source@.len()
            &&& after.codec() == sink.codec()
            &&& after.log() == sink.log() + copy_calls(source@)
            &&& after.fed() == sink.fed() + source@
            &&& after.handed() == sink.handed()
        },
        r matches Err(e) ==> {
            &&& e.codec == sink.codec()
            &&& e.stage == if takes_all(sink.codec(), sink.log(), chunk_writes(source@)) {
                Stage::Flush
            } else {
                Stage::Write
            }
        },
{
    let ghost codec = sink.codec();
    let ghost before = sink.log();
    let mut current = sink;
    let mut pos: usize = 0;
    let mut done = false;
    proof {
        assert(source@.take(0) =~= Seq::empty());
        assert(before + chunk_writes(source@.take(0)) =~= before);
        takes_all_push(codec, before, chunk_writes(source@), None);
    }
    while !done
        invariant
            pos <= source@.len(),
            !done ==> pos % CHUNK_SIZE == 0,
            codec == sink.codec(),
            before == sink.log(),
            current.codec() == codec,
            current.handed() == sink.handed(),
            !done ==> current.log() == before + chunk_writes(source@.take(pos as int)),
            !done ==> takes_all(codec, before, chunk_writes(source@.take(pos as int))),
            done ==> pos == source@.len(),
            done ==> current.log() == before + copy_calls(source@),
            done ==> takes_all(codec, before, copy_calls(source@)),
            takes_all(codec, before, copy_calls(source@)) == (takes_all(
                codec,
                before,
                chunk_writes(source@),
            ) && takes(codec, (before + chunk_writes(source@)).push(None))),
        decreases source@.len() - pos + if done { 0int } else { 1int },
    {
        let left: usize = source.len() - pos;
        let take: usize = if left < CHUNK_SIZE {
            left
        } else {
            CHUNK_SIZE
        };
        let chunk = slice_subrange(source, pos, pos + take);
        let ghost so_far = chunk_writes(source@.take(pos as int));
        let ghost calls = chunk_calls(chunk@);
        proof {
            assert(source@.take(pos as int) + chunk@ =~= source@.take(pos + take));
            takes_all_concat(codec, before, so_far, calls);
            if take > 0 {
                lemma_chunk_writes_extend(source@.take(pos as int), chunk@);
                takes_all_push(codec, before, so_far, Some(chunk@));
                assert((before + so_far).push(Some(chunk@)) =~= before + so_far.push(
                    Some(chunk@),
                ));
            } else {
                assert(source@.take(pos as int) =~= source@);
            }
            if take < CHUNK_SIZE {
                assert(source@.take(pos + take) =~= source@);
                assert(so_far + calls =~= copy_calls(source@));
            } else {
                assert(so_far + calls =~= chunk_writes(source@.take(pos + take)));
                lemma_chunk_writes_split(source@, pos + take);
                takes_all_concat(
                    codec,
                    before,
                    chunk_writes(source@.take(pos + take)),
                    chunk_writes(source@.skip(pos + take)),
                );
            }
            assert(before + so_far + calls =~= before + (so_far + calls));
        }
        match copy_chunk(current, chunk) {
            Ok((next, last)) => {
                current = next;
                done = last;
            },
            Err(e) => {
                return Err(e);
            },
        }
        pos = pos + take;
    }
    proof {
        written_concat(before, copy_calls(source@));
        copy_writes_the_source(source@);
    }
    Ok((source.len() as u64, current))
}

/// Runs `input` through a fresh encoder of `codec` and closes the stream.
/// Succeeds exactly where the encoder opens, takes every call of the copy
/// and finishes; fails at the first step at which the encoder does.
pub fn encode(input: &[u8], codec: Codec) -> (r: Result<Vec<u8>, CompressError>)
    ensures
        match r {
            Ok(stream) => spec_encode(codec, input@) == Ok::<Seq<u8>, Stage>(stream@),
            Err(e) => e.codec == codec && spec_encode(codec, input@) == Err::<Seq<u8>, Stage>(
                e.stage,
            ),
        },
{
    let sink = match CodecSink::open(codec) {
        Ok(sink) => sink,
        Err(e) => {
            return Err(e);
        },
    };
    let (_, sink) = match chunked_read_write(input, sink) {
        Ok(done) => done,
        Err(e) => {
            proof {
                takes_all_push(codec, Seq::empty(), chunk_writes(input@), None);
            }
            return Err(e);
        },
    };
    proof {
        takes_all_push(codec, Seq::empty(), chunk_writes(input@), None);
        assert(Seq::<Option<Seq<u8>>>::empty() + copy_calls(input@) =~= copy_calls(input@));
    }
    match sink.finish() {
        Ok(stream) => {
            proof {
                assert(Seq::<u8>::empty() + stream@ =~= stream@);
            }
            Ok(stream)
        },
        Err(e) => Err(e),
    }
}

/// Measures a finished stream and judges it against the ceiling: it is
/// accepted exactly when it is strictly shorter than `max_size` bytes.
pub fn settle(codec: Codec, input_size: u64, stream: Vec<u8>, max_size: u64) -> (a: Artifact)
    ensures
        a.stream == stream,
        a.result == spec_settle(codec, input_size, stream@, max_size),
{
    let output_size = stream.len() as u64;
    Artifact { result: judge(codec, input_size, output_size, max_size), stream }
}

/// One codec's attempt on one input. If the codec's artifact is already
/// `present` the attempt is a skip: nothing is encoded, measured or compared
/// with `max_size`, and there is no stream to store. Otherwise: encode,
/// close, measure, judge.
pub fn compress_to_writer(input: &[u8], present: bool, max_size: u64, codec: Codec) -> (r: Result<
    Artifact,
    CompressError,
>)
    ensures
        match r {
            Ok(a) => spec_attempt(codec, input@, present, max_size) == Ok::<
                (CompressionResult, Seq<u8>),
                Stage,
            >((a.result, a.stream@)),
            Err(e) => e.codec == codec && spec_attempt(codec, input@, present, max_size) == Err::<
                (CompressionResult, Seq<u8>),
                Stage,
            >(e.stage),
        },
        present ==> r is Ok,
{
    if present {
        return Ok(Artifact { result: skip(codec, input.len() as u64), stream: Vec::new() });
    }
    match encode(input, codec) {
        Ok(stream) => Ok(settle(codec, input.len() as u64, stream, max_size)),
        Err(e) => Err(e),
    }
}

/// The gzip attempt on `input`, at the best compression level.
pub fn gzip(input: &[u8], present: bool, max_size: u64) -> (r: Result<Artifact, CompressError>)
    ensures
        match r {
            Ok(a) => spec_attempt(Codec::Gzip, input@, present, max_size) == Ok::<
                (CompressionResult, Seq<u8>),
                Stage,
            >((a.result, a.stream@)),
            Err(e) => e.codec == Codec::Gzip && spec_attempt(
                Codec::Gzip,
                input@,
                present,
                max_size,
            ) == Err::<(CompressionResult, Seq<u8>), Stage>(e.stage),
        },
        present ==> r is Ok,
{
    compress_to_writer(input, present, max_size, Codec::Gzip)
}

/// The brotli attempt on `input`, at quality 11 with a window of 22 bits.
pub fn brotli(input: &[u8], present: bool, max_size: u64) -> (r: Result<Artifact, CompressError>)
    ensures
        match r {
            Ok(a) => spec_attempt(Codec::Brotli, input@, present, max_size) == Ok::<
                (CompressionResult, Seq<u8>),
                Stage,
            >((a.result, a.stream@)),
            Err(e) => e.codec == Codec::Brotli && spec_attempt(
                Codec::Brotli,
                input@,
                present,
                max_size,
            ) == Err::<(CompressionResult, Seq<u8>), Stage>(e.stage),
        },
        present ==> r is Ok,
{
    compress_to_writer(input, present, max_size, Codec::Brotli)
}

/// The zstd attempt on `input`, at level 19.
pub fn zstd(input: &[u8], present: bool, max_size: u64) -> (r: Result<Artifact, CompressError>)
    ensures
        match r {
            Ok(a) => spec_attempt(Codec::Zstd, input@, present, max_size) == Ok::<
                (CompressionResult, Seq<u8>),
                Stage,
            >((a.result, a.stream@)),
            Err(e) => e.codec == Codec::Zstd && spec_attempt(
                Codec::Zstd,
                input@,
                present,
                max_size,
            ) == Err::<(CompressionResult, Seq<u8>), Stage>(e.stage),
        },
        present ==> r is Ok,
{
    compress_to_writer(input, present, max_size, Codec::Zstd)
}

} // verus!
