//! One input's run through the codecs: the enabled codecs are tried in the
//! fixed order, each once, and the ceiling is threaded from one to the next.
//!
//! The pipeline does no work of its own on the file system. For the codec that
//! is pending, the caller says whether its artifact already exists and either
//! hands over the whole input (`attempt`), or takes a sink to copy the input
//! into chunk by chunk (`begin`) and reports the sizes once the stream is
//! complete (`record`). An artifact that exists is passed over in both.

use crate::codec::{Codec, Enabled};
use crate::compress::{compress_to_writer, spec_attempt, Artifact};
use crate::policy::{
    ceiling_after, ceiling_after_push, ceiling_never_rises, follows_policy, judge, judged_at,
    lower, skip, spec_judge, spec_lower, spec_skip, CompressionResult,
};
use crate::sink::{opens, CodecSink, CompressError, Stage};
use vstd::prelude::*;

verus! {

/// How many codecs of the fixed order a run has behind it: one more than the
/// position of the codec it tried last.
pub open spec fn reached(results: Seq<CompressionResult>) -> int {
    if results.len() == 0 {
        0
    } else {
        results.last().codec.rank() + 1
    }
}

/// The first enabled codec at or after a position of the fixed order.
pub open spec fn first_enabled(enabled: Enabled, from: int) -> Option<Codec>
    decreases 3 - from,
{
    if from < 0 || from >= 3 {
        None
    } else if enabled.spec_allows(Codec::at(from)) {
        Some(Codec::at(from))
    } else {
        first_enabled(enabled, from + 1)
    }
}

/// Whether the results are those of the enabled codecs in the fixed order,
/// with none left out and none tried twice.
pub open spec fn in_order(enabled: Enabled, results: Seq<CompressionResult>) -> bool {
    forall|i: int|
        0 <= i < results.len() ==> first_enabled(enabled, reached(results.take(i))) == Some(
            (#[trigger] results[i]).codec,
        )
}

/// Whether the results are a run, finished or not, over the enabled codecs
/// from the given initial ceiling.
pub open spec fn valid_run(
    input_size: u64,
    enabled: Enabled,
    results: Seq<CompressionResult>,
) -> bool {
    in_order(enabled, results) && follows_policy(input_size, results)
}

/// What a pipeline stands for: the probed size of its input, the codecs it
/// may try, and the results so far.
pub struct PipelineView {
    pub input_size: u64,
    pub enabled: Enabled,
    pub results: Seq<CompressionResult>,
}

impl PipelineView {
    /// The ceiling the pending codec has to beat.
    pub open spec fn ceiling(self) -> u64 {
        ceiling_after(self.input_size, self.results)
    }

    /// The codec whose turn it is, if any is left.
    pub open spec fn pending(self) -> Option<Codec> {
        first_enabled(self.enabled, reached(self.results))
    }

    /// The same run with one more result.
    pub open spec fn with(self, r: CompressionResult) -> PipelineView {
        PipelineView { results: self.results.push(r), ..self }
    }

    /// Whether the results are a run over the enabled codecs that keeps to
    /// the acceptance rule.
    pub open spec fn well_formed(self) -> bool {
        valid_run(self.input_size, self.enabled, self.results)
    }
}

struct Progress {
    stage: u8,
    ceiling: u64,
    results: Vec<CompressionResult>,
}

/// The state of one input's run through the codecs.
pub struct Pipeline {
    input_size: u64,
    enabled: Enabled,
    progress: Progress,
}

fn next_enabled(enabled: Enabled, from: u8) -> (codec: Option<Codec>)
    ensures
        codec == first_enabled(enabled, from as int),
{
    reveal_with_fuel(first_enabled, 4);
    if from == 0 && enabled.gzip {
        Some(Codec::Gzip)
    } else if from <= 1 && enabled.brotli {
        Some(Codec::Brotli)
    } else if from <= 2 && enabled.zstd {
        Some(Codec::Zstd)
    } else {
        None
    }
}

/// A run with one more result, for the pending codec and judged at the
/// current ceiling, is a run again.
pub proof fn valid_run_push(
    input_size: u64,
    enabled: Enabled,
    results: Seq<CompressionResult>,
    r: CompressionResult,
)
    requires
        valid_run(input_size, enabled, results),
        first_enabled(enabled, reached(results)) == Some(r.codec),
        judged_at(ceiling_after(input_size, results), r),
    ensures
        valid_run(input_size, enabled, results.push(r)),
        reached(results.push(r)) == r.codec.rank() + 1,
        ceiling_after(input_size, results.push(r)) == spec_lower(
            ceiling_after(input_size, results),
            r,
        ),
{
    let longer = results.push(r);
    ceiling_after_push(input_size, results, r);
    assert forall|i: int| 0 <= i < longer.len() implies first_enabled(
        enabled,
        reached(longer.take(i)),
    ) == Some((#[trigger] longer[i]).codec) && judged_at(
        ceiling_after(input_size, longer.take(i)),
        longer[i],
    ) by {
        if i < results.len() {
            assert(longer.take(i) =~= results.take(i));
            assert(longer[i] == results[i]);
        } else {
            assert(longer.take(i) =~= results);
        }
    }
}

impl Progress {
    spec fn consistent(&self, input_size: u64, enabled: Enabled) -> bool {
        &&& self.stage as int == reached(self.results@)
        &&& self.ceiling == ceiling_after(input_size, self.results@)
        &&& valid_run(input_size, enabled, self.results@)
    }

    /// The progress after one more result.
    fn advance(
        &self,
        r: CompressionResult,
        Ghost(input_size): Ghost<u64>,
        Ghost(enabled): Ghost<Enabled>,
    ) -> (next: Progress)
        requires
            self.consistent(input_size, enabled),
            first_enabled(enabled, self.stage as int) == Some(r.codec),
            judged_at(self.ceiling, r),
        ensures
            next.consistent(input_size, enabled),
            next.results@ == self.results@.push(r),
            next.ceiling == spec_lower(self.ceiling, r),
    {
        proof {
            valid_run_push(input_size, enabled, self.results@, r);
        }
        let mut results = self.results.clone();
        assert(results@ =~= self.results@);
        results.push(r);
        Progress { stage: r.codec.order() + 1, ceiling: lower(self.ceiling, &r), results }
    }
}

impl View for Pipeline {
    type V = PipelineView;

    closed spec fn view(&self) -> PipelineView {
        PipelineView {
            input_size: self.input_size,
            enabled: self.enabled,
            results: self.progress.results@,
        }
    }
}

impl Pipeline {
    #[verifier::type_invariant]
    spec fn inv(&self) -> bool {
        self.progress.consistent(self.input_size, self.enabled)
    }

    /// A run that has tried nothing yet. The ceiling starts at the size of
    /// the input.
    pub fn new(input_size: u64, enabled: Enabled) -> (p: Pipeline)
        ensures
            p@ == (PipelineView { input_size, enabled, results: Seq::empty() }),
            p@.ceiling() == input_size,
            p@.well_formed(),
    {
        Pipeline {
            input_size,
            enabled,
            progress: Progress { stage: 0, ceiling: input_size, results: Vec::new() },
        }
    }

    /// The ceiling the pending codec has to beat: the size of the input or of
    /// the smallest artifact accepted so far, whichever is smaller.
    pub fn ceiling(&self) -> (c: u64)
        ensures
            c == self@.ceiling(),
            c <= self@.input_size,
            self@.well_formed(),
    {
        proof {
            use_type_invariant(self);
            ceiling_never_rises(self.input_size, self.progress.results@, 0);
        }
        self.progress.ceiling
    }

    /// The codec whose turn it is: the first enabled codec, in the fixed
    /// order, after the one tried last. `None` when the run is over.
    pub fn pending(&self) -> (codec: Option<Codec>)
        ensures
            codec == self@.pending(),
            codec matches Some(c) ==> self@.enabled.spec_allows(c),
            self@.well_formed(),
    {
        proof {
            use_type_invariant(self);
            reveal_with_fuel(first_enabled, 4);
        }
        next_enabled(self.enabled, self.progress.stage)
    }

    /// The results so far, in the order in which the codecs were tried.
    pub fn results(&self) -> (results: &Vec<CompressionResult>)
        ensures
            results@ == self@.results,
            self@.well_formed(),
    {
        proof {
            use_type_invariant(self);
        }
        &self.progress.results
    }

    /// Reports that the pending codec's artifact already exists. The codec is
    /// passed over: nothing is produced or compared and the ceiling stays.
    /// Does nothing when the run is over.
    pub fn skip(&mut self) -> (r: Option<CompressionResult>)
        ensures
            match old(self)@.pending() {
                Some(codec) => {
                    &&& r == Some(spec_skip(codec, old(self)@.input_size))
                    &&& final(self)@ == old(self)@.with(r->0)
                    &&& final(self)@.ceiling() == old(self)@.ceiling()
                },
                None => r is None && final(self)@ == old(self)@,
            },
            final(self)@.well_formed(),
    {
        proof {
            use_type_invariant(&*self);
        }
        match next_enabled(self.enabled, self.progress.stage) {
            Some(codec) => {
                let r = skip(codec, self.input_size);
                let next = self.progress.advance(r, Ghost(self.input_size), Ghost(self.enabled));
                self.progress = next;
                Some(r)
            },
            None => None,
        }
    }

    /// Reports an artifact of `output_size` bytes that the pending codec made
    /// of `input_size` bytes of input. It is judged against the ceiling, and
    /// if it is accepted its size is the new ceiling. Does nothing when the
    /// run is over.
    pub fn record(&mut self, input_size: u64, output_size: u64) -> (r: Option<CompressionResult>)
        ensures
            match old(self)@.pending() {
                Some(codec) => {
                    &&& r == Some(spec_judge(codec, input_size, output_size, old(self)@.ceiling()))
                    &&& final(self)@ == old(self)@.with(r->0)
                    &&& final(self)@.ceiling() == spec_lower(old(self)@.ceiling(), r->0)
                },
                None => r is None && final(self)@ == old(self)@,
            },
            final(self)@.well_formed(),
    {
        proof {
            use_type_invariant(&*self);
        }
        match next_enabled(self.enabled, self.progress.stage) {
            Some(codec) => {
                let r = judge(codec, input_size, output_size, self.progress.ceiling);
                let next = self.progress.advance(r, Ghost(self.input_size), Ghost(self.enabled));
                self.progress = next;
                Some(r)
            },
            None => None,
        }
    }

    /// Starts the pending codec's attempt. If its artifact is already
    /// `present` the codec is passed over, as by `skip`, and no sink is
    /// opened. Otherwise a sink is opened for the codec and the run stays
    /// where it is until the sizes are handed to `record`. Does nothing when
    /// the run is over.
    pub fn begin(&mut self, present: bool) -> (r: Result<Option<CodecSink>, CompressError>)
        ensures
            match old(self)@.pending() {
                Some(codec) => if present {
                    &&& r matches Ok(None)
                    &&& final(self)@ == old(self)@.with(spec_skip(codec, old(self)@.input_size))
                    &&& final(self)@.ceiling() == old(self)@.ceiling()
                } else {
                    &&& final(self)@ == old(self)@
                    &&& r is Ok <==> opens(codec)
                    &&& r matches Ok(opened) ==> opened matches Some(sink) && sink.codec() == codec
                        && sink.log() == Seq::<Option<Seq<u8>>>::empty() && sink.handed()
                        == Seq::<u8>::empty()
                    &&& r matches Err(e) ==> e.codec == codec && e.stage == Stage::Open
                },
                None => r matches Ok(None) && final(self)@ == old(self)@,
            },
            final(self)@.well_formed(),
    {
        proof {
            use_type_invariant(&*self);
        }
        match next_enabled(self.enabled, self.progress.stage) {
            Some(codec) => {
                if present {
                    let r = skip(codec, self.input_size);
                    let next = self.progress.advance(
                        r,
                        Ghost(self.input_size),
                        Ghost(self.enabled),
                    );
                    self.progress = next;
                    Ok(None)
                } else {
                    match CodecSink::open(codec) {
                        Ok(sink) => Ok(Some(sink)),
                        Err(e) => Err(e),
                    }
                }
            },
            None => Ok(None),
        }
    }

    /// The pending codec's attempt on an input held in memory. If the
    /// codec's artifact is already `present` it is passed over; otherwise the
    /// input is encoded and the stream judged against the ceiling. The
    /// stream comes back with the result, which says whether it is to be
    /// stored. If the encoder fails the run stays where it was. Does nothing
    /// when the run is over.
    pub fn attempt(&mut self, input: &[u8], present: bool) -> (r: Result<
        Option<Artifact>,
        CompressError,
    >)
        ensures
            match old(self)@.pending() {
                Some(codec) => match r {
                    Ok(Some(a)) => {
                        &&& spec_attempt(codec, input@, present, old(self)@.ceiling()) == Ok::<
                            (CompressionResult, Seq<u8>),
                            Stage,
                        >((a.result, a.stream@))
                        &&& final(self)@ == old(self)@.with(a.result)
                        &&& final(self)@.ceiling() == spec_lower(old(self)@.ceiling(), a.result)
                    },
                    Ok(None) => false,
                    Err(e) => {
                        &&& e.codec == codec
                        &&& spec_attempt(codec, input@, present, old(self)@.ceiling()) == Err::<
                            (CompressionResult, Seq<u8>),
                            Stage,
                        >(e.stage)
                        &&& final(self)@ == old(self)@
                    },
                },
                None => r matches Ok(None) && final(self)@ == old(self)@,
            },
            present ==> r is Ok,
            final(self)@.well_formed(),
    {
        proof {
            use_type_invariant(&*self);
        }
        match next_enabled(self.enabled, self.progress.stage) {
            Some(codec) => match compress_to_writer(input, present, self.progress.ceiling, codec) {
                Ok(artifact) => {
                    let next = self.progress.advance(
                        artifact.result,
                        Ghost(self.input_size),
                        Ghost(self.enabled),
                    );
                    self.progress = next;
                    Ok(Some(artifact))
                },
                Err(e) => Err(e),
            },
            None => Ok(None),
        }
    }
}

} // verus!
