//! The acceptance rule: an artifact is kept only if it is strictly smaller
//! than everything kept so far for the same input, the input itself included.
//!
//! The ceiling starts at the input's size. Each codec's artifact is judged
//! against the ceiling as it stands; a kept artifact lowers the ceiling to its
//! own size, a rejected or skipped one leaves it alone.

use crate::codec::Codec;
use vstd::prelude::*;

verus! {

/// What became of one codec's attempt on one input.
#[derive(Clone, Copy, Debug, PartialEq, Eq, Structural)]
pub struct CompressionResult {
    pub codec: Codec,
    /// Size of the input in bytes.
    pub input_size: u64,
    /// Size of the artifact that was produced; `None` when the artifact was
    /// already there and nothing was produced.
    pub output_size: Option<u64>,
    /// Whether a freshly produced artifact was kept.
    pub accepted: bool,
}

impl CompressionResult {
    /// The artifact was already there, so the codec did no work.
    pub open spec fn spec_skipped(self) -> bool {
        self.output_size is None
    }

    /// An artifact was produced and thrown away again.
    pub open spec fn spec_rejected(self) -> bool {
        self.output_size is Some && !self.accepted
    }

    /// Whether the codec's artifact exists once the attempt is over: it was
    /// there before, or it was produced and kept.
    pub open spec fn spec_leaves_artifact(self) -> bool {
        self.spec_skipped() || self.accepted
    }

    #[verifier::when_used_as_spec(spec_skipped)]
    pub fn skipped(self) -> (b: bool)
        ensures
            b == self.spec_skipped(),
    {
        self.output_size.is_none()
    }

    #[verifier::when_used_as_spec(spec_rejected)]
    pub fn rejected(self) -> (b: bool)
        ensures
            b == self.spec_rejected(),
    {
        self.output_size.is_some() && !self.accepted
    }

    #[verifier::when_used_as_spec(spec_leaves_artifact)]
    pub fn leaves_artifact(self) -> (b: bool)
        ensures
            b == self.spec_leaves_artifact(),
    {
        self.output_size.is_none() || self.accepted
    }
}

/// The result for a codec whose artifact already exists.
pub open spec fn spec_skip(codec: Codec, input_size: u64) -> CompressionResult {
    CompressionResult { codec, input_size, output_size: None, accepted: false }
}

/// The result for a freshly produced artifact of `output_size` bytes, held
/// against `ceiling`: kept exactly when it is strictly smaller.
pub open spec fn spec_judge(
    codec: Codec,
    input_size: u64,
    output_size: u64,
    ceiling: u64,
) -> CompressionResult {
    CompressionResult {
        codec,
        input_size,
        output_size: Some(output_size),
        accepted: output_size < ceiling,
    }
}

/// The ceiling after one attempt: the smaller of the old ceiling and the size
/// of an accepted artifact; unchanged by a rejected or skipped one.
pub open spec fn spec_lower(ceiling: u64, r: CompressionResult) -> u64 {
    match r.output_size {
        Some(size) if r.accepted && size < ceiling => size,
        _ => ceiling,
    }
}

/// The ceiling after a sequence of attempts, starting from `initial`.
pub open spec fn ceiling_after(initial: u64, results: Seq<CompressionResult>) -> u64
    decreases results.len(),
{
    if results.len() == 0 {
        initial
    } else {
        spec_lower(ceiling_after(initial, results.drop_last()), results.last())
    }
}

/// Whether one result is what the rule gives at the given ceiling.
pub open spec fn judged_at(ceiling: u64, r: CompressionResult) -> bool {
    match r.output_size {
        Some(size) => r.accepted == (size < ceiling),
        None => !r.accepted,
    }
}

/// Whether every result of a run is what the rule gives at the ceiling that
/// the results before it left behind.
pub open spec fn follows_policy(initial: u64, results: Seq<CompressionResult>) -> bool {
    forall|i: int|
        0 <= i < results.len() ==> judged_at(
            ceiling_after(initial, results.take(i)),
            #[trigger] results[i],
        )
}

/// Records that the artifact of `codec` already exists: nothing is produced,
/// measured or compared.
pub fn skip(codec: Codec, input_size: u64) -> (r: CompressionResult)
    ensures
        r == spec_skip(codec, input_size),
        r.spec_skipped(),
        r.spec_leaves_artifact(),
        forall|ceiling: u64| spec_lower(ceiling, r) == ceiling,
{
    CompressionResult { codec, input_size, output_size: None, accepted: false }
}

/// Judges a freshly produced artifact against the ceiling. An artifact
/// strictly smaller than the ceiling is kept and becomes the new ceiling; one
/// of the same size or larger is thrown away and the ceiling stays.
pub fn judge(codec: Codec, input_size: u64, output_size: u64, ceiling: u64) -> (r:
    CompressionResult)
    ensures
        r == spec_judge(codec, input_size, output_size, ceiling),
        output_size < ceiling ==> r.accepted && spec_lower(ceiling, r) == output_size,
        output_size >= ceiling ==> !r.spec_leaves_artifact() && spec_lower(ceiling, r) == ceiling,
{
    CompressionResult {
        codec,
        input_size,
        output_size: Some(output_size),
        accepted: output_size < ceiling,
    }
}

/// The ceiling that the next codec has to beat.
pub fn lower(ceiling: u64, r: &CompressionResult) -> (next: u64)
    ensures
        next == spec_lower(ceiling, *r),
        next <= ceiling,
{
    match r.output_size {
        Some(size) => {
            if r.accepted && size < ceiling {
                size
            } else {
                ceiling
            }
        },
        None => ceiling,
    }
}

/// One more attempt moves the ceiling by one step of the rule.
pub proof fn ceiling_after_push(initial: u64, results: Seq<CompressionResult>, r: CompressionResult)
    ensures
        ceiling_after(initial, results.push(r)) == spec_lower(ceiling_after(initial, results), r),
{
    assert(results.push(r).drop_last() =~= results);
}

/// The ceiling only ever tightens: after any attempts it is at most what it
/// was after any earlier part of them, and never above the initial value.
pub proof fn ceiling_never_rises(initial: u64, results: Seq<CompressionResult>, earlier: int)
    requires
        0 <= earlier <= results.len(),
    ensures
        ceiling_after(initial, results) <= ceiling_after(initial, results.take(earlier)),
        ceiling_after(initial, results) <= initial,
    decreases results.len(),
{
    if results.len() == 0 {
        assert(results.take(earlier) =~= results);
    } else if earlier == results.len() {
        assert(results.take(earlier) =~= results);
        ceiling_never_rises(initial, results.drop_last(), 0);
    } else {
        assert(results.drop_last().take(earlier) =~= results.take(earlier));
        ceiling_never_rises(initial, results.drop_last(), earlier);
    }
}

/// Right after an accepted attempt the ceiling is that artifact's size.
pub proof fn accepted_sets_ceiling(initial: u64, results: Seq<CompressionResult>, i: int)
    requires
        follows_policy(initial, results),
        0 <= i < results.len(),
        results[i].accepted,
    ensures
        results[i].output_size is Some,
        ceiling_after(initial, results.take(i + 1)) == results[i].output_size->0,
{
    let upto = results.take(i + 1);
    assert(upto.drop_last() =~= results.take(i));
    assert(upto.last() == results[i]);
}

/// The sizes of the artifacts accepted in one run go strictly down: of two
/// accepted in the same run, the later one is the smaller.
pub proof fn accepted_sizes_decrease(
    initial: u64,
    results: Seq<CompressionResult>,
    i: int,
    j: int,
)
    requires
        follows_policy(initial, results),
        0 <= i < j < results.len(),
        results[i].accepted,
        results[j].accepted,
    ensures
        results[i].output_size is Some,
        results[j].output_size is Some,
        results[j].output_size->0 < results[i].output_size->0,
        results[i].output_size->0 < initial,
{
    accepted_sets_ceiling(initial, results, i);
    assert(results.take(j).take(i + 1) =~= results.take(i + 1));
    ceiling_never_rises(initial, results.take(j), i + 1);
    assert(results.take(i + 1).take(i) =~= results.take(i));
    ceiling_never_rises(initial, results.take(i), 0);
}

/// An artifact that was produced and not accepted was no smaller than the
/// ceiling it met, and it is gone when the attempt is over.
pub proof fn rejected_was_no_smaller(initial: u64, results: Seq<CompressionResult>, i: int)
    requires
        follows_policy(initial, results),
        0 <= i < results.len(),
        results[i].spec_rejected(),
    ensures
        results[i].output_size->0 >= ceiling_after(initial, results.take(i)),
        !results[i].spec_leaves_artifact(),
        ceiling_after(initial, results.take(i + 1)) == ceiling_after(initial, results.take(i)),
{
    let upto = results.take(i + 1);
    assert(upto.drop_last() =~= results.take(i));
    assert(upto.last() == results[i]);
}

} // verus!
