//! What a second run finds after a first: the artifacts that the first run
//! left are passed over, and the codecs whose artifacts it threw away are
//! tried again on the same input.

use crate::codec::{Codec, Enabled};
use crate::compress::spec_attempt;
use crate::pipeline::{first_enabled, in_order, reached, valid_run};
use crate::policy::{ceiling_after, judged_at, spec_lower, spec_skip, CompressionResult};
use crate::sink::Stage;
use vstd::prelude::*;

verus! {

/// An artifact that is present is left alone: the attempt succeeds whatever
/// the ceiling and whatever the encoder would do, produces no stream, leaves
/// the artifact where it is, and does not move the ceiling.
pub proof fn present_artifact_is_left_alone(
    codec: Codec,
    input: Seq<u8>,
    max_size: u64,
    ceiling: u64,
)
    ensures
        spec_attempt(codec, input, true, max_size) == Ok::<(CompressionResult, Seq<u8>), Stage>(
            (spec_skip(codec, input.len() as u64), Seq::empty()),
        ),
        spec_skip(codec, input.len() as u64).spec_leaves_artifact(),
        !spec_skip(codec, input.len() as u64).accepted,
        spec_lower(ceiling, spec_skip(codec, input.len() as u64)) == ceiling,
{
}

/// An attempt after one that left its artifact passes the artifact over,
/// whatever the second ceiling is, zero included.
pub proof fn second_attempt_passes_over(
    codec: Codec,
    input: Seq<u8>,
    present: bool,
    first_max: u64,
    second_max: u64,
)
    requires
        spec_attempt(codec, input, present, first_max) is Ok,
        spec_attempt(codec, input, present, first_max)->Ok_0.0.spec_leaves_artifact(),
    ensures
        spec_attempt(codec, input, true, second_max) is Ok,
        spec_attempt(codec, input, true, second_max)->Ok_0.0.spec_skipped(),
        spec_attempt(codec, input, true, second_max)->Ok_0.1 == Seq::<u8>::empty(),
{
}

/// Whether a run has tried every enabled codec.
pub open spec fn complete(enabled: Enabled, results: Seq<CompressionResult>) -> bool {
    first_enabled(enabled, reached(results)) is None
}

/// Whether `second` is a full run over an input and a directory that nothing
/// but the full run `first` has touched: where `first` left an artifact,
/// `second` finds it and passes over the codec; where `first` threw the
/// artifact away, `second` lets the codec produce it again, at the same size.
pub open spec fn is_rerun(
    input_size: u64,
    enabled: Enabled,
    first: Seq<CompressionResult>,
    second: Seq<CompressionResult>,
) -> bool {
    &&& valid_run(input_size, enabled, first)
    &&& complete(enabled, first)
    &&& valid_run(input_size, enabled, second)
    &&& complete(enabled, second)
    &&& forall|i: int|
        0 <= i < first.len() && i < second.len() ==> finds_what_was_left(
            #[trigger] first[i],
            second[i],
        )
}

/// Whether `second` is what a codec's second attempt gives after `first`: the
/// artifact is passed over if `first` left it, and produced again at the same
/// size if `first` threw it away.
pub open spec fn finds_what_was_left(first: CompressionResult, second: CompressionResult) -> bool {
    if first.spec_leaves_artifact() {
        second.spec_skipped()
    } else {
        second.output_size == first.output_size
    }
}

/// Whether every artifact that a run threw away was no smaller than the
/// input itself.
pub open spec fn threw_away_only_oversized(
    input_size: u64,
    results: Seq<CompressionResult>,
) -> bool {
    forall|i: int|
        0 <= i < results.len() && (#[trigger] results[i]).spec_rejected()
            ==> results[i].output_size->0 >= input_size
}

/// Whether both runs leave the same codecs' artifacts behind.
pub open spec fn same_artifacts(
    first: Seq<CompressionResult>,
    second: Seq<CompressionResult>,
) -> bool {
    &&& first.len() == second.len()
    &&& forall|i: int|
        0 <= i < first.len() ==> (#[trigger] first[i]).spec_leaves_artifact()
            == second[i].spec_leaves_artifact()
}

/// Two runs over the same enabled codecs have tried the same codecs as far
/// as both have come.
proof fn lemma_same_progress(
    enabled: Enabled,
    a: Seq<CompressionResult>,
    b: Seq<CompressionResult>,
    n: int,
)
    requires
        in_order(enabled, a),
        in_order(enabled, b),
        0 <= n <= a.len(),
        n <= b.len(),
    ensures
        reached(a.take(n)) == reached(b.take(n)),
        forall|i: int| 0 <= i < n ==> (#[trigger] a[i]).codec == b[i].codec,
    decreases n,
{
    if n > 0 {
        lemma_same_progress(enabled, a, b, n - 1);
        assert(a.take(n).last() == a[n - 1]);
        assert(b.take(n).last() == b[n - 1]);
    }
}

/// Two full runs over the same enabled codecs have tried the same codecs.
pub proof fn full_runs_try_the_same_codecs(
    enabled: Enabled,
    a: Seq<CompressionResult>,
    b: Seq<CompressionResult>,
)
    requires
        in_order(enabled, a),
        complete(enabled, a),
        in_order(enabled, b),
        complete(enabled, b),
    ensures
        a.len() == b.len(),
        forall|i: int| 0 <= i < a.len() ==> (#[trigger] a[i]).codec == b[i].codec,
{
    let n = if a.len() <= b.len() {
        a.len() as int
    } else {
        b.len() as int
    };
    lemma_same_progress(enabled, a, b, n);
    assert(a.take(a.len() as int) =~= a);
    assert(b.take(b.len() as int) =~= b);
    if a.len() < b.len() {
        assert(first_enabled(enabled, reached(b.take(n))) == Some(b[n].codec));
    } else if b.len() < a.len() {
        assert(first_enabled(enabled, reached(a.take(n))) == Some(a[n].codec));
    }
}

/// As long as nothing is accepted the ceiling stays where it started.
proof fn lemma_ceiling_stays(initial: u64, results: Seq<CompressionResult>, n: int)
    requires
        0 <= n <= results.len(),
        forall|j: int| 0 <= j < n ==> !(#[trigger] results[j]).accepted,
    ensures
        ceiling_after(initial, results.take(n)) == initial,
    decreases n,
{
    if n > 0 {
        lemma_ceiling_stays(initial, results, n - 1);
        assert(results.take(n).drop_last() =~= results.take(n - 1));
        assert(results.take(n).last() == results[n - 1]);
    }
}

/// If the first run left an artifact for every codec it tried, the second
/// run passes over every codec: it produces nothing, keeps every artifact,
/// and its ceiling never moves.
pub proof fn rerun_passes_over_kept_artifacts(
    input_size: u64,
    enabled: Enabled,
    first: Seq<CompressionResult>,
    second: Seq<CompressionResult>,
)
    requires
        is_rerun(input_size, enabled, first, second),
        forall|i: int| 0 <= i < first.len() ==> (#[trigger] first[i]).spec_leaves_artifact(),
    ensures
        second.len() == first.len(),
        forall|i: int|
            0 <= i < second.len() ==> (#[trigger] second[i]).spec_skipped() && second[i].codec
                == first[i].codec,
        same_artifacts(first, second),
        ceiling_after(input_size, second) == input_size,
{
    full_runs_try_the_same_codecs(enabled, first, second);
    assert forall|i: int| 0 <= i < second.len() implies (#[trigger] second[i]).spec_skipped()
        && !second[i].accepted && second[i].codec == first[i].codec by {
        assert(finds_what_was_left(first[i], second[i]));
    }
    lemma_ceiling_stays(input_size, second, second.len() as int);
    assert(second.take(second.len() as int) =~= second);
}

/// The second run leaves the same artifacts as the first exactly when every
/// artifact that the first run threw away was no smaller than the input
/// itself. (A thrown-away artifact that is smaller than the input lost to an
/// earlier artifact; the second run passes that one over without measuring
/// it, so the smaller one is kept this time.)
pub proof fn rerun_leaves_same_artifacts(
    input_size: u64,
    enabled: Enabled,
    first: Seq<CompressionResult>,
    second: Seq<CompressionResult>,
)
    requires
        is_rerun(input_size, enabled, first, second),
    ensures
        second.len() == first.len(),
        same_artifacts(first, second) <==> threw_away_only_oversized(input_size, first),
{
    full_runs_try_the_same_codecs(enabled, first, second);
    let n = first.len() as int;
    if threw_away_only_oversized(input_size, first) {
        lemma_rerun_accepts_nothing(input_size, enabled, first, second, n);
        assert forall|i: int| 0 <= i < n implies (#[trigger] first[i]).spec_leaves_artifact()
            == second[i].spec_leaves_artifact() by {
            assert(!second[i].accepted);
            assert(finds_what_was_left(first[i], second[i]));
        }
    }
    if same_artifacts(first, second) {
        assert forall|j: int| 0 <= j < n implies !(#[trigger] second[j]).accepted by {
            assert(finds_what_was_left(first[j], second[j]));
        }
        assert forall|i: int|
            0 <= i < n && (#[trigger] first[i]).spec_rejected() implies first[i].output_size->0
            >= input_size by {
            lemma_ceiling_stays(input_size, second, i);
            assert(finds_what_was_left(first[i], second[i]));
            assert(judged_at(ceiling_after(input_size, second.take(i)), second[i]));
        }
    }
}

/// If every artifact that the first run threw away was no smaller than the
/// input, the second run accepts nothing up to position `n`.
proof fn lemma_rerun_accepts_nothing(
    input_size: u64,
    enabled: Enabled,
    first: Seq<CompressionResult>,
    second: Seq<CompressionResult>,
    n: int,
)
    requires
        is_rerun(input_size, enabled, first, second),
        first.len() == second.len(),
        0 <= n <= first.len(),
        threw_away_only_oversized(input_size, first),
    ensures
        forall|j: int| 0 <= j < n ==> !(#[trigger] second[j]).accepted,
    decreases n,
{
    if n > 0 {
        lemma_rerun_accepts_nothing(input_size, enabled, first, second, n - 1);
        lemma_ceiling_stays(input_size, second, n - 1);
        let i = n - 1;
        assert(judged_at(ceiling_after(input_size, second.take(i)), second[i]));
        assert(finds_what_was_left(first[i], second[i]));
        if !first[i].spec_leaves_artifact() {
            assert(first[i].spec_rejected());
        }
    }
}

} // verus!
