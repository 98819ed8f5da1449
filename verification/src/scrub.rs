//! Scrubbing spans before they are exported.

use vstd::prelude::*;

verus! {

/// Whether a batch of spans is what scrubbing makes of another: without a
/// scrubber the same, and with one, span by span what the scrubber returned.
pub open spec fn scrubbed<T, S: Fn(T) -> T>(
    scrubber: Option<S>,
    batch: Seq<T>,
    result: Seq<T>,
) -> bool {
    match scrubber {
        Some(scrub) => {
            &&& result.len() == batch.len()
            &&& forall|i: int|
                0 <= i < batch.len() ==> call_ensures(scrub, (batch[i],), #[trigger] result[i])
        },
        None => result == batch,
    }
}

/// Applies a scrubber, if there is one, to each span of a batch, just before
/// the batch is exported.  Every span is scrubbed once, none is dropped, and
/// they stay in order.
pub fn scrub_batch<T, S: Fn(T) -> T>(scrubber: &Option<S>, batch: Vec<T>) -> (r: Vec<T>)
    requires
        scrubber matches Some(scrub) ==> forall|i: int|
            0 <= i < batch@.len() ==> call_requires(scrub, (#[trigger] batch@[i],)),
    ensures
        scrubbed(*scrubber, batch@, r@),
        r@.len() == batch@.len(),
        scrubber is None ==> r@ == batch@,
        scrubber matches Some(scrub) ==> forall|i: int|
            0 <= i < batch@.len() ==> call_ensures(scrub, (batch@[i],), #[trigger] r@[i]),
{
    match scrubber {
        Some(scrub) => {
            let ghost spans = batch@;
            let mut result: Vec<T> = Vec::with_capacity(batch.len());
            for span in it: batch
                invariant
                    it.seq() == spans,
                    result@.len() == it.index(),
                    forall|i: int|
                        0 <= i < spans.len() ==> call_requires(scrub, (#[trigger] spans[i],)),
                    forall|i: int|
                        0 <= i < result@.len() ==> call_ensures(
                            scrub,
                            (spans[i],),
                            #[trigger] result@[i],
                        ),
            {
                assert(span == spans[it.index() as int]);
                result.push(scrub(span));
            }
            result
        },
        None => batch,
    }
}

/// No span escapes the scrubber: whatever the scrubber guarantees of the spans
/// that it returns holds of every span that is exported.
pub proof fn law_scrubber_reaches_every_span<T, S: Fn(T) -> T>(
    scrub: S,
    batch: Seq<T>,
    result: Seq<T>,
    guaranteed: spec_fn(T) -> bool,
)
    requires
        scrubbed(Some(scrub), batch, result),
        forall|span: T, after: T| #[trigger] call_ensures(scrub, (span,), after) ==> guaranteed(after),
    ensures
        result.len() == batch.len(),
        forall|i: int| 0 <= i < result.len() ==> guaranteed(#[trigger] result[i]),
{
}

/// A scrubber that changes nothing has the effect of none.
pub proof fn law_identity_scrubber_changes_nothing<T, S: Fn(T) -> T>(
    scrub: S,
    batch: Seq<T>,
    result: Seq<T>,
)
    requires
        scrubbed(Some(scrub), batch, result),
        forall|span: T, after: T| #[trigger] call_ensures(scrub, (span,), after) ==> after == span,
    ensures
        scrubbed(None::<S>, batch, result),
{
    assert(result =~= batch);
}

} // verus!
