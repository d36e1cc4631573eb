//! Independent units of work, done side by side.

use rayon::iter::{IntoParallelRefIterator, ParallelIterator};
use vstd::prelude::*;
use crate::error::GeopropError;

verus! {

/// Hands the items to rayon's `par_iter`, maps each through `f` with
/// `map` and gathers the results with `collect`. As rayon documents for
/// vectors, there is one result for each item, in the order of the items;
/// each is what `f` returned for its item.
#[verifier::external_body]
pub(crate) fn par_map<A: Copy + Sync, R: Send, F: Fn(A) -> R + Sync>(items: &Vec<A>, f: &F) -> (out:
    Vec<R>)
    requires
        forall|i: int| 0 <= i < items@.len() ==> call_requires(*f, (#[trigger] items@[i],)),
    ensures
        out@.len() == items@.len(),
        forall|i: int|
            0 <= i < items@.len() ==> call_ensures(*f, (items@[i],), #[trigger] out@[i]),
{
    items.par_iter().map(|item| f(*item)).collect()
}

/// Whether `outcomes` succeeded up to, and failed at, position `at`.
pub open spec fn fails_first_at<X>(outcomes: Seq<Result<X, GeopropError>>, at: int) -> bool {
    &&& 0 <= at < outcomes.len()
    &&& outcomes[at] is Err
    &&& forall|j: int| 0 <= j < at ==> (#[trigger] outcomes[j]) is Ok
}

/// The values of outcomes that all succeeded, or the error of the first
/// that failed.
pub fn all_or_first_error<X: Copy>(outcomes: &Vec<Result<X, GeopropError>>) -> (out: Result<
    Vec<X>,
    GeopropError,
>)
    ensures
        match out {
            Ok(values) => {
                &&& values@.len() == outcomes@.len()
                &&& forall|i: int|
                    0 <= i < outcomes@.len() ==> outcomes@[i] == Ok::<X, GeopropError>(
                        #[trigger] values@[i],
                    )
            },
            Err(e) => exists|at: int|
                #[trigger] fails_first_at(outcomes@, at) && outcomes@[at] == Err::<X, GeopropError>(
                    e,
                ),
        },
{
    let mut values: Vec<X> = Vec::new();
    let mut i: usize = 0;
    while i < outcomes.len()
        invariant
            i <= outcomes@.len(),
            values@.len() == i,
            forall|j: int|
                0 <= j < i ==> outcomes@[j] == Ok::<X, GeopropError>(#[trigger] values@[j]),
        decreases outcomes@.len() - i,
    {
        let outcome = outcomes[i];
        match outcome {
            Ok(value) => {
                values.push(value);
            },
            Err(e) => {
                assert forall|j: int| 0 <= j < i implies (#[trigger] outcomes@[j]) is Ok by {
                    assert(outcomes@[j] == Ok::<X, GeopropError>(values@[j]));
                }
                assert(fails_first_at(outcomes@, i as int));
                return Err(e);
            },
        }
        i = i + 1;
    }
    Ok(values)
}

} // verus!
