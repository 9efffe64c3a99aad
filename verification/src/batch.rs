//! Batches: many payloads for one task, and their results in the same order.

use crate::payload::{AsPayload, Payload, PayloadView};
use vstd::prelude::*;
use vstd::std_specs::iter::IteratorSpec;

verus! {

/// Why a task of a batch has no result.
#[derive(Clone, Copy, Debug, PartialEq, Eq, Structural)]
pub enum TaskFailure {
    /// The thread that ran the task panicked: the worker failed.
    ThreadPanicked,
    /// The task's result text could not be read as a value of the type
    /// asked for.
    Deserialization,
}

/// The envelopes of a sequence of values, in order.
pub open spec fn envelopes<P: AsPayload>(values: Seq<P>) -> Seq<PayloadView> {
    values.map_values(|value: P| value.envelope())
}

/// The models of a sequence of envelopes.
pub open spec fn payload_views(payloads: Seq<Payload>) -> Seq<PayloadView> {
    payloads.map_values(|payload: Payload| payload@)
}

/// Whether `i` is the position of the first task among `outcomes` that
/// failed.
pub open spec fn is_first_failure<R>(outcomes: Seq<Result<Option<R>, TaskFailure>>, i: int) -> bool {
    &&& 0 <= i < outcomes.len()
    &&& outcomes[i] is Err
    &&& forall|j: int| 0 <= j < i ==> (#[trigger] outcomes[j]) is Ok
}

/// Converts the payloads of a batch into their envelopes, in order.
pub fn encode_all<P: AsPayload>(values: Vec<P>) -> (payloads: Vec<Payload>)
    ensures
        payload_views(payloads@) == envelopes(values@),
{
    let mut payloads: Vec<Payload> = Vec::new();
    for value in it: values
        invariant
            it.seq() == values@,
            payload_views(payloads@) == envelopes(values@.take(it.index() as int)),
    {
        let ghost before = payload_views(payloads@);
        let ghost i = it.index() as int;
        let payload = value.to_payload();
        payloads.push(payload);
        proof {
            assert(payload_views(payloads@) =~= before.push(payload@));
            assert(values@.take(i + 1) =~= values@.take(i).push(value));
            assert(envelopes(values@.take(i + 1)) =~= envelopes(values@.take(i)).push(
                value.envelope(),
            ));
        }
    }
    assert(values@.take(values@.len() as int) =~= values@);
    payloads
}

/// Gathers the results of a batch, in the order of its payloads. The batch
/// fails as a whole with the failure of its first task that failed.
pub fn collect_results<R>(outcomes: Vec<Result<Option<R>, TaskFailure>>) -> (batch: Result<
    Vec<Option<R>>,
    TaskFailure,
>)
    ensures
        match batch {
            Ok(results) => {
                &&& results@.len() == outcomes@.len()
                &&& forall|i: int|
                    0 <= i < outcomes@.len() ==> (#[trigger] outcomes@[i]) == Ok::<
                        Option<R>,
                        TaskFailure,
                    >(results@[i])
            },
            Err(failure) => exists|i: int|
                is_first_failure(outcomes@, i) && (#[trigger] outcomes@[i]) == Err::<
                    Option<R>,
                    TaskFailure,
                >(failure),
        },
{
    let mut results: Vec<Option<R>> = Vec::new();
    for outcome in it: outcomes
        invariant
            it.seq() == outcomes@,
            results@.len() == it.index(),
            forall|i: int|
                0 <= i < it.index() ==> (#[trigger] outcomes@[i]) == Ok::<Option<R>, TaskFailure>(
                    results@[i],
                ),
    {
        match outcome {
            Ok(result) => {
                results.push(result);
            },
            Err(failure) => {
                assert(is_first_failure(outcomes@, it.index() as int));
                return Err(failure);
            },
        }
    }
    Ok(results)
}

} // verus!
