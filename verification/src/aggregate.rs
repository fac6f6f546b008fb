//! The counters of a run as values of the contracts: those of all calls
//! together and those of each operation, and how they add up.

use crate::counters::{
    consistent, failures_at, has_room, lemma_no_calls_consistent, lemma_nothing_counted,
    lemma_recorded_consistent, lemma_recorded_occurrences, lemma_recorded_samples, no_calls,
    occurrences, recorded, successes_at, CounterSet, Outcome,
};
use crate::counters::latency_of;
use crate::latency::{layout_facts, slot_of, SAMPLE_CAPACITY};
use crate::names::{distinct, lemma_place_of, place_of};
use vstd::prelude::*;

verus! {

/// The counters of a run: those of all calls together, and those of each
/// operation that a call named, in the order in which the names were first
/// seen.
pub struct Aggregate {
    pub combined: CounterSet,
    pub operations: Seq<Seq<char>>,
    pub by_operation: Seq<CounterSet>,
    /// What counters of the calls that named no operation would hold. No
    /// such counters are kept; the contracts speak of them to say how the
    /// others add up.
    pub unnamed: CounterSet,
}

/// Sum of `part` over the first `n` counter sets.
pub open spec fn sum_over(sets: Seq<CounterSet>, part: spec_fn(CounterSet) -> nat, n: int) -> nat
    decreases n,
{
    if n <= 0 || n > sets.len() {
        0
    } else {
        sum_over(sets, part, n - 1) + part(sets[n - 1])
    }
}

/// A run in which no call was made.
pub open spec fn no_run() -> Aggregate {
    Aggregate {
        combined: no_calls(),
        operations: Seq::empty(),
        by_operation: Seq::empty(),
        unnamed: no_calls(),
    }
}

/// The counters of a run after one more call: it is counted in the
/// combined counters, and in those of the operation that it names, which
/// begin with it where the name is new. A run whose combined counters are
/// full stays as it is.
pub open spec fn reported(m: Aggregate, o: Outcome) -> Aggregate {
    if !has_room(m.combined) {
        m
    } else {
        match o.operation {
            None => Aggregate {
                combined: recorded(m.combined, o),
                operations: m.operations,
                by_operation: m.by_operation,
                unnamed: recorded(m.unnamed, o),
            },
            Some(name) => {
                let place = place_of(m.operations, name);
                if place < m.operations.len() {
                    Aggregate {
                        combined: recorded(m.combined, o),
                        operations: m.operations,
                        by_operation: m.by_operation.update(
                            place,
                            recorded(m.by_operation[place], o),
                        ),
                        unnamed: m.unnamed,
                    }
                } else {
                    Aggregate {
                        combined: recorded(m.combined, o),
                        operations: m.operations.push(name),
                        by_operation: m.by_operation.push(recorded(no_calls(), o)),
                        unnamed: m.unnamed,
                    }
                }
            },
        }
    }
}

/// `n`, or `usize::MAX` where it is larger.
pub open spec fn capped(n: nat) -> usize {
    if n > usize::MAX {
        usize::MAX
    } else {
        n as usize
    }
}

/// The number of requests of a counter set.
pub open spec fn requests_part() -> spec_fn(CounterSet) -> nat {
    |c: CounterSet| c.total_requests as nat
}

/// The number of successes of a counter set.
pub open spec fn successes_part() -> spec_fn(CounterSet) -> nat {
    |c: CounterSet| c.successful_requests as nat
}

/// The number of bytes of a counter set.
pub open spec fn bytes_part() -> spec_fn(CounterSet) -> nat {
    |c: CounterSet| c.total_bytes as nat
}

/// How often a counter set has seen the status `label`.
pub open spec fn label_part(label: Seq<char>) -> spec_fn(CounterSet) -> nat {
    |c: CounterSet| occurrences(c, label)
}

/// How many times of successful calls a counter set holds in bucket
/// `slot`.
pub open spec fn success_part(slot: int) -> spec_fn(CounterSet) -> nat {
    |c: CounterSet| successes_at(c, slot)
}

/// How many times of failed calls a counter set holds in bucket `slot`.
pub open spec fn failure_part(slot: int) -> spec_fn(CounterSet) -> nat {
    |c: CounterSet| failures_at(c, slot)
}

/// Number of calls that the operations count together.
pub open spec fn operation_requests(sets: Seq<CounterSet>) -> nat {
    sum_over(sets, requests_part(), sets.len() as int)
}

/// Number of successful calls that the operations count together.
pub open spec fn operation_successes(sets: Seq<CounterSet>) -> nat {
    sum_over(sets, successes_part(), sets.len() as int)
}

/// Number of bytes that the operations count together.
pub open spec fn operation_bytes(sets: Seq<CounterSet>) -> nat {
    sum_over(sets, bytes_part(), sets.len() as int)
}

/// How often the operations have seen the status `label` together.
pub open spec fn operation_occurrences(sets: Seq<CounterSet>, label: Seq<char>) -> nat {
    sum_over(sets, label_part(label), sets.len() as int)
}

/// How many times of successful calls the operations hold in bucket `slot`
/// together.
pub open spec fn operation_successes_at(sets: Seq<CounterSet>, slot: int) -> nat {
    sum_over(sets, success_part(slot), sets.len() as int)
}

/// How many times of failed calls the operations hold in bucket `slot`
/// together.
pub open spec fn operation_failures_at(sets: Seq<CounterSet>, slot: int) -> nat {
    sum_over(sets, failure_part(slot), sets.len() as int)
}

/// In `part`, the combined counters are the sum of those of the operations
/// and of the calls that named none.
pub open spec fn adds_up(m: Aggregate, part: spec_fn(CounterSet) -> nat) -> bool {
    part(m.combined) == part(m.unnamed) + sum_over(
        m.by_operation,
        part,
        m.by_operation.len() as int,
    )
}

/// What holds of the counters of a run after any number of calls: the
/// combined counters are the sum of those of the operations and of the
/// calls that named none, in requests, in successes, in the occurrences of
/// each status label and in the samples of each bucket of both histograms.
/// The number of bytes is that sum as far as a `usize` holds it.
pub open spec fn balanced(m: Aggregate) -> bool {
    &&& consistent(m.combined)
    &&& consistent(m.unnamed)
    &&& m.operations.len() == m.by_operation.len()
    &&& distinct(m.operations)
    &&& forall|i: int| 0 <= i < m.by_operation.len() ==> consistent(#[trigger] m.by_operation[i])
    &&& adds_up(m, requests_part())
    &&& adds_up(m, successes_part())
    &&& m.combined.total_bytes == capped(
        m.unnamed.total_bytes as nat + operation_bytes(m.by_operation),
    )
    &&& forall|label: Seq<char>| #[trigger] adds_up(m, label_part(label))
    &&& forall|slot: int| #[trigger] adds_up(m, success_part(slot))
    &&& forall|slot: int| #[trigger] adds_up(m, failure_part(slot))
}

/// One part is at most the sum of the parts up to and including it.
pub proof fn lemma_part_within_sum(
    sets: Seq<CounterSet>,
    part: spec_fn(CounterSet) -> nat,
    i: int,
    n: int,
)
    requires
        0 <= i < n <= sets.len(),
    ensures
        part(sets[i]) <= sum_over(sets, part, n),
    decreases n,
{
    if i < n - 1 {
        lemma_part_within_sum(sets, part, i, n - 1);
    }
}

/// Another counter set at place `i` changes the sum by what its part
/// differs.
pub proof fn lemma_sum_over_update(
    sets: Seq<CounterSet>,
    part: spec_fn(CounterSet) -> nat,
    i: int,
    set: CounterSet,
    n: int,
)
    requires
        0 <= i < sets.len(),
        0 <= n <= sets.len(),
    ensures
        sum_over(sets.update(i, set), part, n) == if i < n {
            sum_over(sets, part, n) - part(sets[i]) + part(set)
        } else {
            sum_over(sets, part, n) as int
        },
    decreases n,
{
    if n > 0 {
        lemma_sum_over_update(sets, part, i, set, n - 1);
        if i < n - 1 {
            lemma_part_within_sum(sets, part, i, n - 1);
        }
    }
}

/// A new counter set at the end changes no sum of the ones before it.
pub proof fn lemma_sum_over_before_push(
    sets: Seq<CounterSet>,
    part: spec_fn(CounterSet) -> nat,
    set: CounterSet,
    n: int,
)
    requires
        0 <= n <= sets.len(),
    ensures
        sum_over(sets.push(set), part, n) == sum_over(sets, part, n),
    decreases n,
{
    if n > 0 {
        lemma_sum_over_before_push(sets, part, set, n - 1);
    }
}

/// A new counter set at the end adds its part to the sum.
pub proof fn lemma_sum_over_push(
    sets: Seq<CounterSet>,
    part: spec_fn(CounterSet) -> nat,
    set: CounterSet,
)
    ensures
        sum_over(sets.push(set), part, sets.len() as int + 1) == sum_over(
            sets,
            part,
            sets.len() as int,
        ) + part(set),
{
    lemma_sum_over_before_push(sets, part, set, sets.len() as int);
    assert(sets.push(set)[sets.len() as int] == set);
}

/// A run in which no call was made is balanced.
pub(crate) proof fn lemma_no_run_balanced()
    requires
        layout_facts(),
    ensures
        balanced(no_run()),
{
    lemma_no_calls_consistent();
}

/// A part that grows by `delta` in every counter set that counts one more
/// call still adds up after the call.
pub proof fn lemma_part_adds_up(
    m: Aggregate,
    o: Outcome,
    part: spec_fn(CounterSet) -> nat,
    delta: nat,
)
    requires
        m.operations.len() == m.by_operation.len(),
        has_room(m.combined),
        adds_up(m, part),
        part(recorded(m.combined, o)) == part(m.combined) + delta,
        part(recorded(m.unnamed, o)) == part(m.unnamed) + delta,
        part(recorded(no_calls(), o)) == delta,
        forall|i: int|
            0 <= i < m.by_operation.len() ==> part(recorded(#[trigger] m.by_operation[i], o))
                == part(m.by_operation[i]) + delta,
    ensures
        adds_up(reported(m, o), part),
{
    let n = m.by_operation.len() as int;
    match o.operation {
        None => {},
        Some(name) => {
            let place = place_of(m.operations, name);
            lemma_place_of(m.operations, name);
            if place < m.operations.len() {
                let new_set = recorded(m.by_operation[place], o);
                lemma_sum_over_update(m.by_operation, part, place, new_set, n);
                lemma_part_within_sum(m.by_operation, part, place, n);
            } else {
                lemma_sum_over_push(m.by_operation, part, recorded(no_calls(), o));
            }
        },
    }
}

/// While the combined counters have room, so have those of the calls
/// that named no operation and those of each operation.
pub proof fn lemma_rooms(m: Aggregate)
    requires
        balanced(m),
        has_room(m.combined),
    ensures
        has_room(m.unnamed),
        forall|i: int| 0 <= i < m.by_operation.len() ==> has_room(#[trigger] m.by_operation[i]),
{
    assert forall|i: int| 0 <= i < m.by_operation.len() implies has_room(
        #[trigger] m.by_operation[i],
    ) by {
        lemma_part_within_sum(m.by_operation, requests_part(), i, m.by_operation.len() as int);
    }
}

/// One more call keeps the counters of a run balanced, whatever operation
/// it names, and whether it names one.
pub proof fn lemma_reported_balanced(m: Aggregate, o: Outcome)
    requires
        balanced(m),
    ensures
        balanced(reported(m, o)),
{
    if has_room(m.combined) {
        let r = reported(m, o);
        let n = m.by_operation.len() as int;
        lemma_rooms(m);
        lemma_no_calls_consistent();
        lemma_recorded_consistent(m.combined, o);
        lemma_recorded_consistent(m.unnamed, o);
        lemma_recorded_consistent(no_calls(), o);
        assert forall|i: int| 0 <= i < n implies consistent(
            recorded(#[trigger] m.by_operation[i], o),
        ) && recorded(m.by_operation[i], o).total_requests == m.by_operation[i].total_requests
            + 1 by {
            lemma_recorded_consistent(m.by_operation[i], o);
        }
        lemma_part_adds_up(m, o, requests_part(), 1);
        lemma_part_adds_up(
            m,
            o,
            successes_part(),
            if o.success {
                1
            } else {
                0
            },
        );
        assert forall|label: Seq<char>| #[trigger] adds_up(r, label_part(label)) by {
            lemma_recorded_occurrences(m.combined, o, label);
            lemma_recorded_occurrences(m.unnamed, o, label);
            lemma_recorded_occurrences(no_calls(), o, label);
            lemma_nothing_counted(no_calls(), label, 0);
            assert forall|i: int| 0 <= i < n implies occurrences(
                recorded(#[trigger] m.by_operation[i], o),
                label,
            ) == occurrences(m.by_operation[i], label) + if label == o.status {
                1nat
            } else {
                0nat
            } by {
                lemma_recorded_occurrences(m.by_operation[i], o, label);
            }
            assert(adds_up(m, label_part(label)));
            lemma_part_adds_up(
                m,
                o,
                label_part(label),
                if label == o.status {
                    1
                } else {
                    0
                },
            );
        }
        assert forall|slot: int| #[trigger] adds_up(r, success_part(slot)) by {
            lemma_recorded_samples(m.combined, o, slot);
            lemma_recorded_samples(m.unnamed, o, slot);
            lemma_recorded_samples(no_calls(), o, slot);
            lemma_nothing_counted(no_calls(), o.status, slot);
            assert forall|i: int| 0 <= i < n implies successes_at(
                recorded(#[trigger] m.by_operation[i], o),
                slot,
            ) == successes_at(m.by_operation[i], slot) + if o.success && slot == slot_of(
                latency_of(o),
            ) {
                1nat
            } else {
                0nat
            } by {
                lemma_recorded_samples(m.by_operation[i], o, slot);
            }
            assert(adds_up(m, success_part(slot)));
            lemma_part_adds_up(
                m,
                o,
                success_part(slot),
                if o.success && slot == slot_of(latency_of(o)) {
                    1
                } else {
                    0
                },
            );
        }
        assert forall|slot: int| #[trigger] adds_up(r, failure_part(slot)) by {
            lemma_recorded_samples(m.combined, o, slot);
            lemma_recorded_samples(m.unnamed, o, slot);
            lemma_recorded_samples(no_calls(), o, slot);
            lemma_nothing_counted(no_calls(), o.status, slot);
            assert forall|i: int| 0 <= i < n implies failures_at(
                recorded(#[trigger] m.by_operation[i], o),
                slot,
            ) == failures_at(m.by_operation[i], slot) + if !o.success && slot == slot_of(
                latency_of(o),
            ) {
                1nat
            } else {
                0nat
            } by {
                lemma_recorded_samples(m.by_operation[i], o, slot);
            }
            assert(adds_up(m, failure_part(slot)));
            lemma_part_adds_up(
                m,
                o,
                failure_part(slot),
                if !o.success && slot == slot_of(latency_of(o)) {
                    1
                } else {
                    0
                },
            );
        }
        match o.operation {
            None => {},
            Some(name) => {
                let place = place_of(m.operations, name);
                lemma_place_of(m.operations, name);
                if place < m.operations.len() {
                    let new_set = recorded(m.by_operation[place], o);
                    lemma_sum_over_update(m.by_operation, bytes_part(), place, new_set, n);
                    lemma_part_within_sum(m.by_operation, bytes_part(), place, n);
                    assert forall|i: int| 0 <= i < r.by_operation.len() implies consistent(
                        #[trigger] r.by_operation[i],
                    ) by {
                        if i != place {
                            assert(r.by_operation[i] == m.by_operation[i]);
                        }
                    }
                } else {
                    let new_set = recorded(no_calls(), o);
                    lemma_sum_over_push(m.by_operation, bytes_part(), new_set);
                    assert forall|i: int| 0 <= i < r.by_operation.len() implies consistent(
                        #[trigger] r.by_operation[i],
                    ) by {
                        if i < n {
                            assert(r.by_operation[i] == m.by_operation[i]);
                        }
                    }
                    assert forall|i: int, j: int|
                        0 <= i < r.operations.len() && 0 <= j < r.operations.len()
                            && #[trigger] r.operations[i] == #[trigger] r.operations[j] implies i
                        == j by {
                        if i < n {
                            assert(m.operations[i] == r.operations[i]);
                        }
                        if j < n {
                            assert(m.operations[j] == r.operations[j]);
                        }
                    }
                }
            },
        }
    }
}

/// The counters of a run after the first `n` of `outcomes` were counted, in
/// their order.
pub open spec fn reported_all(m: Aggregate, outcomes: Seq<Outcome>, n: int) -> Aggregate
    decreases n,
{
    if n <= 0 || n > outcomes.len() {
        m
    } else {
        reported(reported_all(m, outcomes, n - 1), outcomes[n - 1])
    }
}

/// Whatever calls are counted, and whatever operations they name: the
/// counters of the run stay balanced, and calls that name an operation
/// leave the totals of the calls that name none as they are.
pub proof fn lemma_reported_all_balanced(m: Aggregate, outcomes: Seq<Outcome>, n: int)
    requires
        balanced(m),
        0 <= n <= outcomes.len(),
    ensures
        balanced(reported_all(m, outcomes, n)),
        (forall|i: int| 0 <= i < n ==> (#[trigger] outcomes[i]).operation is Some)
            ==> reported_all(m, outcomes, n).unnamed == m.unnamed,
    decreases n,
{
    if n > 0 {
        lemma_reported_all_balanced(m, outcomes, n - 1);
        lemma_reported_balanced(reported_all(m, outcomes, n - 1), outcomes[n - 1]);
        if forall|i: int| 0 <= i < n ==> (#[trigger] outcomes[i]).operation is Some {
            assert(outcomes[n - 1].operation is Some);
        }
    }
}

/// As long as the combined counters have room, every call is counted: the
/// requests grow by the number of the calls, in whatever order they come.
pub proof fn lemma_reported_all_counts(m: Aggregate, outcomes: Seq<Outcome>, n: int)
    requires
        balanced(m),
        0 <= n <= outcomes.len(),
        m.combined.total_requests + n <= usize::MAX,
        m.combined.total_requests + n <= SAMPLE_CAPACITY,
    ensures
        reported_all(m, outcomes, n).combined.total_requests == m.combined.total_requests + n,
    decreases n,
{
    if n > 0 {
        lemma_reported_all_counts(m, outcomes, n - 1);
        lemma_reported_all_balanced(m, outcomes, n - 1);
        let before = reported_all(m, outcomes, n - 1);
        lemma_recorded_consistent(before.combined, outcomes[n - 1]);
    }
}

/// The operations add up to the combined counters: in requests, in
/// successes, in the occurrences of each status label, in the samples of
/// each bucket of both histograms, and in bytes as far as a `usize` holds
/// them.
pub open spec fn operations_add_up(m: Aggregate) -> bool {
    &&& operation_requests(m.by_operation) == m.combined.total_requests
    &&& operation_successes(m.by_operation) == m.combined.successful_requests
    &&& capped(operation_bytes(m.by_operation)) == m.combined.total_bytes
    &&& forall|label: Seq<char>| #[trigger]
        operation_occurrences(m.by_operation, label) == occurrences(m.combined, label)
    &&& forall|slot: int| #[trigger]
        operation_successes_at(m.by_operation, slot) == successes_at(m.combined, slot)
    &&& forall|slot: int| #[trigger]
        operation_failures_at(m.by_operation, slot) == failures_at(m.combined, slot)
}

/// However the calls of a run are spread over operations, as long as each
/// names one, the counters of the operations add up to the combined
/// counters.
pub proof fn lemma_named_calls_add_up(m: Aggregate, outcomes: Seq<Outcome>)
    requires
        balanced(m),
        m.unnamed.total_requests == 0,
        forall|i: int| 0 <= i < outcomes.len() ==> (#[trigger] outcomes[i]).operation is Some,
    ensures
        operations_add_up(reported_all(m, outcomes, outcomes.len() as int)),
{
    lemma_reported_all_balanced(m, outcomes, outcomes.len() as int);
    lemma_operations_add_up(reported_all(m, outcomes, outcomes.len() as int));
}

/// Where every call of a run named an operation, the counters of the
/// operations add up to the combined counters.
pub proof fn lemma_operations_add_up(m: Aggregate)
    requires
        balanced(m),
        m.unnamed.total_requests == 0,
    ensures
        operations_add_up(m),
{
    lemma_nothing_counted(m.unnamed, Seq::empty(), 0);
    assert forall|label: Seq<char>| #[trigger]
        operation_occurrences(m.by_operation, label) == occurrences(m.combined, label) by {
        lemma_nothing_counted(m.unnamed, label, 0);
        assert(adds_up(m, label_part(label)));
    }
    assert forall|slot: int| #[trigger]
        operation_successes_at(m.by_operation, slot) == successes_at(m.combined, slot) by {
        lemma_nothing_counted(m.unnamed, Seq::empty(), slot);
        assert(adds_up(m, success_part(slot)));
    }
    assert forall|slot: int| #[trigger]
        operation_failures_at(m.by_operation, slot) == failures_at(m.combined, slot) by {
        lemma_nothing_counted(m.unnamed, Seq::empty(), slot);
        assert(adds_up(m, failure_part(slot)));
    }
}

} // verus!
