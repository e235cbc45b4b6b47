//! What holds of every run of every flow, proved from the relations that the contracts of
//! [`Flow::execute`] and [`Flow::rollback`] state.

use crate::context::ContextView;
use crate::event::events_of;
use crate::event::EventView;
use crate::event::Told;
use crate::failure::error_text;
use crate::flow::forward_events;
use crate::flow::rollback_events;
use crate::flow::rollback_told;
use crate::flow::Action;
use crate::flow::Flow;
use vstd::prelude::*;

verus! {

/// The step indices of the `RollbackStarted` events among `events`, in the order in which
/// the events stand.
pub open spec fn rollback_starts(events: Seq<EventView>) -> Seq<int>
    decreases events.len(),
{
    if events.len() == 0 {
        Seq::empty()
    } else {
        let earlier = rollback_starts(events.drop_last());
        match events.last() {
            EventView::RollbackStarted { index, .. } => earlier.push(index),
            _ => earlier,
        }
    }
}

/// The integers `from`, `from - 1`, ..., `down_to`; empty where `from < down_to`.
pub open spec fn descending(from: int, down_to: int) -> Seq<int> {
    if from < down_to {
        Seq::empty()
    } else {
        Seq::new((from - down_to + 1) as nat, |i: int| from - i)
    }
}

proof fn lemma_events_of_concat(first: Seq<Told>, second: Seq<Told>)
    ensures
        events_of(first + second) == events_of(first) + events_of(second),
{
    assert(events_of(first + second) =~= events_of(first) + events_of(second));
}

proof fn lemma_rollback_starts_concat(first: Seq<EventView>, second: Seq<EventView>)
    ensures
        rollback_starts(first + second) == rollback_starts(first) + rollback_starts(second),
    decreases second.len(),
{
    if second.len() == 0 {
        assert(first + second =~= first);
        assert(rollback_starts(first) + rollback_starts(second) =~= rollback_starts(first));
    } else {
        let whole = first + second;
        assert(whole.drop_last() =~= first + second.drop_last());
        assert(whole.last() == second.last());
        lemma_rollback_starts_concat(first, second.drop_last());
        match second.last() {
            EventView::RollbackStarted { index, .. } => {
                assert(rollback_starts(whole) =~= rollback_starts(first) + rollback_starts(second));
            },
            _ => {},
        }
    }
}

proof fn lemma_rollback_events(index: int, name: Seq<char>, outcome: Result<(), anyhow::Error>)
    ensures
        rollback_starts(rollback_events(index, name, outcome)) == seq![index],
        forall|i: int|
            0 <= i < rollback_events(index, name, outcome).len() ==> (#[trigger] rollback_events(
                index,
                name,
                outcome,
            )[i]).is_rollback(),
{
    let events = rollback_events(index, name, outcome);
    reveal_with_fuel(rollback_starts, 3);
    match outcome {
        Ok(_) => {
            assert(events.drop_last() =~= Seq::<EventView>::empty());
            assert(rollback_starts(events) =~= seq![index]);
        },
        Err(e) => {
            assert(events.drop_last() =~= seq![EventView::RollbackStarted { index, name }]);
            assert(events.drop_last().drop_last() =~= Seq::<EventView>::empty());
            assert(rollback_starts(events) =~= seq![index]);
        },
    }
}

proof fn lemma_rollback_told(
    index: int,
    name: Seq<char>,
    before: ContextView,
    after: ContextView,
    outcome: Result<(), anyhow::Error>,
)
    ensures
        events_of(rollback_told(index, name, before, after, outcome)) == rollback_events(index, name, outcome),
{
    assert(events_of(rollback_told(index, name, before, after, outcome)) =~= rollback_events(
        index,
        name,
        outcome,
    ));
}

/// The events of a forward pass in which `count` steps succeeded: a start event and a
/// success event for each step, in step order, and no rollback event.
pub proof fn lemma_forward_events(names: Seq<Seq<char>>, count: int)
    requires
        0 <= count,
    ensures
        forward_events(names, count).len() == 2 * count,
        forall|i: int|
            0 <= i < count ==> {
                &&& #[trigger] forward_events(names, count)[2 * i] == (EventView::StepStarted {
                    index: i,
                    name: names[i],
                })
                &&& forward_events(names, count)[2 * i + 1] == (EventView::StepSucceeded {
                    index: i,
                    name: names[i],
                })
            },
        forall|j: int|
            0 <= j < 2 * count ==> !(#[trigger] forward_events(names, count)[j]).is_rollback(),
        rollback_starts(forward_events(names, count)) == Seq::<int>::empty(),
    decreases count,
{
    if count > 0 {
        lemma_forward_events(names, count - 1);
        let shorter = forward_events(names, count - 1);
        let longer = forward_events(names, count);
        let started = EventView::StepStarted { index: count - 1, name: names[count - 1] };
        let succeeded = EventView::StepSucceeded { index: count - 1, name: names[count - 1] };
        assert(longer == shorter.push(started).push(succeeded));
        assert forall|i: int| 0 <= i < count implies {
            &&& #[trigger] longer[2 * i] == (EventView::StepStarted { index: i, name: names[i] })
            &&& longer[2 * i + 1] == (EventView::StepSucceeded { index: i, name: names[i] })
        } by {
            if i < count - 1 {
                assert(longer[2 * i] == shorter[2 * i]);
                assert(longer[2 * i + 1] == shorter[2 * i + 1]);
            }
        }
        assert forall|j: int| 0 <= j < 2 * count implies !(#[trigger] longer[j]).is_rollback() by {
            if j < 2 * (count - 1) {
                assert(longer[j] == shorter[j]);
            }
        }
        assert(longer =~= shorter + seq![started, succeeded]);
        lemma_rollback_starts_concat(shorter, seq![started, succeeded]);
        reveal_with_fuel(rollback_starts, 3);
        assert(seq![started, succeeded].drop_last() =~= seq![started]);
        assert(seq![started].drop_last() =~= Seq::<EventView>::empty());
        assert(rollback_starts(seq![started, succeeded]) =~= Seq::<int>::empty());
        assert(rollback_starts(longer) =~= Seq::<int>::empty());
    } else {
        assert(forward_events(names, count) =~= Seq::<EventView>::empty());
    }
}

/// Of a forward pass in which `count` steps succeeded, the events of `forward_events` are
/// told.
pub proof fn lemma_forwards_events(
    flow: Flow,
    count: int,
    before: ContextView,
    after: ContextView,
    told: Seq<Told>,
)
    requires
        0 <= count <= flow.actions().len(),
        flow.forwards(count, before, after, told),
    ensures
        events_of(told) == forward_events(flow.names(), count),
    decreases count,
{
    if count > 0 {
        let (reached, earlier) = choose|reached: ContextView, earlier: Seq<Told>|
            flow.forwards(count - 1, before, reached, earlier) && #[trigger] flow.stepped(
                count,
                reached,
                after,
                earlier,
                told,
            );
        lemma_forwards_events(flow, count - 1, before, reached, earlier);
        assert(events_of(told) =~= forward_events(flow.names(), count));
    } else {
        assert(events_of(told) =~= forward_events(flow.names(), count));
    }
}

/// Step `index` was told in time: its start with the context `reached` that its forward
/// action was then called on, and its success with the context `left` that the action
/// left.
pub open spec fn told_in_time(
    flow: Flow,
    index: int,
    told: Seq<Told>,
    reached: ContextView,
    left: ContextView,
) -> bool {
    &&& 2 * index + 1 < told.len()
    &&& told[2 * index] == (
        EventView::StepStarted { index, name: flow.actions()[index].name() },
        reached,
    )
    &&& told[2 * index + 1] == (
        EventView::StepSucceeded { index, name: flow.actions()[index].name() },
        left,
    )
    &&& flow.actions()[index].executes(reached, left, Ok(()))
}

/// The events of a forward pass are told between the calls of the handlers: the start of
/// a step when the step before it has returned and before its own forward action is
/// called, its success when the action has returned and before the next step starts.
pub proof fn lemma_told_in_time(
    flow: Flow,
    count: int,
    index: int,
    before: ContextView,
    after: ContextView,
    told: Seq<Told>,
)
    requires
        0 <= index < count,
        flow.forwards(count, before, after, told),
    ensures
        exists|reached: ContextView, left: ContextView| #[trigger] told_in_time(flow, index, told, reached, left),
        told.len() == 2 * count,
    decreases count,
{
    let (reached, earlier) = choose|reached: ContextView, earlier: Seq<Told>|
        flow.forwards(count - 1, before, reached, earlier) && #[trigger] flow.stepped(
            count,
            reached,
            after,
            earlier,
            told,
        );
    if count - 1 > 0 {
        lemma_told_in_time(flow, count - 1, 0, before, reached, earlier);
    }
    if index == count - 1 {
        assert(told_in_time(flow, index, told, reached, after));
    } else {
        lemma_told_in_time(flow, count - 1, index, before, reached, earlier);
        let (at, left) = choose|at: ContextView, left: ContextView| #[trigger]
            told_in_time(flow, index, earlier, at, left);
        assert(told[2 * index] == earlier[2 * index]);
        assert(told[2 * index + 1] == earlier[2 * index + 1]);
        assert(told_in_time(flow, index, told, at, left));
    }
}

/// A sweep starts the rollback of every step from `from` down to `down_to`, each once and
/// the highest first, whatever the rollbacks return; and it tells rollback events only.
pub proof fn lemma_sweep_order(
    flow: Flow,
    from: int,
    down_to: int,
    before: ContextView,
    after: ContextView,
    told: Seq<Told>,
)
    requires
        flow.sweeps(from, down_to, before, after, told),
    ensures
        rollback_starts(events_of(told)) == descending(from, down_to),
        forall|i: int| 0 <= i < told.len() ==> (#[trigger] events_of(told)[i]).is_rollback(),
    decreases from - down_to + 1,
{
    if from < down_to {
        assert(events_of(told) =~= Seq::<EventView>::empty());
        assert(rollback_starts(events_of(told)) =~= descending(from, down_to));
    } else {
        let (reached, outcome, earlier) = choose|
            reached: ContextView,
            outcome: Result<(), anyhow::Error>,
            earlier: Seq<Told>,
        |
            flow.sweeps(from, down_to + 1, before, reached, earlier) && #[trigger] flow.rolled(
                down_to,
                reached,
                after,
                outcome,
                earlier,
                told,
            );
        lemma_sweep_order(flow, from, down_to + 1, before, reached, earlier);
        let name = flow.actions()[down_to].name();
        let last = rollback_events(down_to, name, outcome);
        lemma_rollback_events(down_to, name, outcome);
        lemma_rollback_told(down_to, name, reached, after, outcome);
        lemma_events_of_concat(earlier, rollback_told(down_to, name, reached, after, outcome));
        lemma_rollback_starts_concat(events_of(earlier), last);
        assert(descending(from, down_to) =~= descending(from, down_to + 1) + seq![down_to]);
        assert forall|i: int| 0 <= i < told.len() implies (#[trigger] events_of(told)[i]).is_rollback() by {
            if i < earlier.len() {
                assert(events_of(told)[i] == events_of(earlier)[i]);
            } else {
                assert(events_of(told)[i] == last[i - earlier.len()]);
            }
        }
    }
}

/// A run in which every forward action succeeds ends in the context that the steps'
/// forward actions, applied one after the other in the order of the flow, lead to; it tells
/// a start and a success event for each step and no rollback event.
pub proof fn lemma_successful_run(
    flow: Flow,
    before: ContextView,
    after: ContextView,
    result: Result<(), anyhow::Error>,
    told: Seq<Told>,
)
    requires
        flow.runs(before, after, result, told),
        result is Ok,
    ensures
        flow.forwards(flow.actions().len() as int, before, after, told),
        events_of(told) == forward_events(flow.names(), flow.actions().len() as int),
        told.len() == 2 * flow.actions().len(),
        forall|j: int| 0 <= j < told.len() ==> !(#[trigger] events_of(told)[j]).is_rollback(),
        rollback_starts(events_of(told)) == Seq::<int>::empty(),
{
    lemma_forwards_events(flow, flow.actions().len() as int, before, after, told);
    lemma_forward_events(flow.names(), flow.actions().len() as int);
}

/// The events of a run whose step `k` failed: a start and a success event for each step
/// before `k`, a start and a failure event for step `k` with the text of `error`, and then
/// rollback events only, among them one start event for each of the steps `k`, `k - 1`,
/// ..., 0, in that order.
pub open spec fn failed_at(flow: Flow, k: int, error: anyhow::Error, events: Seq<EventView>) -> bool {
    &&& 0 <= k < flow.actions().len()
    &&& events.len() >= 2 * k + 2
    &&& events.take(2 * k) == forward_events(flow.names(), k)
    &&& events[2 * k] == (EventView::StepStarted { index: k, name: flow.names()[k] })
    &&& events[2 * k + 1] == (EventView::StepFailed {
        index: k,
        name: flow.names()[k],
        error: error_text(error),
    })
    &&& forall|j: int| 0 <= j < 2 * k + 2 ==> !(#[trigger] events[j]).is_rollback()
    &&& forall|j: int| 2 * k + 2 <= j < events.len() ==> (#[trigger] events[j]).is_rollback()
    &&& rollback_starts(events) == descending(k, 0)
}

/// A failed run failed at one step `k`, and its events are those of [`failed_at`]: the
/// rollbacks start for `k`, `k - 1`, ..., 0 in exactly that order, with no index left out
/// and none twice.
pub proof fn lemma_failed_run_events(
    flow: Flow,
    before: ContextView,
    after: ContextView,
    error: anyhow::Error,
    told: Seq<Told>,
)
    requires
        flow.runs(before, after, Err(error), told),
    ensures
        exists|k: int| #[trigger] failed_at(flow, k, error, events_of(told)),
{
    let (k, reached, failed, forward, undo) = choose|
        k: int,
        reached: ContextView,
        failed: ContextView,
        forward: Seq<Told>,
        undo: Seq<Told>,
    | #[trigger] flow.fails(k, reached, failed, forward, undo, before, after, error, told);
    let names = flow.names();
    let events = events_of(told);
    let passed = forward_events(names, k);
    let started = EventView::StepStarted { index: k, name: names[k] };
    let stopped = EventView::StepFailed { index: k, name: names[k], error: error_text(error) };
    lemma_forwards_events(flow, k, before, reached, forward);
    lemma_forward_events(names, k);
    lemma_sweep_order(flow, k, 0, failed, after, undo);
    assert(events =~= (passed + seq![started, stopped]) + events_of(undo));
    assert(events.take(2 * k) =~= passed);
    assert forall|j: int| 0 <= j < 2 * k + 2 implies !(#[trigger] events[j]).is_rollback() by {
        if j < 2 * k {
            assert(events[j] == passed[j]);
        }
    }
    assert forall|j: int| 2 * k + 2 <= j < events.len() implies (#[trigger] events[j]).is_rollback() by {
        assert(events[j] == events_of(undo)[j - (2 * k + 2)]);
    }
    lemma_rollback_starts_concat(passed + seq![started, stopped], events_of(undo));
    lemma_rollback_starts_concat(passed, seq![started, stopped]);
    reveal_with_fuel(rollback_starts, 3);
    assert(seq![started, stopped].drop_last() =~= seq![started]);
    assert(seq![started].drop_last() =~= Seq::<EventView>::empty());
    assert(rollback_starts(seq![started, stopped]) =~= Seq::<int>::empty());
    assert(rollback_starts(events) =~= descending(k, 0));
    assert(failed_at(flow, k, error, events));
}

/// Step `k` of the flow was reached after the steps before it had succeeded, and its
/// forward action then returned `error`; the failure was told with the context that the
/// action left.
pub open spec fn raised_by(
    flow: Flow,
    k: int,
    before: ContextView,
    reached: ContextView,
    failed: ContextView,
    forward: Seq<Told>,
    error: anyhow::Error,
    told: Seq<Told>,
) -> bool {
    &&& 0 <= k < flow.actions().len()
    &&& flow.forwards(k, before, reached, forward)
    &&& flow.actions()[k].executes(reached, failed, Err(error))
    &&& 2 * k + 1 < told.len()
    &&& told[2 * k + 1] == (
        EventView::StepFailed { index: k, name: flow.actions()[k].name(), error: error_text(error) },
        failed,
    )
}

/// The error that a failed run returns is the one that the forward action of the failing
/// step returned. What the rollbacks of the sweep return has no part in it.
pub proof fn lemma_failed_run_error(
    flow: Flow,
    before: ContextView,
    after: ContextView,
    error: anyhow::Error,
    told: Seq<Told>,
)
    requires
        flow.runs(before, after, Err(error), told),
    ensures
        exists|k: int, reached: ContextView, failed: ContextView, forward: Seq<Told>| #[trigger]
            raised_by(flow, k, before, reached, failed, forward, error, told),
{
    let (k, reached, failed, forward, undo) = choose|
        k: int,
        reached: ContextView,
        failed: ContextView,
        forward: Seq<Told>,
        undo: Seq<Told>,
    | #[trigger] flow.fails(k, reached, failed, forward, undo, before, after, error, told);
    if k > 0 {
        lemma_told_in_time(flow, k, 0, before, reached, forward);
    } else {
        assert(forward.len() == 0);
    }
    assert(forward.len() == 2 * k);
    assert(raised_by(flow, k, before, reached, failed, forward, error, told));
}

/// The sweep from `from` down to `down_to` is the sweep down to `middle` followed by the
/// sweep from `middle - 1` on, with `between` as the context that the first hands to the
/// second.
pub open spec fn sweep_parts(
    flow: Flow,
    from: int,
    middle: int,
    down_to: int,
    before: ContextView,
    between: ContextView,
    after: ContextView,
    first: Seq<Told>,
    second: Seq<Told>,
    told: Seq<Told>,
) -> bool {
    &&& flow.sweeps(from, middle, before, between, first)
    &&& flow.sweeps(middle - 1, down_to, between, after, second)
    &&& told == first + second
}

proof fn lemma_sweep_split(
    flow: Flow,
    from: int,
    middle: int,
    down_to: int,
    before: ContextView,
    after: ContextView,
    told: Seq<Told>,
)
    requires
        flow.sweeps(from, down_to, before, after, told),
        down_to <= middle <= from + 1,
    ensures
        exists|between: ContextView, first: Seq<Told>, second: Seq<Told>| #[trigger]
            sweep_parts(flow, from, middle, down_to, before, between, after, first, second, told),
    decreases middle - down_to,
{
    if middle == down_to {
        let none = Seq::<Told>::empty();
        assert(flow.sweeps(middle - 1, down_to, after, after, none));
        assert(told =~= told + none);
        assert(sweep_parts(flow, from, middle, down_to, before, after, after, told, none, told));
    } else {
        let (reached, outcome, earlier) = choose|
            reached: ContextView,
            outcome: Result<(), anyhow::Error>,
            earlier: Seq<Told>,
        |
            flow.sweeps(from, down_to + 1, before, reached, earlier) && #[trigger] flow.rolled(
                down_to,
                reached,
                after,
                outcome,
                earlier,
                told,
            );
        lemma_sweep_split(flow, from, middle, down_to + 1, before, reached, earlier);
        let (between, first, rest) = choose|between: ContextView, first: Seq<Told>, rest: Seq<Told>| #[trigger]
            sweep_parts(flow, from, middle, down_to + 1, before, between, reached, first, rest, earlier);
        let last = rollback_told(down_to, flow.actions()[down_to].name(), reached, after, outcome);
        let second = rest + last;
        assert(flow.rolled(down_to, reached, after, outcome, rest, second));
        assert(flow.sweeps(middle - 1, down_to, between, after, second));
        assert(told =~= first + second);
        assert(sweep_parts(flow, from, middle, down_to, before, between, after, first, second, told));
    }
}

/// The sweep from `from` down to 0, parted at step `j`: the sweep of the steps above `j`,
/// then the rollback of `j`, which takes `at` to `past` and returns `outcome`, then the
/// sweep of the steps below `j`.
pub open spec fn sweep_through(
    flow: Flow,
    from: int,
    j: int,
    before: ContextView,
    after: ContextView,
    told: Seq<Told>,
    at: ContextView,
    past: ContextView,
    outcome: Result<(), anyhow::Error>,
    above: Seq<Told>,
    below: Seq<Told>,
) -> bool {
    &&& flow.sweeps(from, j + 1, before, at, above)
    &&& flow.actions()[j].rolls_back(at, past, outcome)
    &&& flow.sweeps(j - 1, 0, past, after, below)
    &&& told == above + rollback_told(j, flow.actions()[j].name(), at, past, outcome) + below
}

/// A sweep is not cut short: whatever the rollback of a step `j` returns, an error too, the
/// sweep goes on from the context it left and rolls back the steps `j - 1`, ..., 0.
pub proof fn lemma_sweep_continues(
    flow: Flow,
    from: int,
    j: int,
    before: ContextView,
    after: ContextView,
    told: Seq<Told>,
)
    requires
        flow.sweeps(from, 0, before, after, told),
        0 <= j <= from,
    ensures
        exists|
            at: ContextView,
            past: ContextView,
            outcome: Result<(), anyhow::Error>,
            above: Seq<Told>,
            below: Seq<Told>,
        | #[trigger] sweep_through(flow, from, j, before, after, told, at, past, outcome, above, below),
{
    lemma_sweep_split(flow, from, j + 1, 0, before, after, told);
    let (at, above, rest) = choose|at: ContextView, above: Seq<Told>, rest: Seq<Told>| #[trigger]
        sweep_parts(flow, from, j + 1, 0, before, at, after, above, rest, told);
    lemma_sweep_split(flow, j, j, 0, at, after, rest);
    let (past, single, below) = choose|past: ContextView, single: Seq<Told>, below: Seq<Told>| #[trigger]
        sweep_parts(flow, j, j, 0, at, past, after, single, below, rest);
    let (reached, outcome, earlier) = choose|
        reached: ContextView,
        outcome: Result<(), anyhow::Error>,
        earlier: Seq<Told>,
    | flow.sweeps(j, j + 1, at, reached, earlier) && #[trigger] flow.rolled(j, reached, past, outcome, earlier, single);
    assert(single =~= rollback_told(j, flow.actions()[j].name(), at, past, outcome));
    assert(told =~= above + rollback_told(j, flow.actions()[j].name(), at, past, outcome) + below);
    assert(sweep_through(flow, from, j, before, after, told, at, past, outcome, above, below));
}

/// Two runs of one flow, each on a context of its own.
pub open spec fn both_run(
    flow: Flow,
    first: (ContextView, ContextView, Result<(), anyhow::Error>, Seq<Told>),
    second: (ContextView, ContextView, Result<(), anyhow::Error>, Seq<Told>),
) -> bool {
    &&& flow.runs(first.0, first.1, first.2, first.3)
    &&& flow.runs(second.0, second.1, second.2, second.3)
}

/// Runs of one flow on contexts of their own do not touch each other: what a run may do
/// is a matter of the flow and of the context it is given, and a run leaves nothing behind
/// but that context. So whatever two runs may do in one order they may do in the other.
pub proof fn lemma_runs_in_either_order(
    flow: Flow,
    first: (ContextView, ContextView, Result<(), anyhow::Error>, Seq<Told>),
    second: (ContextView, ContextView, Result<(), anyhow::Error>, Seq<Told>),
)
    ensures
        both_run(flow, first, second) == both_run(flow, second, first),
{
}

/// Whether what a step does is settled by the context it is called on: neither its
/// forward action nor its rollback has two outcomes for one context.
pub open spec fn settled(action: Action) -> bool {
    &&& forall|
        before: ContextView,
        after: ContextView,
        outcome: Result<(), anyhow::Error>,
        other: ContextView,
        other_outcome: Result<(), anyhow::Error>,
    |
        #![trigger action.executes(before, after, outcome), action.executes(before, other, other_outcome)]
        action.executes(before, after, outcome) && action.executes(before, other, other_outcome) ==> after
            == other && outcome == other_outcome
    &&& forall|
        before: ContextView,
        after: ContextView,
        outcome: Result<(), anyhow::Error>,
        other: ContextView,
        other_outcome: Result<(), anyhow::Error>,
    |
        #![trigger action.rolls_back(before, after, outcome), action.rolls_back(before, other, other_outcome)]
        action.rolls_back(before, after, outcome) && action.rolls_back(before, other, other_outcome)
            ==> after == other && outcome == other_outcome
}

/// Whether every step of a flow is settled.
pub open spec fn all_settled(flow: Flow) -> bool {
    forall|i: int| 0 <= i < flow.actions().len() ==> settled(#[trigger] flow.actions()[i])
}

proof fn lemma_forwards_settled(
    flow: Flow,
    count: int,
    before: ContextView,
    first: ContextView,
    first_told: Seq<Told>,
    second: ContextView,
    second_told: Seq<Told>,
)
    requires
        all_settled(flow),
        count <= flow.actions().len(),
        flow.forwards(count, before, first, first_told),
        flow.forwards(count, before, second, second_told),
    ensures
        first == second,
        first_told == second_told,
    decreases count,
{
    if count > 0 {
        let (a, a_earlier) = choose|reached: ContextView, earlier: Seq<Told>|
            flow.forwards(count - 1, before, reached, earlier) && #[trigger] flow.stepped(
                count,
                reached,
                first,
                earlier,
                first_told,
            );
        let (b, b_earlier) = choose|reached: ContextView, earlier: Seq<Told>|
            flow.forwards(count - 1, before, reached, earlier) && #[trigger] flow.stepped(
                count,
                reached,
                second,
                earlier,
                second_told,
            );
        lemma_forwards_settled(flow, count - 1, before, a, a_earlier, b, b_earlier);
        assert(settled(flow.actions()[count - 1]));
    }
}

proof fn lemma_sweep_settled(
    flow: Flow,
    from: int,
    down_to: int,
    before: ContextView,
    first: ContextView,
    first_told: Seq<Told>,
    second: ContextView,
    second_told: Seq<Told>,
)
    requires
        all_settled(flow),
        0 <= down_to,
        from < flow.actions().len(),
        flow.sweeps(from, down_to, before, first, first_told),
        flow.sweeps(from, down_to, before, second, second_told),
    ensures
        first == second,
        first_told == second_told,
    decreases from - down_to + 1,
{
    if from >= down_to {
        let (a, a_outcome, a_earlier) = choose|
            reached: ContextView,
            outcome: Result<(), anyhow::Error>,
            earlier: Seq<Told>,
        |
            flow.sweeps(from, down_to + 1, before, reached, earlier) && #[trigger] flow.rolled(
                down_to,
                reached,
                first,
                outcome,
                earlier,
                first_told,
            );
        let (b, b_outcome, b_earlier) = choose|
            reached: ContextView,
            outcome: Result<(), anyhow::Error>,
            earlier: Seq<Told>,
        |
            flow.sweeps(from, down_to + 1, before, reached, earlier) && #[trigger] flow.rolled(
                down_to,
                reached,
                second,
                outcome,
                earlier,
                second_told,
            );
        lemma_sweep_settled(flow, from, down_to + 1, before, a, a_earlier, b, b_earlier);
        assert(settled(flow.actions()[down_to]));
    }
}

/// Step `k` was called on the context `reached`, which the steps before it had led to,
/// and succeeded.
spec fn passed(
    flow: Flow,
    k: int,
    before: ContextView,
    reached: ContextView,
    left: ContextView,
    earlier: Seq<Told>,
) -> bool {
    flow.forwards(k, before, reached, earlier) && flow.actions()[k].executes(reached, left, Ok(()))
}

proof fn lemma_forwards_passes(flow: Flow, k: int, count: int, before: ContextView, after: ContextView, told: Seq<Told>)
    requires
        0 <= k < count,
        flow.forwards(count, before, after, told),
    ensures
        exists|reached: ContextView, left: ContextView, earlier: Seq<Told>| #[trigger]
            passed(flow, k, before, reached, left, earlier),
    decreases count,
{
    let (reached, earlier) = choose|reached: ContextView, earlier: Seq<Told>|
        flow.forwards(count - 1, before, reached, earlier) && #[trigger] flow.stepped(
            count,
            reached,
            after,
            earlier,
            told,
        );
    if k == count - 1 {
        assert(passed(flow, k, before, reached, after, earlier));
    } else {
        lemma_forwards_passes(flow, k, count - 1, before, reached, earlier);
    }
}

/// A settled flow that fails at step `k` on a context does not get beyond `k` on it.
proof fn lemma_no_two_ways(
    flow: Flow,
    k: int,
    count: int,
    before: ContextView,
    reached: ContextView,
    failed: ContextView,
    forward: Seq<Told>,
    error: anyhow::Error,
    after: ContextView,
    told: Seq<Told>,
)
    requires
        all_settled(flow),
        0 <= k < count <= flow.actions().len(),
        flow.forwards(k, before, reached, forward),
        flow.actions()[k].executes(reached, failed, Err(error)),
    ensures
        !flow.forwards(count, before, after, told),
{
    if flow.forwards(count, before, after, told) {
        lemma_forwards_passes(flow, k, count, before, after, told);
        let (other, left, earlier) = choose|other: ContextView, left: ContextView, earlier: Seq<Told>| #[trigger]
            passed(flow, k, before, other, left, earlier);
        lemma_forwards_settled(flow, k, before, reached, forward, other, earlier);
        assert(settled(flow.actions()[k]));
    }
}

/// A flow adds nothing of its own to what its steps do: where every step is settled by
/// the context it is called on, so is the run. Two runs on equal contexts end in equal
/// contexts, return the same and tell the same, whatever was run before them or between
/// them, on other contexts or on the same.
pub proof fn lemma_run_settled(
    flow: Flow,
    before: ContextView,
    first: ContextView,
    first_result: Result<(), anyhow::Error>,
    first_told: Seq<Told>,
    second: ContextView,
    second_result: Result<(), anyhow::Error>,
    second_told: Seq<Told>,
)
    requires
        all_settled(flow),
        flow.runs(before, first, first_result, first_told),
        flow.runs(before, second, second_result, second_told),
    ensures
        first == second,
        first_result == second_result,
        first_told == second_told,
{
    let count = flow.actions().len() as int;
    match (first_result, second_result) {
        (Ok(_), Ok(_)) => {
            lemma_forwards_settled(flow, count, before, first, first_told, second, second_told);
            assert(first_result->Ok_0 == second_result->Ok_0);
        },
        (Err(error), Ok(_)) => {
            let (k, reached, failed, forward, undo) = choose|
                k: int,
                reached: ContextView,
                failed: ContextView,
                forward: Seq<Told>,
                undo: Seq<Told>,
            | #[trigger] flow.fails(k, reached, failed, forward, undo, before, first, error, first_told);
            lemma_no_two_ways(flow, k, count, before, reached, failed, forward, error, second, second_told);
        },
        (Ok(_), Err(error)) => {
            let (k, reached, failed, forward, undo) = choose|
                k: int,
                reached: ContextView,
                failed: ContextView,
                forward: Seq<Told>,
                undo: Seq<Told>,
            | #[trigger] flow.fails(k, reached, failed, forward, undo, before, second, error, second_told);
            lemma_no_two_ways(flow, k, count, before, reached, failed, forward, error, first, first_told);
        },
        (Err(a_error), Err(b_error)) => {
            let (a, a_reached, a_failed, a_forward, a_undo) = choose|
                k: int,
                reached: ContextView,
                failed: ContextView,
                forward: Seq<Told>,
                undo: Seq<Told>,
            | #[trigger] flow.fails(k, reached, failed, forward, undo, before, first, a_error, first_told);
            let (b, b_reached, b_failed, b_forward, b_undo) = choose|
                k: int,
                reached: ContextView,
                failed: ContextView,
                forward: Seq<Told>,
                undo: Seq<Told>,
            | #[trigger] flow.fails(k, reached, failed, forward, undo, before, second, b_error, second_told);
            if a < b {
                lemma_no_two_ways(flow, a, b, before, a_reached, a_failed, a_forward, a_error, b_reached, b_forward);
            } else if b < a {
                lemma_no_two_ways(flow, b, a, before, b_reached, b_failed, b_forward, b_error, a_reached, a_forward);
            } else {
                lemma_forwards_settled(flow, a, before, a_reached, a_forward, b_reached, b_forward);
                assert(settled(flow.actions()[a]));
                assert(a_failed == b_failed);
                assert(a_error == b_error);
                lemma_sweep_settled(flow, a, 0, a_failed, first, a_undo, second, b_undo);
            }
        },
    }
}

} // verus!
