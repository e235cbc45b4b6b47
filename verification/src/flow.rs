//! Flows: pipelines of named steps that run in order against one shared context and, when
//! a step fails, undo what was done by rolling the steps back, newest first.

use crate::context::Context;
use crate::context::ContextView;
use crate::event::Event;
use crate::event::EventView;
use crate::event::Observer;
use crate::event::Told;
use crate::event::reported;
use crate::failure::describe;
use crate::failure::error_text;
use vstd::prelude::*;

verus! {

/// A step of a pipeline: a forward action and the action that compensates for it. A
/// handler keeps no state of its own between calls; what a run has done so far stands in
/// the context.
///
/// The two relations say what a call may do. An implementation that states neither leaves
/// them at `true`, which promises nothing; one that states them has its actions held to
/// them, and what the contracts of [`Flow`] say of a run is then said in its terms.
pub trait Handler {
    /// Whether a call of `execute` on the context `before` may leave the context `after`
    /// and return `outcome`.
    open spec fn executes(
        &self,
        before: ContextView,
        after: ContextView,
        outcome: Result<(), anyhow::Error>,
    ) -> bool {
        true
    }

    /// Whether a call of `rollback` on the context `before` may leave the context `after`
    /// and return `outcome`.
    open spec fn rolls_back(
        &self,
        before: ContextView,
        after: ContextView,
        outcome: Result<(), anyhow::Error>,
    ) -> bool {
        true
    }

    /// Does the work of the step. On an error the context may have been changed in part;
    /// `rollback` of the same handler has to cope with that.
    fn execute(&self, ctx: &mut Context) -> (outcome: Result<(), anyhow::Error>)
        ensures
            self.executes(old(ctx)@, final(ctx)@, outcome),
    ;

    /// Undoes, as far as it can, what `execute` did, going by the context alone. It is
    /// called for the step that failed and for every step that had succeeded before.
    fn rollback(&self, ctx: &mut Context) -> (outcome: Result<(), anyhow::Error>)
        ensures
            self.rolls_back(old(ctx)@, final(ctx)@, outcome),
    ;
}

/// A handler under a name. The name labels the step in events and is never used to find it.
pub struct Action {
    name: String,
    // In a one-element tuple: a field of the boxed type itself would have the value coerced
    // on the way in, and the verifier does not carry a handler's relations across that.
    handler: (Box<dyn Handler>,),
}

impl Action {
    /// The label of the step.
    pub closed spec fn name(&self) -> Seq<char> {
        self.name@
    }

    /// What the forward action of the step may do: [`Handler::executes`] of its handler.
    pub closed spec fn executes(
        &self,
        before: ContextView,
        after: ContextView,
        outcome: Result<(), anyhow::Error>,
    ) -> bool {
        self.handler.0.executes(before, after, outcome)
    }

    /// What the compensating action of the step may do: [`Handler::rolls_back`] of its
    /// handler.
    pub closed spec fn rolls_back(
        &self,
        before: ContextView,
        after: ContextView,
        outcome: Result<(), anyhow::Error>,
    ) -> bool {
        self.handler.0.rolls_back(before, after, outcome)
    }

    pub fn new(name: &str, handler: Box<dyn Handler>) -> (action: Self)
        ensures
            action.name() == name@,
            forall|before: ContextView, after: ContextView, outcome: Result<(), anyhow::Error>|
                #[trigger] action.executes(before, after, outcome) == handler.executes(
                    before,
                    after,
                    outcome,
                ),
            forall|before: ContextView, after: ContextView, outcome: Result<(), anyhow::Error>|
                #[trigger] action.rolls_back(before, after, outcome) == handler.rolls_back(
                    before,
                    after,
                    outcome,
                ),
    {
        let held = (handler,);
        Action { name: name.to_owned(), handler: held }
    }
}

/// The events of a forward pass whose first `count` steps succeeded: for each of them, in
/// step order, a start event and a success event.
pub open spec fn forward_events(names: Seq<Seq<char>>, count: int) -> Seq<EventView>
    decreases count,
{
    if count <= 0 {
        Seq::empty()
    } else {
        forward_events(names, count - 1).push(
            EventView::StepStarted { index: count - 1, name: names[count - 1] },
        ).push(EventView::StepSucceeded { index: count - 1, name: names[count - 1] })
    }
}

/// The events of one rollback: a start event, and a failure event after it where the
/// rollback returned an error.
pub open spec fn rollback_events(
    index: int,
    name: Seq<char>,
    outcome: Result<(), anyhow::Error>,
) -> Seq<EventView> {
    match outcome {
        Ok(_) => seq![EventView::RollbackStarted { index, name }],
        Err(e) => seq![
            EventView::RollbackStarted { index, name },
            EventView::RollbackFailed { index, name, error: error_text(e) },
        ],
    }
}

/// What is told of one rollback that takes `before` to `after`: its start with the
/// context before it, and, where it returned an error, its failure with the context after
/// it.
pub open spec fn rollback_told(
    index: int,
    name: Seq<char>,
    before: ContextView,
    after: ContextView,
    outcome: Result<(), anyhow::Error>,
) -> Seq<Told> {
    match outcome {
        Ok(_) => seq![(EventView::RollbackStarted { index, name }, before)],
        Err(e) => seq![
            (EventView::RollbackStarted { index, name }, before),
            (EventView::RollbackFailed { index, name, error: error_text(e) }, after),
        ],
    }
}

/// A named pipeline: actions in the order in which they were added, which is the order in
/// which they run. A flow is not changed by running it and can be run again.
pub struct Flow {
    name: String,
    steps: Vec<Action>,
}

impl Flow {
    /// The name of the pipeline.
    pub closed spec fn name(&self) -> Seq<char> {
        self.name@
    }

    /// The steps, in the order in which they were added.
    pub closed spec fn actions(&self) -> Seq<Action> {
        self.steps@
    }

    /// The labels of the steps, in step order.
    pub open spec fn names(&self) -> Seq<Seq<char>> {
        Seq::new(self.actions().len(), |i: int| self.actions()[i].name())
    }

    /// The last of the first `count` steps takes `before` to `after` and succeeds, and
    /// `told` is `earlier` followed by the start of that step, told with the context before
    /// it, and its success, told with the context after it.
    pub open spec fn stepped(
        &self,
        count: int,
        before: ContextView,
        after: ContextView,
        earlier: Seq<Told>,
        told: Seq<Told>,
    ) -> bool {
        let index = count - 1;
        &&& self.actions()[index].executes(before, after, Ok(()))
        &&& told == earlier.push(
            (EventView::StepStarted { index, name: self.actions()[index].name() }, before),
        ).push((EventView::StepSucceeded { index, name: self.actions()[index].name() }, after))
    }

    /// The forward actions of the first `count` steps, called one after the other and each
    /// on the context that the one before left, all succeed and take `before` to `after`,
    /// and `told` is what is told of it.
    pub open spec fn forwards(&self, count: int, before: ContextView, after: ContextView, told: Seq<Told>) -> bool
        decreases count,
    {
        if count <= 0 {
            after == before && told == Seq::<Told>::empty()
        } else {
            exists|reached: ContextView, earlier: Seq<Told>|
                self.forwards(count - 1, before, reached, earlier) && #[trigger] self.stepped(
                    count,
                    reached,
                    after,
                    earlier,
                    told,
                )
        }
    }

    /// The rollback of step `index` takes `before` to `after` and returns `outcome`, and
    /// `told` is `earlier` followed by what is told of this rollback.
    pub open spec fn rolled(
        &self,
        index: int,
        before: ContextView,
        after: ContextView,
        outcome: Result<(), anyhow::Error>,
        earlier: Seq<Told>,
        told: Seq<Told>,
    ) -> bool {
        &&& self.actions()[index].rolls_back(before, after, outcome)
        &&& told == earlier + rollback_told(index, self.actions()[index].name(), before, after, outcome)
    }

    /// The rollbacks of the steps `from`, `from - 1`, ..., `down_to`, called in that order
    /// and each on the context that the one before left, take `before` to `after`, and
    /// `told` is what is told of it. Each is called whatever the ones before it returned.
    pub open spec fn sweeps(
        &self,
        from: int,
        down_to: int,
        before: ContextView,
        after: ContextView,
        told: Seq<Told>,
    ) -> bool
        decreases from - down_to + 1,
    {
        if from < down_to {
            after == before && told == Seq::<Told>::empty()
        } else {
            exists|reached: ContextView, outcome: Result<(), anyhow::Error>, earlier: Seq<Told>|
                self.sweeps(from, down_to + 1, before, reached, earlier) && #[trigger] self.rolled(
                    down_to,
                    reached,
                    after,
                    outcome,
                    earlier,
                    told,
                )
        }
    }

    /// A run that fails at step `k`: the steps before `k` succeed and take `before` to
    /// `reached`, of which `forward` is told; the forward action of `k` takes `reached` to
    /// `failed` and returns `error`; the sweep from `k` down to 0 takes `failed` to `after`,
    /// of which `undo` is told. `told` is all that is told, in the order in which it
    /// happened.
    pub open spec fn fails(
        &self,
        k: int,
        reached: ContextView,
        failed: ContextView,
        forward: Seq<Told>,
        undo: Seq<Told>,
        before: ContextView,
        after: ContextView,
        error: anyhow::Error,
        told: Seq<Told>,
    ) -> bool {
        &&& 0 <= k < self.actions().len()
        &&& self.forwards(k, before, reached, forward)
        &&& self.actions()[k].executes(reached, failed, Err(error))
        &&& self.sweeps(k, 0, failed, after, undo)
        &&& told == forward.push(
            (EventView::StepStarted { index: k, name: self.actions()[k].name() }, reached),
        ).push(
            (
                EventView::StepFailed { index: k, name: self.actions()[k].name(), error: error_text(error) },
                failed,
            ),
        ) + undo
    }

    /// A run of the flow on the context `before` may leave the context `after`, return
    /// `result` and tell `told`.
    ///
    /// It returns `Ok` where every step succeeds: the context is then the one that the
    /// forward actions lead to, and no rollback is called. It returns an error where a step
    /// fails: no later step is tried, the failing step and every step before it are rolled
    /// back, newest first, and the error is the one that the failing step returned.
    pub open spec fn runs(
        &self,
        before: ContextView,
        after: ContextView,
        result: Result<(), anyhow::Error>,
        told: Seq<Told>,
    ) -> bool {
        match result {
            Ok(_) => self.forwards(self.actions().len() as int, before, after, told),
            Err(error) => exists|
                k: int,
                reached: ContextView,
                failed: ContextView,
                forward: Seq<Told>,
                undo: Seq<Told>,
            | #[trigger] self.fails(k, reached, failed, forward, undo, before, after, error, told),
        }
    }

    /// An empty pipeline.
    pub fn new(name: &str) -> (flow: Self)
        ensures
            flow.name() == name@,
            flow.actions() == Seq::<Action>::empty(),
    {
        Flow { name: name.to_owned(), steps: Vec::new() }
    }

    /// The flow with `action` as its new last step.
    pub fn action(self, action: Action) -> (flow: Self)
        ensures
            flow.name() == self.name(),
            flow.actions() == self.actions().push(action),
    {
        let mut flow = self;
        flow.steps.push(action);
        flow
    }

    /// Runs the steps in order on `ctx` until one fails. After a failure it rolls back
    /// the failing step and all steps before it, and returns the error of the failing step.
    /// `observer` is told of each event as it happens.
    pub fn execute<O: Observer>(&self, ctx: &mut Context, observer: &mut O) -> (result: Result<
        (),
        anyhow::Error,
    >)
        ensures
            exists|told: Seq<Told>|
                #[trigger] self.runs(old(ctx)@, final(ctx)@, result, told) && reported(
                    *old(observer),
                    *final(observer),
                    told,
                ),
    {
        let ghost first = *observer;
        let ghost before = ctx@;
        let ghost mut told: Seq<Told> = Seq::empty();
        let mut index: usize = 0;
        while index < self.steps.len()
            invariant
                first == *old(observer),
                before == old(ctx)@,
                index <= self.actions().len(),
                self.forwards(index as int, before, ctx@, told),
                reported(first, *observer, told),
            decreases self.actions().len() - index,
        {
            let step = &self.steps[index];
            observer.notify(Event::StepStarted { index, name: step.name.clone() }, ctx);
            let ghost reached = ctx@;
            let ghost started = (EventView::StepStarted { index: index as int, name: step.name() }, reached);
            let outcome = step.handler.0.execute(ctx);
            let ghost returned = outcome;
            match outcome {
                Ok(_) => {
                    observer.notify(Event::StepSucceeded { index, name: step.name.clone() }, ctx);
                    proof {
                        assert(returned == Ok::<(), anyhow::Error>(())) by {
                            assert(returned is Ok);
                            assert(returned->Ok_0 == ());
                        }
                        let earlier = told;
                        told = told.push(started).push(
                            (EventView::StepSucceeded { index: index as int, name: step.name() }, ctx@),
                        );
                        assert(self.stepped(index as int + 1, reached, ctx@, earlier, told));
                        if O::records() {
                            assert(observer.seen() =~= first.seen() + told);
                        }
                    }
                },
                Err(error) => {
                    observer.notify(
                        Event::StepFailed { index, name: step.name.clone(), error: describe(&error) },
                        ctx,
                    );
                    let ghost failed = ctx@;
                    let ghost stopped = *observer;
                    let _ = self.rollback(index, ctx, observer);
                    proof {
                        let undo = choose|undo: Seq<Told>|
                            #[trigger] self.sweeps(index as int, 0, failed, ctx@, undo) && reported(
                                stopped,
                                *observer,
                                undo,
                            );
                        let forward = told;
                        let halted = forward.push(started).push(
                            (
                                EventView::StepFailed {
                                    index: index as int,
                                    name: step.name(),
                                    error: error_text(error),
                                },
                                failed,
                            ),
                        );
                        told = halted + undo;
                        if O::records() {
                            assert(stopped.seen() =~= first.seen() + halted);
                            assert(observer.seen() =~= first.seen() + told);
                        }
                        assert(self.fails(index as int, reached, failed, forward, undo, before, ctx@, error, told));
                        assert(self.runs(before, ctx@, Err(error), told));
                    }
                    return Err(error);
                },
            }
            index += 1;
        }
        proof {
            assert(self.runs(before, ctx@, Ok(()), told));
        }
        Ok(())
    }

    /// Rolls back the steps `index`, `index - 1`, ..., 0, in that order. A rollback that
    /// returns an error is reported to `observer` and the sweep goes on; the result is
    /// always `Ok`.
    pub fn rollback<O: Observer>(&self, index: usize, ctx: &mut Context, observer: &mut O) -> (result:
        Result<(), anyhow::Error>)
        requires
            index < self.actions().len(),
        ensures
            result is Ok,
            exists|told: Seq<Told>|
                #[trigger] self.sweeps(index as int, 0, old(ctx)@, final(ctx)@, told) && reported(
                    *old(observer),
                    *final(observer),
                    told,
                ),
    {
        let ghost first = *observer;
        let ghost before = ctx@;
        let ghost mut told: Seq<Told> = Seq::empty();
        assert(self.steps.len() <= usize::MAX);
        let mut left: usize = index + 1;
        while left > 0
            invariant
                first == *old(observer),
                before == old(ctx)@,
                left <= index + 1,
                index < self.actions().len(),
                reported(first, *observer, told),
                self.sweeps(index as int, left as int, before, ctx@, told),
            decreases left,
        {
            left -= 1;
            let step = &self.steps[left];
            observer.notify(Event::RollbackStarted { index: left, name: step.name.clone() }, ctx);
            let ghost reached = ctx@;
            let outcome = step.handler.0.rollback(ctx);
            if let Err(error) = &outcome {
                observer.notify(
                    Event::RollbackFailed { index: left, name: step.name.clone(), error: describe(error) },
                    ctx,
                );
            }
            proof {
                let earlier = told;
                told = told + rollback_told(left as int, step.name(), reached, ctx@, outcome);
                assert(self.rolled(left as int, reached, ctx@, outcome, earlier, told));
                if O::records() {
                    assert(observer.seen() =~= first.seen() + told);
                }
            }
        }
        Ok(())
    }
}

} // verus!
