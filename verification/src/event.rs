//! The lifecycle events of a run, and the observers that receive them.

use crate::context::Context;
use crate::context::ContextView;
use vstd::prelude::*;

verus! {

/// What a flow reports while it runs. Every event names the step by its index in the flow
/// and by its label; the two failure events carry the text of the error as well.
#[derive(Debug, PartialEq, Eq)]
pub enum Event {
    /// The forward action of a step is about to be called.
    StepStarted { index: usize, name: String },
    /// The forward action of a step returned without error.
    StepSucceeded { index: usize, name: String },
    /// The forward action of a step returned an error.
    StepFailed { index: usize, name: String, error: String },
    /// The compensating action of a step is about to be called.
    RollbackStarted { index: usize, name: String },
    /// The compensating action of a step returned an error.
    RollbackFailed { index: usize, name: String, error: String },
}

/// The mathematical form of an [`Event`].
pub enum EventView {
    StepStarted { index: int, name: Seq<char> },
    StepSucceeded { index: int, name: Seq<char> },
    StepFailed { index: int, name: Seq<char>, error: Seq<char> },
    RollbackStarted { index: int, name: Seq<char> },
    RollbackFailed { index: int, name: Seq<char>, error: Seq<char> },
}

impl View for Event {
    type V = EventView;

    open spec fn view(&self) -> EventView {
        match self {
            Event::StepStarted { index, name } => EventView::StepStarted {
                index: *index as int,
                name: name@,
            },
            Event::StepSucceeded { index, name } => EventView::StepSucceeded {
                index: *index as int,
                name: name@,
            },
            Event::StepFailed { index, name, error } => EventView::StepFailed {
                index: *index as int,
                name: name@,
                error: error@,
            },
            Event::RollbackStarted { index, name } => EventView::RollbackStarted {
                index: *index as int,
                name: name@,
            },
            Event::RollbackFailed { index, name, error } => EventView::RollbackFailed {
                index: *index as int,
                name: name@,
                error: error@,
            },
        }
    }
}

impl EventView {
    /// Whether the event belongs to the rollback sweep.
    pub open spec fn is_rollback(self) -> bool {
        self is RollbackStarted || self is RollbackFailed
    }

    /// The index of the step that the event is about.
    pub open spec fn step(self) -> int {
        match self {
            EventView::StepStarted { index, .. } => index,
            EventView::StepSucceeded { index, .. } => index,
            EventView::StepFailed { index, .. } => index,
            EventView::RollbackStarted { index, .. } => index,
            EventView::RollbackFailed { index, .. } => index,
        }
    }
}

/// An event with the context as it stood when the event was told.
pub type Told = (EventView, ContextView);

/// The events of what was told, without the contexts.
pub open spec fn events_of(told: Seq<Told>) -> Seq<EventView> {
    Seq::new(told.len(), |i: int| told[i].0)
}

/// A listener for the events of a run. A flow calls `notify` once for each event, at the
/// moment the event happens, and shows it the context as it then stands: a start event is
/// told before the handler is called, an outcome event after the handler has returned.
///
/// An observer may keep a record of what it was told. One that does says so in `records`
/// and gives the record in `seen`; it is then held to it, and the contracts of a flow say
/// what the record holds after a run. One that states neither promises nothing.
pub trait Observer {
    /// Whether observers of this type keep a record.
    open spec fn records() -> bool {
        false
    }

    /// Every event this observer has been told, oldest first, each with the context it
    /// was told with, where the observer keeps a record.
    open spec fn seen(&self) -> Seq<Told> {
        Seq::empty()
    }

    fn notify(&mut self, event: Event, ctx: &Context)
        ensures
            Self::records() ==> final(self).seen() == old(self).seen().push((event@, ctx@)),
    ;
}

/// What an observer that keeps a record has added to it: `told`, after what it had seen
/// before.
pub open spec fn reported<O: Observer>(before: O, after: O, told: Seq<Told>) -> bool {
    O::records() ==> after.seen() == before.seen() + told
}

/// An observer that keeps the events it is told.
pub struct Recorder {
    told: Vec<(Event, Ghost<ContextView>)>,
}

impl Recorder {
    pub fn new() -> (recorder: Self)
        ensures
            recorder.seen() == Seq::<Told>::empty(),
    {
        let recorder = Recorder { told: Vec::new() };
        assert(recorder.seen() =~= Seq::<Told>::empty());
        recorder
    }

    /// The events told so far, oldest first.
    pub fn events(&self) -> (events: Vec<&Event>)
        ensures
            events@.len() == self.seen().len(),
            forall|i: int| 0 <= i < events@.len() ==> (#[trigger] events@[i])@ == self.seen()[i].0,
    {
        let mut events: Vec<&Event> = Vec::new();
        let mut i: usize = 0;
        while i < self.told.len()
            invariant
                i <= self.told@.len(),
                events@.len() == i,
                forall|k: int| 0 <= k < i ==> (#[trigger] events@[k])@ == self.seen()[k].0,
            decreases self.told@.len() - i,
        {
            events.push(&self.told[i].0);
            i += 1;
        }
        events
    }
}

impl Observer for Recorder {
    open spec fn records() -> bool {
        true
    }

    closed spec fn seen(&self) -> Seq<Told> {
        Seq::new(self.told@.len(), |i: int| (self.told@[i].0@, self.told@[i].1@))
    }

    fn notify(&mut self, event: Event, ctx: &Context) {
        self.told.push((event, Ghost(ctx@)));
        assert(self.seen() =~= old(self).seen().push((event@, ctx@)));
    }
}

} // verus!
