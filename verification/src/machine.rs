//! Flows as state machines over views, and the traces they produce.

use vstd::prelude::*;

use crate::effect::{ActionView, EventView};

verus! {

/// A flow, seen mathematically: a state that reacts to each event with a
/// successor state and, unless the flow has ended, the next action.
pub trait Machine: Sized {
    /// The state after `event`, and the action the flow asks for next.
    spec fn next(self, event: EventView) -> (Self, Option<ActionView>);

    /// The flow has ended: it asks for nothing more.
    spec fn ended(self) -> bool;

    /// A flow that has ended stays as it is, whatever it is told.
    proof fn lemma_ended_is_final(self, event: EventView)
        requires
            self.ended(),
        ensures
            self.next(event) == (self, None::<ActionView>),
    ;
}

/// An action that may have been asked for, as a sequence of at most one.
pub open spec fn asked(action: Option<ActionView>) -> Seq<ActionView> {
    match action {
        Some(action) => seq![action],
        None => Seq::empty(),
    }
}

/// The outcome of feeding `events`, in order, to a flow in state `state`: the
/// state reached, and the actions asked for along the way.
pub open spec fn run<M: Machine>(state: M, events: Seq<EventView>) -> (M, Seq<ActionView>)
    decreases events.len(),
{
    if events.len() == 0 {
        (state, Seq::empty())
    } else {
        let (after, action) = state.next(events.first());
        let (end, later) = run(after, events.drop_first());
        (end, asked(action) + later)
    }
}

/// The whole history of a flow that was started with `start` and then fed
/// `events`: the state reached, and every action asked for, the first one
/// included.
pub open spec fn trace<M: Machine>(start: (M, ActionView), events: Seq<EventView>) -> (
    M,
    Seq<ActionView>,
) {
    let (end, actions) = run(start.0, events);
    (end, seq![start.1] + actions)
}

/// Events that reach a flow after it has ended change nothing and cause no
/// action.
pub proof fn lemma_run_after_end<M: Machine>(state: M, events: Seq<EventView>)
    requires
        state.ended(),
    ensures
        run(state, events) == (state, Seq::<ActionView>::empty()),
    decreases events.len(),
{
    if events.len() > 0 {
        state.lemma_ended_is_final(events.first());
        lemma_run_after_end(state, events.drop_first());
    }
}

/// Feeding a flow two batches of events in turn is feeding it their
/// concatenation.
pub proof fn lemma_run_concat<M: Machine>(state: M, first: Seq<EventView>, second: Seq<EventView>)
    ensures
        run(state, first + second) == {
            let (middle, early) = run(state, first);
            let (end, late) = run(middle, second);
            (end, early + late)
        },
    decreases first.len(),
{
    if first.len() == 0 {
        assert(first + second == second);
        assert(Seq::<ActionView>::empty() + run(state, second).1 == run(state, second).1);
    } else {
        let (after, action) = state.next(first.first());
        assert((first + second).drop_first() == first.drop_first() + second);
        lemma_run_concat(after, first.drop_first(), second);
        let early = run(after, first.drop_first()).1;
        let late = run(run(after, first.drop_first()).0, second).1;
        assert(asked(action) + (early + late) == (asked(action) + early) + late);
    }
}

/// Feeding a flow one event is taking one step.
pub proof fn lemma_run_one<M: Machine>(state: M, event: EventView)
    ensures
        run(state, seq![event]) == (state.next(event).0, asked(state.next(event).1)),
{
    reveal_with_fuel(run, 2);
    let action = state.next(event).1;
    assert(seq![event].drop_first().len() == 0);
    assert(asked(action) + Seq::<ActionView>::empty() == asked(action));
}

/// Feeding a flow one more event is taking one more step.
pub proof fn lemma_run_push<M: Machine>(state: M, events: Seq<EventView>, event: EventView)
    ensures
        run(state, events.push(event)) == {
            let (before, early) = run(state, events);
            let (end, action) = before.next(event);
            (end, early + asked(action))
        },
{
    assert(events.push(event) == events + seq![event]);
    lemma_run_concat(state, events, seq![event]);
    lemma_run_one(run(state, events).0, event);
}

/// A flow that has not ended after `events` had not ended before them.
pub proof fn lemma_not_ended_before<M: Machine>(state: M, events: Seq<EventView>)
    requires
        !run(state, events).0.ended(),
    ensures
        !state.ended(),
{
    if state.ended() {
        lemma_run_after_end(state, events);
    }
}

} // verus!
