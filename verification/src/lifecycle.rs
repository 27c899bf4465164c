//! The lifecycle of conversation threads: one thread per channel, created on
//! first contact and deleted on reset.

use vstd::prelude::*;

use crate::effect::{Action, ActionView, Event, EventView, StoredValue, StoredView};
use crate::machine::Machine;

verus! {

/// The flow that finds the thread of a channel, creating one if the channel
/// has none.
#[derive(Clone, Debug, PartialEq, Eq)]
pub enum Resolve {
    /// The store was asked for the channel's thread.
    Looking { channel_id: String },
    /// The channel has no thread; the provider was asked to create one.
    Creating { channel_id: String },
    /// The store was asked to remember the new thread.
    Saving { thread_id: String },
    /// The flow has ended: this is the channel's thread.
    Resolved { thread_id: String },
    /// The flow has ended without a thread, and the request with it.
    Aborted,
}

/// The mathematical value of a [`Resolve`] flow.
pub enum ResolveView {
    Looking { channel_id: Seq<char> },
    Creating { channel_id: Seq<char> },
    Saving { thread_id: Seq<char> },
    Resolved { thread_id: Seq<char> },
    Aborted,
}

impl View for Resolve {
    type V = ResolveView;

    open spec fn view(&self) -> ResolveView {
        match self {
            Resolve::Looking { channel_id } => ResolveView::Looking { channel_id: channel_id@ },
            Resolve::Creating { channel_id } => ResolveView::Creating { channel_id: channel_id@ },
            Resolve::Saving { thread_id } => ResolveView::Saving { thread_id: thread_id@ },
            Resolve::Resolved { thread_id } => ResolveView::Resolved { thread_id: thread_id@ },
            Resolve::Aborted => ResolveView::Aborted,
        }
    }
}

impl Machine for ResolveView {
    /// A stored thread is used as it is. A channel without one gets a new
    /// thread, which is stored before it is used. A stored value that is not
    /// a string, a failure to create the thread, or an event that does not
    /// answer the pending action, ends the flow without a thread.
    open spec fn next(self, event: EventView) -> (ResolveView, Option<ActionView>) {
        match self {
            ResolveView::Looking { channel_id } => match event {
                EventView::Stored(Some(StoredView::Text(thread_id))) => (
                    ResolveView::Resolved { thread_id },
                    None,
                ),
                EventView::Stored(None) => (
                    ResolveView::Creating { channel_id },
                    Some(ActionView::CreateThread),
                ),
                _ => (ResolveView::Aborted, None),
            },
            ResolveView::Creating { channel_id } => match event {
                EventView::ThreadCreated { thread_id } => (
                    ResolveView::Saving { thread_id },
                    Some(ActionView::StoreSet { key: channel_id, value: thread_id }),
                ),
                _ => (ResolveView::Aborted, None),
            },
            ResolveView::Saving { thread_id } => (ResolveView::Resolved { thread_id }, None),
            ResolveView::Resolved { .. } | ResolveView::Aborted => (self, None),
        }
    }

    open spec fn ended(self) -> bool {
        self is Resolved || self is Aborted
    }

    proof fn lemma_ended_is_final(self, event: EventView) {
    }
}

/// The start of the flow that finds or creates the thread of a channel.
pub open spec fn resolve_start(channel_id: Seq<char>) -> (ResolveView, ActionView) {
    (ResolveView::Looking { channel_id }, ActionView::StoreGet { key: channel_id })
}

/// Starts the flow that finds or creates the thread of `channel_id`: the
/// store is asked first.
pub fn resolve_or_create_thread(channel_id: String) -> (start: (Resolve, Action))
    ensures
        (start.0@, start.1@) == resolve_start(channel_id@),
{
    let key = channel_id.clone();
    (Resolve::Looking { channel_id }, Action::StoreGet { key })
}

impl Resolve {
    /// Resumes the flow with the event that answers its pending action.
    pub fn step(self, event: Event) -> (out: (Resolve, Option<Action>))
        ensures
            (out.0@, out.1.deep_view()) == self@.next(event@),
    {
        match self {
            Resolve::Looking { channel_id } => match event {
                Event::Stored(Some(StoredValue::Text(thread_id))) => (
                    Resolve::Resolved { thread_id },
                    None,
                ),
                Event::Stored(None) => (Resolve::Creating { channel_id }, Some(Action::CreateThread)),
                _ => (Resolve::Aborted, None),
            },
            Resolve::Creating { channel_id } => match event {
                Event::ThreadCreated { thread_id } => {
                    let value = thread_id.clone();
                    (
                        Resolve::Saving { thread_id },
                        Some(Action::StoreSet { key: channel_id, value }),
                    )
                },
                _ => (Resolve::Aborted, None),
            },
            Resolve::Saving { thread_id } => (Resolve::Resolved { thread_id }, None),
            Resolve::Resolved { thread_id } => (Resolve::Resolved { thread_id }, None),
            Resolve::Aborted => (Resolve::Aborted, None),
        }
    }
}

/// The flow that forgets the thread of a channel: the thread is deleted at
/// the provider and its mapping removed from the store.
#[derive(Clone, Debug, PartialEq, Eq)]
pub enum Reset {
    /// The store was asked for the channel's thread.
    Looking { channel_id: String },
    /// The provider was asked to delete the thread.
    Deleting { channel_id: String },
    /// The store was asked to remove the mapping.
    Forgetting,
    /// The flow has ended.
    Finished,
    /// The flow has ended on a stored value it could not use.
    Aborted,
}

/// The mathematical value of a [`Reset`] flow.
pub enum ResetView {
    Looking { channel_id: Seq<char> },
    Deleting { channel_id: Seq<char> },
    Forgetting,
    Finished,
    Aborted,
}

impl View for Reset {
    type V = ResetView;

    open spec fn view(&self) -> ResetView {
        match self {
            Reset::Looking { channel_id } => ResetView::Looking { channel_id: channel_id@ },
            Reset::Deleting { channel_id } => ResetView::Deleting { channel_id: channel_id@ },
            Reset::Forgetting => ResetView::Forgetting,
            Reset::Finished => ResetView::Finished,
            Reset::Aborted => ResetView::Aborted,
        }
    }
}

impl Machine for ResetView {
    /// A channel without a thread is left alone. Otherwise the provider is
    /// asked to delete the thread, and whatever comes of that, the mapping is
    /// removed. A stored value that is not a string, or an event that does
    /// not answer the lookup, ends the flow at once.
    open spec fn next(self, event: EventView) -> (ResetView, Option<ActionView>) {
        match self {
            ResetView::Looking { channel_id } => match event {
                EventView::Stored(Some(StoredView::Text(thread_id))) => (
                    ResetView::Deleting { channel_id },
                    Some(ActionView::DeleteThread { thread_id }),
                ),
                EventView::Stored(None) => (ResetView::Finished, None),
                _ => (ResetView::Aborted, None),
            },
            ResetView::Deleting { channel_id } => (
                ResetView::Forgetting,
                Some(ActionView::StoreDelete { key: channel_id }),
            ),
            ResetView::Forgetting => (ResetView::Finished, None),
            ResetView::Finished | ResetView::Aborted => (self, None),
        }
    }

    open spec fn ended(self) -> bool {
        self is Finished || self is Aborted
    }

    proof fn lemma_ended_is_final(self, event: EventView) {
    }
}

/// The start of the flow that forgets the thread of a channel.
pub open spec fn reset_start(channel_id: Seq<char>) -> (ResetView, ActionView) {
    (ResetView::Looking { channel_id }, ActionView::StoreGet { key: channel_id })
}

/// Starts the flow that forgets the thread of `channel_id`: the store is
/// asked first.
pub fn reset(channel_id: String) -> (start: (Reset, Action))
    ensures
        (start.0@, start.1@) == reset_start(channel_id@),
{
    let key = channel_id.clone();
    (Reset::Looking { channel_id }, Action::StoreGet { key })
}

impl Reset {
    /// Resumes the flow with the event that answers its pending action.
    pub fn step(self, event: Event) -> (out: (Reset, Option<Action>))
        ensures
            (out.0@, out.1.deep_view()) == self@.next(event@),
    {
        match self {
            Reset::Looking { channel_id } => match event {
                Event::Stored(Some(StoredValue::Text(thread_id))) => (
                    Reset::Deleting { channel_id },
                    Some(Action::DeleteThread { thread_id }),
                ),
                Event::Stored(None) => (Reset::Finished, None),
                _ => (Reset::Aborted, None),
            },
            Reset::Deleting { channel_id } => (
                Reset::Forgetting,
                Some(Action::StoreDelete { key: channel_id }),
            ),
            Reset::Forgetting => (Reset::Finished, None),
            Reset::Finished => (Reset::Finished, None),
            Reset::Aborted => (Reset::Aborted, None),
        }
    }
}

} // verus!
