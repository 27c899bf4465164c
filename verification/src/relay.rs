//! The message relay: a user's text is submitted to a thread, a run is
//! started and polled on a fixed budget, and the answer is read back.

use vstd::prelude::*;

use crate::content::{extract_text, joined_text};
use crate::effect::{Action, ActionView, Event, EventView};
use crate::machine::Machine;
use crate::status::{timeout_message, timeout_text};

verus! {

/// How often the status of a run is fetched before the relay gives up.
pub const MAX_POLLS: u8 = 5;

/// The seconds that pass before each fetch of a run's status.
pub const POLL_INTERVAL_SECS: u64 = 2;

/// How many messages are asked for when the answer is read: the newest one.
pub const REPLY_LIMIT: u64 = 1;

/// The flow that relays one text to a thread and awaits the answer.
#[derive(Clone, Debug, PartialEq, Eq)]
pub enum Relay {
    /// The provider was asked to add the text to the thread.
    Submitting { thread_id: String, assistant_id: String },
    /// The provider was asked to start a run.
    Starting { thread_id: String },
    /// The poll interval is passing; `polls_left` fetches may still be made.
    Waiting { thread_id: String, run_id: String, polls_left: u8 },
    /// The provider was asked for the run's status; `polls_left` more
    /// fetches may follow this one.
    Checking { thread_id: String, run_id: String, polls_left: u8 },
    /// The run has completed; the provider was asked for the newest message.
    Reading,
    /// The flow has ended: this is the text to send back.
    Replied { text: String },
    /// The flow has ended without a reply, and the request with it.
    Aborted,
}

/// The mathematical value of a [`Relay`] flow.
pub enum RelayView {
    Submitting { thread_id: Seq<char>, assistant_id: Seq<char> },
    Starting { thread_id: Seq<char> },
    Waiting { thread_id: Seq<char>, run_id: Seq<char>, polls_left: u8 },
    Checking { thread_id: Seq<char>, run_id: Seq<char>, polls_left: u8 },
    Reading,
    Replied { text: Seq<char> },
    Aborted,
}

impl View for Relay {
    type V = RelayView;

    open spec fn view(&self) -> RelayView {
        match self {
            Relay::Submitting { thread_id, assistant_id } => RelayView::Submitting {
                thread_id: thread_id@,
                assistant_id: assistant_id@,
            },
            Relay::Starting { thread_id } => RelayView::Starting { thread_id: thread_id@ },
            Relay::Waiting { thread_id, run_id, polls_left } => RelayView::Waiting {
                thread_id: thread_id@,
                run_id: run_id@,
                polls_left: *polls_left,
            },
            Relay::Checking { thread_id, run_id, polls_left } => RelayView::Checking {
                thread_id: thread_id@,
                run_id: run_id@,
                polls_left: *polls_left,
            },
            Relay::Reading => RelayView::Reading,
            Relay::Replied { text } => RelayView::Replied { text: text@ },
            Relay::Aborted => RelayView::Aborted,
        }
    }
}

/// What a relay does when a run is not yet known to have ended: it waits for
/// the next fetch while the budget lasts, and replies with the timeout text
/// once it is spent.
pub open spec fn wait_or_give_up(thread_id: Seq<char>, run_id: Seq<char>, polls_left: u8) -> (
    RelayView,
    Option<ActionView>,
) {
    if polls_left == 0 {
        (RelayView::Replied { text: timeout_text() }, None)
    } else {
        (
            RelayView::Waiting { thread_id, run_id, polls_left },
            Some(ActionView::Wait { seconds: POLL_INTERVAL_SECS }),
        )
    }
}

impl Machine for RelayView {
    /// The text is submitted, then a run is started, then its status is
    /// fetched after each wait. A pending status leads to the next wait, or
    /// to the timeout text when no fetch is left. A run that ended without
    /// success leads to the text of its status. A completed run leads to
    /// reading the newest message, whose text segments are the reply. A
    /// provider call that fails, an empty list of messages, or an event that
    /// does not answer the pending action, ends the flow without a reply.
    open spec fn next(self, event: EventView) -> (RelayView, Option<ActionView>) {
        match self {
            RelayView::Submitting { thread_id, assistant_id } => match event {
                EventView::Done => (
                    RelayView::Starting { thread_id },
                    Some(ActionView::StartRun { thread_id, assistant_id }),
                ),
                _ => (RelayView::Aborted, None),
            },
            RelayView::Starting { thread_id } => match event {
                EventView::RunStarted { run_id } => wait_or_give_up(thread_id, run_id, MAX_POLLS),
                _ => (RelayView::Aborted, None),
            },
            RelayView::Waiting { thread_id, run_id, polls_left } => if polls_left == 0 {
                (RelayView::Replied { text: timeout_text() }, None)
            } else {
                (
                    RelayView::Checking {
                        thread_id,
                        run_id,
                        polls_left: (polls_left - 1) as u8,
                    },
                    Some(ActionView::RetrieveRun { thread_id, run_id }),
                )
            },
            RelayView::Checking { thread_id, run_id, polls_left } => match event {
                EventView::Status(status) => if status.pending() {
                    wait_or_give_up(thread_id, run_id, polls_left)
                } else if status is Completed {
                    (
                        RelayView::Reading,
                        Some(ActionView::ListMessages { thread_id, limit: REPLY_LIMIT }),
                    )
                } else {
                    (RelayView::Replied { text: status.failure_text().unwrap() }, None)
                },
                _ => (RelayView::Aborted, None),
            },
            RelayView::Reading => match event {
                EventView::Messages(messages) => if messages.len() == 0 {
                    (RelayView::Aborted, None)
                } else {
                    (RelayView::Replied { text: joined_text(messages.last()) }, None)
                },
                _ => (RelayView::Aborted, None),
            },
            RelayView::Replied { .. } | RelayView::Aborted => (self, None),
        }
    }

    open spec fn ended(self) -> bool {
        self is Replied || self is Aborted
    }

    proof fn lemma_ended_is_final(self, event: EventView) {
    }
}

/// The start of the flow that relays `text` to a thread.
pub open spec fn relay_start(thread_id: Seq<char>, text: Seq<char>, assistant_id: Seq<char>) -> (
    RelayView,
    ActionView,
) {
    (
        RelayView::Submitting { thread_id, assistant_id },
        ActionView::SubmitMessage { thread_id, text },
    )
}

/// Starts the flow that relays `text` to the thread `thread_id` and awaits
/// the answer of the assistant `assistant_id`: the text is submitted first.
pub fn submit_and_await(thread_id: String, text: String, assistant_id: String) -> (start: (
    Relay,
    Action,
))
    ensures
        (start.0@, start.1@) == relay_start(thread_id@, text@, assistant_id@),
{
    let target = thread_id.clone();
    (Relay::Submitting { thread_id, assistant_id }, Action::SubmitMessage { thread_id: target, text })
}

impl Relay {
    fn wait_or_give_up(thread_id: String, run_id: String, polls_left: u8) -> (out: (
        Relay,
        Option<Action>,
    ))
        ensures
            (out.0@, out.1.deep_view()) == wait_or_give_up(thread_id@, run_id@, polls_left),
    {
        if polls_left == 0 {
            (Relay::Replied { text: timeout_message() }, None)
        } else {
            (
                Relay::Waiting { thread_id, run_id, polls_left },
                Some(Action::Wait { seconds: POLL_INTERVAL_SECS }),
            )
        }
    }

    /// Resumes the flow with the event that answers its pending action.
    pub fn step(self, event: Event) -> (out: (Relay, Option<Action>))
        ensures
            (out.0@, out.1.deep_view()) == self@.next(event@),
    {
        match self {
            Relay::Submitting { thread_id, assistant_id } => match event {
                Event::Done => {
                    let target = thread_id.clone();
                    (
                        Relay::Starting { thread_id },
                        Some(Action::StartRun { thread_id: target, assistant_id }),
                    )
                },
                _ => (Relay::Aborted, None),
            },
            Relay::Starting { thread_id } => match event {
                Event::RunStarted { run_id } => Relay::wait_or_give_up(thread_id, run_id, MAX_POLLS),
                _ => (Relay::Aborted, None),
            },
            Relay::Waiting { thread_id, run_id, polls_left } => {
                if polls_left == 0 {
                    (Relay::Replied { text: timeout_message() }, None)
                } else {
                    let target = thread_id.clone();
                    let run = run_id.clone();
                    (
                        Relay::Checking { thread_id, run_id, polls_left: polls_left - 1 },
                        Some(Action::RetrieveRun { thread_id: target, run_id: run }),
                    )
                }
            },
            Relay::Checking { thread_id, run_id, polls_left } => match event {
                Event::Status(status) => {
                    if status.is_pending() {
                        Relay::wait_or_give_up(thread_id, run_id, polls_left)
                    } else {
                        match status.failure_message() {
                            Some(text) => (Relay::Replied { text }, None),
                            None => (
                                Relay::Reading,
                                Some(Action::ListMessages { thread_id, limit: REPLY_LIMIT }),
                            ),
                        }
                    }
                },
                _ => (Relay::Aborted, None),
            },
            Relay::Reading => match event {
                Event::Messages(messages) => {
                    let mut messages = messages;
                    match messages.pop() {
                        Some(newest) => (
                            Relay::Replied { text: extract_text(&newest.content) },
                            None,
                        ),
                        None => (Relay::Aborted, None),
                    }
                },
                _ => (Relay::Aborted, None),
            },
            Relay::Replied { text } => (Relay::Replied { text }, None),
            Relay::Aborted => (Relay::Aborted, None),
        }
    }
}

} // verus!
