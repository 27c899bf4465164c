//! The vocabulary shared by every flow and its driver: the [`Action`]s a flow
//! asks for, and the [`Event`]s that answer them.
//!
//! A flow never touches the chat platform, the assistant provider or the
//! conversation store. It returns an action; the driver performs it and hands
//! back one event, upon which the flow decides what comes next.

use vstd::prelude::*;

use crate::content::{SegmentView, ThreadMessage};
use crate::status::RunStatus;

verus! {

/// What the conversation store holds under a key: a string, or a value of
/// some other shape, which no flow can use.
#[derive(Clone, Debug, PartialEq, Eq)]
pub enum StoredValue {
    Text(String),
    Other,
}

/// The mathematical value of a [`StoredValue`].
pub enum StoredView {
    Text(Seq<char>),
    Other,
}

impl View for StoredValue {
    type V = StoredView;

    open spec fn view(&self) -> StoredView {
        match self {
            StoredValue::Text(text) => StoredView::Text(text@),
            StoredValue::Other => StoredView::Other,
        }
    }
}

impl DeepView for StoredValue {
    type V = StoredView;

    open spec fn deep_view(&self) -> StoredView {
        self@
    }
}

/// A request to the outside world.
#[derive(Clone, Debug, PartialEq, Eq)]
pub enum Action {
    /// Look up `key` in the conversation store.
    StoreGet { key: String },
    /// Store the string `value` under `key`, replacing what was there.
    StoreSet { key: String, value: String },
    /// Remove `key` from the conversation store.
    StoreDelete { key: String },
    /// Create a new conversation thread at the provider.
    CreateThread,
    /// Delete a conversation thread at the provider.
    DeleteThread { thread_id: String },
    /// Add `text` as a user message to a thread.
    SubmitMessage { thread_id: String, text: String },
    /// Start a run of the assistant on a thread.
    StartRun { thread_id: String, assistant_id: String },
    /// Let `seconds` seconds pass.
    Wait { seconds: u64 },
    /// Fetch the current status of a run.
    RetrieveRun { thread_id: String, run_id: String },
    /// Fetch the `limit` most recent messages of a thread.
    ListMessages { thread_id: String, limit: u64 },
    /// Post `content` to a chat channel.
    SendMessage { channel_id: String, content: String },
    /// Register a global slash command with the chat platform.
    RegisterCommand { application_id: u64, name: String, description: String },
    /// Start listening for plain messages.
    ListenToMessages,
    /// Start listening for slash commands.
    ListenToCommands,
}

/// The mathematical value of an [`Action`].
pub enum ActionView {
    StoreGet { key: Seq<char> },
    StoreSet { key: Seq<char>, value: Seq<char> },
    StoreDelete { key: Seq<char> },
    CreateThread,
    DeleteThread { thread_id: Seq<char> },
    SubmitMessage { thread_id: Seq<char>, text: Seq<char> },
    StartRun { thread_id: Seq<char>, assistant_id: Seq<char> },
    Wait { seconds: u64 },
    RetrieveRun { thread_id: Seq<char>, run_id: Seq<char> },
    ListMessages { thread_id: Seq<char>, limit: u64 },
    SendMessage { channel_id: Seq<char>, content: Seq<char> },
    RegisterCommand { application_id: u64, name: Seq<char>, description: Seq<char> },
    ListenToMessages,
    ListenToCommands,
}

impl View for Action {
    type V = ActionView;

    open spec fn view(&self) -> ActionView {
        match self {
            Action::StoreGet { key } => ActionView::StoreGet { key: key@ },
            Action::StoreSet { key, value } => ActionView::StoreSet { key: key@, value: value@ },
            Action::StoreDelete { key } => ActionView::StoreDelete { key: key@ },
            Action::CreateThread => ActionView::CreateThread,
            Action::DeleteThread { thread_id } => ActionView::DeleteThread {
                thread_id: thread_id@,
            },
            Action::SubmitMessage { thread_id, text } => ActionView::SubmitMessage {
                thread_id: thread_id@,
                text: text@,
            },
            Action::StartRun { thread_id, assistant_id } => ActionView::StartRun {
                thread_id: thread_id@,
                assistant_id: assistant_id@,
            },
            Action::Wait { seconds } => ActionView::Wait { seconds: *seconds },
            Action::RetrieveRun { thread_id, run_id } => ActionView::RetrieveRun {
                thread_id: thread_id@,
                run_id: run_id@,
            },
            Action::ListMessages { thread_id, limit } => ActionView::ListMessages {
                thread_id: thread_id@,
                limit: *limit,
            },
            Action::SendMessage { channel_id, content } => ActionView::SendMessage {
                channel_id: channel_id@,
                content: content@,
            },
            Action::RegisterCommand { application_id, name, description } => {
                ActionView::RegisterCommand {
                    application_id: *application_id,
                    name: name@,
                    description: description@,
                }
            },
            Action::ListenToMessages => ActionView::ListenToMessages,
            Action::ListenToCommands => ActionView::ListenToCommands,
        }
    }
}

impl DeepView for Action {
    type V = ActionView;

    open spec fn deep_view(&self) -> ActionView {
        self@
    }
}

impl ActionView {
    /// The action is a call to the assistant provider.
    pub open spec fn calls_provider(self) -> bool {
        self is CreateThread || self is DeleteThread || self is SubmitMessage || self is StartRun
            || self is RetrieveRun || self is ListMessages
    }
}

/// The outcome of an [`Action`], as the driver reports it.
#[derive(Clone, Debug, PartialEq, Eq)]
pub enum Event {
    /// The store's answer to a lookup. A lookup that failed is reported as
    /// `None`, like a key that is absent.
    Stored(Option<StoredValue>),
    /// The provider created a thread with this identifier.
    ThreadCreated { thread_id: String },
    /// The provider started a run with this identifier.
    RunStarted { run_id: String },
    /// The current status of the run asked about.
    Status(RunStatus),
    /// The messages of the thread asked about.
    Messages(Vec<ThreadMessage>),
    /// The action was carried out and has nothing to report.
    Done,
    /// The action failed.
    Failed,
}

/// The mathematical value of an [`Event`].
pub enum EventView {
    Stored(Option<StoredView>),
    ThreadCreated { thread_id: Seq<char> },
    RunStarted { run_id: Seq<char> },
    Status(RunStatus),
    Messages(Seq<Seq<SegmentView>>),
    Done,
    Failed,
}

impl View for Event {
    type V = EventView;

    open spec fn view(&self) -> EventView {
        match self {
            Event::Stored(found) => EventView::Stored(found.deep_view()),
            Event::ThreadCreated { thread_id } => EventView::ThreadCreated {
                thread_id: thread_id@,
            },
            Event::RunStarted { run_id } => EventView::RunStarted { run_id: run_id@ },
            Event::Status(status) => EventView::Status(*status),
            Event::Messages(messages) => EventView::Messages(messages.deep_view()),
            Event::Done => EventView::Done,
            Event::Failed => EventView::Failed,
        }
    }
}

} // verus!
