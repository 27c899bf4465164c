//! The event dispatcher: what the bot does with a message or a slash command
//! that the chat platform delivers, and what it sets up when it is deployed.

use vstd::prelude::*;
use vstd::string::*;

use crate::config::{Config, ConfigView};
use crate::effect::{Action, ActionView, Event, EventView};
use crate::lifecycle::{
    reset, reset_start, resolve_or_create_thread, resolve_start, Reset, ResetView, Resolve,
    ResolveView,
};
use crate::machine::Machine;
use crate::relay::{relay_start, submit_and_await, Relay, RelayView};

verus! {

/// A plain message, as the chat platform delivers it.
#[derive(Clone, Debug, PartialEq, Eq)]
pub struct InboundMessage {
    /// The message was written by a bot, possibly this one.
    pub author_is_bot: bool,
    /// The channel the message was posted in.
    pub channel_id: String,
    /// The text of the message.
    pub content: String,
}

/// The mathematical value of an [`InboundMessage`].
pub struct InboundMessageView {
    pub author_is_bot: bool,
    pub channel_id: Seq<char>,
    pub content: Seq<char>,
}

impl View for InboundMessage {
    type V = InboundMessageView;

    open spec fn view(&self) -> InboundMessageView {
        InboundMessageView {
            author_is_bot: self.author_is_bot,
            channel_id: self.channel_id@,
            content: self.content@,
        }
    }
}

/// A slash command, as the chat platform delivers it.
#[derive(Clone, Debug, PartialEq, Eq)]
pub struct Command {
    /// The name of the command, without the slash.
    pub name: String,
    /// The channel the command was given in.
    pub channel_id: String,
}

/// The mathematical value of a [`Command`].
pub struct CommandView {
    pub name: Seq<char>,
    pub channel_id: Seq<char>,
}

impl View for Command {
    type V = CommandView;

    open spec fn view(&self) -> CommandView {
        CommandView { name: self.name@, channel_id: self.channel_id@ }
    }
}

/// The name of the one command the bot understands.
pub open spec fn restart_name() -> Seq<char> {
    "restart"@
}

/// The description under which that command is registered.
pub open spec fn restart_description() -> Seq<char> {
    "Delete generated messages"@
}

/// One invocation of the bot, from start to end: its deployment, or the
/// handling of one delivery from the chat platform.
#[derive(Clone, Debug, PartialEq, Eq)]
pub enum Task {
    /// The restart command was handed over for registration.
    Registering,
    /// The platform was asked to deliver plain messages.
    ListeningToMessages,
    /// The platform was asked to deliver slash commands.
    ListeningToCommands,
    /// The thread of the message's channel is being found or created.
    Resolving { resolve: Resolve, channel_id: String, text: String, assistant_id: String },
    /// The message is being relayed to the thread.
    Relaying { relay: Relay, channel_id: String },
    /// The reply was handed over for posting to the channel.
    Sending,
    /// The thread of the command's channel is being forgotten.
    Resetting { reset: Reset },
    /// The delivery has been dealt with.
    Finished,
    /// The handling was given up; nothing is sent.
    Aborted,
}

/// The mathematical value of a [`Task`].
pub enum TaskView {
    Registering,
    ListeningToMessages,
    ListeningToCommands,
    Resolving {
        resolve: ResolveView,
        channel_id: Seq<char>,
        text: Seq<char>,
        assistant_id: Seq<char>,
    },
    Relaying { relay: RelayView, channel_id: Seq<char> },
    Sending,
    Resetting { reset: ResetView },
    Finished,
    Aborted,
}

impl View for Task {
    type V = TaskView;

    open spec fn view(&self) -> TaskView {
        match self {
            Task::Registering => TaskView::Registering,
            Task::ListeningToMessages => TaskView::ListeningToMessages,
            Task::ListeningToCommands => TaskView::ListeningToCommands,
            Task::Resolving { resolve, channel_id, text, assistant_id } => TaskView::Resolving {
                resolve: resolve@,
                channel_id: channel_id@,
                text: text@,
                assistant_id: assistant_id@,
            },
            Task::Relaying { relay, channel_id } => TaskView::Relaying {
                relay: relay@,
                channel_id: channel_id@,
            },
            Task::Sending => TaskView::Sending,
            Task::Resetting { reset } => TaskView::Resetting { reset: reset@ },
            Task::Finished => TaskView::Finished,
            Task::Aborted => TaskView::Aborted,
        }
    }
}

impl Machine for TaskView {
    /// A deployment registers the restart command and then asks for
    /// messages and for commands to be delivered; whether the registration
    /// or a subscription succeeds is of no concern. A message is handled by
    /// finding its channel's thread, relaying the text to it, and posting the
    /// reply to the channel; whether the post succeeds is of no concern
    /// either. A restart is handled by the reset flow. When one of these
    /// flows ends without a result, so does the task.
    open spec fn next(self, event: EventView) -> (TaskView, Option<ActionView>) {
        match self {
            TaskView::Registering => (
                TaskView::ListeningToMessages,
                Some(ActionView::ListenToMessages),
            ),
            TaskView::ListeningToMessages => (
                TaskView::ListeningToCommands,
                Some(ActionView::ListenToCommands),
            ),
            TaskView::ListeningToCommands => (TaskView::Finished, None),
            TaskView::Resolving { resolve, channel_id, text, assistant_id } => {
                let (resolve, action) = resolve.next(event);
                match resolve {
                    ResolveView::Resolved { thread_id } => {
                        let (relay, first) = relay_start(thread_id, text, assistant_id);
                        (TaskView::Relaying { relay, channel_id }, Some(first))
                    },
                    ResolveView::Aborted => (TaskView::Aborted, None),
                    _ => (TaskView::Resolving { resolve, channel_id, text, assistant_id }, action),
                }
            },
            TaskView::Relaying { relay, channel_id } => {
                let (relay, action) = relay.next(event);
                match relay {
                    RelayView::Replied { text } => (
                        TaskView::Sending,
                        Some(ActionView::SendMessage { channel_id, content: text }),
                    ),
                    RelayView::Aborted => (TaskView::Aborted, None),
                    _ => (TaskView::Relaying { relay, channel_id }, action),
                }
            },
            TaskView::Sending => (TaskView::Finished, None),
            TaskView::Resetting { reset } => {
                let (reset, action) = reset.next(event);
                match reset {
                    ResetView::Finished => (TaskView::Finished, None),
                    ResetView::Aborted => (TaskView::Aborted, None),
                    _ => (TaskView::Resetting { reset }, action),
                }
            },
            TaskView::Finished | TaskView::Aborted => (self, None),
        }
    }

    open spec fn ended(self) -> bool {
        self is Finished || self is Aborted
    }

    proof fn lemma_ended_is_final(self, event: EventView) {
    }
}

/// How a deployment starts: the restart command is registered under the
/// configured application.
pub open spec fn deploy_start(config: ConfigView) -> (TaskView, ActionView) {
    (
        TaskView::Registering,
        ActionView::RegisterCommand {
            application_id: config.application_id,
            name: restart_name(),
            description: restart_description(),
        },
    )
}

/// How the handling of a message starts: a message from a bot is ignored;
/// any other starts the search for its channel's thread.
pub open spec fn message_start(message: InboundMessageView, assistant_id: Seq<char>) -> (
    TaskView,
    Option<ActionView>,
) {
    if message.author_is_bot {
        (TaskView::Finished, None)
    } else {
        let (resolve, first) = resolve_start(message.channel_id);
        (
            TaskView::Resolving {
                resolve,
                channel_id: message.channel_id,
                text: message.content,
                assistant_id,
            },
            Some(first),
        )
    }
}

/// How the handling of a slash command starts: a restart starts the reset of
/// its channel; any other command is ignored. A restart is not confirmed to
/// the one who gave it: the task ends in silence once the mapping is gone.
pub open spec fn command_start(command: CommandView) -> (TaskView, Option<ActionView>) {
    if command.name == restart_name() {
        let (reset, first) = reset_start(command.channel_id);
        (TaskView::Resetting { reset }, Some(first))
    } else {
        (TaskView::Finished, None)
    }
}

/// Starts the deployment of the bot.
pub fn on_deploy(config: &Config) -> (start: (Task, Action))
    ensures
        (start.0@, start.1@) == deploy_start(config@),
{
    (
        Task::Registering,
        Action::RegisterCommand {
            application_id: config.application_id,
            name: String::from_str("restart"),
            description: String::from_str("Delete generated messages"),
        },
    )
}

/// Starts the handling of a plain message, to be answered by the configured
/// assistant.
pub fn on_message(message: InboundMessage, config: &Config) -> (start: (Task, Option<Action>))
    ensures
        (start.0@, start.1.deep_view()) == message_start(message@, config@.assistant_id),
{
    if message.author_is_bot {
        (Task::Finished, None)
    } else {
        let channel_id = message.channel_id.clone();
        let assistant_id = config.assistant_id.clone();
        let (resolve, first) = resolve_or_create_thread(message.channel_id);
        (Task::Resolving { resolve, channel_id, text: message.content, assistant_id }, Some(first))
    }
}

/// Starts the handling of a slash command.
pub fn on_command(command: Command) -> (start: (Task, Option<Action>))
    ensures
        (start.0@, start.1.deep_view()) == command_start(command@),
{
    let restart = String::from_str("restart");
    if command.name == restart {
        let (reset, first) = reset(command.channel_id);
        (Task::Resetting { reset }, Some(first))
    } else {
        (Task::Finished, None)
    }
}

impl Task {
    /// Resumes the task with the event that answers its pending action.
    pub fn step(self, event: Event) -> (out: (Task, Option<Action>))
        ensures
            (out.0@, out.1.deep_view()) == self@.next(event@),
    {
        match self {
            Task::Registering => (Task::ListeningToMessages, Some(Action::ListenToMessages)),
            Task::ListeningToMessages => (
                Task::ListeningToCommands,
                Some(Action::ListenToCommands),
            ),
            Task::ListeningToCommands => (Task::Finished, None),
            Task::Resolving { resolve, channel_id, text, assistant_id } => {
                let (resolve, action) = resolve.step(event);
                match resolve {
                    Resolve::Resolved { thread_id } => {
                        let (relay, first) = submit_and_await(thread_id, text, assistant_id);
                        (Task::Relaying { relay, channel_id }, Some(first))
                    },
                    Resolve::Aborted => (Task::Aborted, None),
                    resolve => (Task::Resolving { resolve, channel_id, text, assistant_id }, action),
                }
            },
            Task::Relaying { relay, channel_id } => {
                let (relay, action) = relay.step(event);
                match relay {
                    Relay::Replied { text } => (
                        Task::Sending,
                        Some(Action::SendMessage { channel_id, content: text }),
                    ),
                    Relay::Aborted => (Task::Aborted, None),
                    relay => (Task::Relaying { relay, channel_id }, action),
                }
            },
            Task::Sending => (Task::Finished, None),
            Task::Resetting { reset } => {
                let (reset, action) = reset.step(event);
                match reset {
                    Reset::Finished => (Task::Finished, None),
                    Reset::Aborted => (Task::Aborted, None),
                    reset => (Task::Resetting { reset }, action),
                }
            },
            Task::Finished => (Task::Finished, None),
            Task::Aborted => (Task::Aborted, None),
        }
    }
}

} // verus!
