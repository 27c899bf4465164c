//! What holds of every task: how it is composed of the flows it carries,
//! what it costs at most, and that it keeps to the channel it works for.

use vstd::prelude::*;

use crate::config::ConfigView;
use crate::dispatch::{
    command_start, deploy_start, message_start, restart_description, restart_name, CommandView,
    InboundMessageView, TaskView,
};
use crate::effect::{ActionView, EventView};
use crate::laws::relay::{fetches, lemma_relay_stays_within_budget, waited};
use crate::lifecycle::{reset_start, resolve_start, ResetView, ResolveView};
use crate::machine::{
    asked, lemma_not_ended_before, lemma_run_after_end, lemma_run_concat, lemma_run_one,
    lemma_run_push, run, trace, Machine,
};
use crate::relay::{relay_start, RelayView, MAX_POLLS, POLL_INTERVAL_SECS};
use crate::store::{
    all_concern_only, apply_all, concerns_only, lemma_other_channels_keep_their_mapping, lookup,
    Store,
};

verus! {

/// The task that carries a reset flow in state `reset`: it ends when the
/// flow does, and in the same way.
pub open spec fn resetting(reset: ResetView) -> TaskView {
    match reset {
        ResetView::Finished => TaskView::Finished,
        ResetView::Aborted => TaskView::Aborted,
        _ => TaskView::Resetting { reset },
    }
}

/// A task that carries a reset flow does what the flow does.
proof fn lemma_resetting_follows_reset(reset: ResetView, events: Seq<EventView>)
    requires
        !reset.ended(),
    ensures
        run(TaskView::Resetting { reset }, events) == (
            resetting(run(reset, events).0),
            run(reset, events).1,
        ),
    decreases events.len(),
{
    if events.len() > 0 {
        let after = reset.next(events.first()).0;
        if after.ended() {
            lemma_run_after_end(after, events.drop_first());
            lemma_run_after_end(resetting(after), events.drop_first());
        } else {
            lemma_resetting_follows_reset(after, events.drop_first());
        }
    }
}

/// While the search for a thread goes on, the task does what the search
/// does.
proof fn lemma_resolving_follows_resolve(
    resolve: ResolveView,
    channel_id: Seq<char>,
    text: Seq<char>,
    assistant_id: Seq<char>,
    events: Seq<EventView>,
)
    requires
        !run(resolve, events).0.ended(),
    ensures
        run(TaskView::Resolving { resolve, channel_id, text, assistant_id }, events) == (
            TaskView::Resolving { resolve: run(resolve, events).0, channel_id, text, assistant_id },
            run(resolve, events).1,
        ),
    decreases events.len(),
{
    if events.len() > 0 {
        let after = resolve.next(events.first()).0;
        lemma_not_ended_before(after, events.drop_first());
        lemma_resolving_follows_resolve(
            after,
            channel_id,
            text,
            assistant_id,
            events.drop_first(),
        );
    }
}

/// While the relay goes on, the task does what the relay does.
proof fn lemma_relaying_follows_relay(
    relay: RelayView,
    channel_id: Seq<char>,
    events: Seq<EventView>,
)
    requires
        !run(relay, events).0.ended(),
    ensures
        run(TaskView::Relaying { relay, channel_id }, events) == (
            TaskView::Relaying { relay: run(relay, events).0, channel_id },
            run(relay, events).1,
        ),
    decreases events.len(),
{
    if events.len() > 0 {
        let after = relay.next(events.first()).0;
        lemma_not_ended_before(after, events.drop_first());
        lemma_relaying_follows_relay(after, channel_id, events.drop_first());
    }
}

/// A restart is a reset. The task of a restart command asks for what the
/// reset of the command's channel asks for, and ends as that reset ends.
pub proof fn law_restart_is_a_reset(command: CommandView, events: Seq<EventView>)
    requires
        command.name == restart_name(),
    ensures
        command_start(command).1 == Some(reset_start(command.channel_id).1),
        run(command_start(command).0, events) == (
            resetting(run(reset_start(command.channel_id).0, events).0),
            run(reset_start(command.channel_id).0, events).1,
        ),
{
    lemma_resetting_follows_reset(reset_start(command.channel_id).0, events);
}

/// The way of a message. When the search for the channel's thread ends with
/// a thread on the last of the events `resolving`, and the relay of the
/// message to that thread ends with a reply on the last of the events
/// `relaying`, then the task asks for what the search asked for, then for
/// what the relay asked for, and at last for the reply to be posted to the
/// channel the message came from. It is finished once the post was
/// attempted.
pub proof fn law_message_is_resolved_relayed_and_answered(
    message: InboundMessageView,
    assistant_id: Seq<char>,
    resolving: Seq<EventView>,
    thread_id: Seq<char>,
    relaying: Seq<EventView>,
    reply: Seq<char>,
    rest: Seq<EventView>,
)
    requires
        !message.author_is_bot,
        resolving.len() > 0,
        !run(resolve_start(message.channel_id).0, resolving.drop_last()).0.ended(),
        run(resolve_start(message.channel_id).0, resolving).0 == (ResolveView::Resolved {
            thread_id,
        }),
        relaying.len() > 0,
        !run(
            relay_start(thread_id, message.content, assistant_id).0,
            relaying.drop_last(),
        ).0.ended(),
        run(relay_start(thread_id, message.content, assistant_id).0, relaying).0
            == (RelayView::Replied { text: reply }),
        rest.len() > 0,
    ensures
        ({
            let start = message_start(message, assistant_id);
            let (end, actions) = run(start.0, resolving + relaying + rest);
            &&& end == TaskView::Finished
            &&& asked(start.1) + actions == trace(resolve_start(message.channel_id), resolving).1
                + trace(relay_start(thread_id, message.content, assistant_id), relaying).1 + seq![
                ActionView::SendMessage { channel_id: message.channel_id, content: reply },
            ]
        }),
{
    let channel_id = message.channel_id;
    let text = message.content;
    let task = message_start(message, assistant_id).0;
    let resolve = resolve_start(channel_id).0;
    let relay = relay_start(thread_id, text, assistant_id).0;
    let submit = relay_start(thread_id, text, assistant_id).1;
    let send = ActionView::SendMessage { channel_id, content: reply };

    // The search, up to the event that ends it.
    let found = run(resolve, resolving.drop_last());
    assert(resolving == resolving.drop_last().push(resolving.last()));
    lemma_run_push(resolve, resolving.drop_last(), resolving.last());
    lemma_resolving_follows_resolve(
        resolve,
        channel_id,
        text,
        assistant_id,
        resolving.drop_last(),
    );
    lemma_run_push(task, resolving.drop_last(), resolving.last());
    assert(run(task, resolving) == (
        TaskView::Relaying { relay, channel_id },
        found.1 + seq![submit],
    ));
    assert(run(resolve, resolving).1 == found.1 + Seq::<ActionView>::empty());

    // The relay, up to the event that ends it.
    let relayed = run(relay, relaying.drop_last());
    let relaying_task = TaskView::Relaying { relay, channel_id };
    assert(relaying == relaying.drop_last().push(relaying.last()));
    lemma_run_push(relay, relaying.drop_last(), relaying.last());
    lemma_relaying_follows_relay(relay, channel_id, relaying.drop_last());
    lemma_run_push(relaying_task, relaying.drop_last(), relaying.last());
    assert(run(relaying_task, relaying) == (TaskView::Sending, relayed.1 + seq![send]));
    assert(run(relay, relaying).1 == relayed.1 + Seq::<ActionView>::empty());

    // The post, and whatever follows.
    assert(rest == seq![rest.first()] + rest.drop_first());
    lemma_run_one(TaskView::Sending, rest.first());
    lemma_run_after_end(TaskView::Finished, rest.drop_first());
    lemma_run_concat(TaskView::Sending, seq![rest.first()], rest.drop_first());
    assert(run(TaskView::Sending, rest) == (TaskView::Finished, Seq::<ActionView>::empty()));

    lemma_run_concat(task, resolving, relaying);
    lemma_run_concat(task, resolving + relaying, rest);
    let actions = run(task, resolving + relaying + rest).1;
    assert(actions == ((found.1 + seq![submit]) + (relayed.1 + seq![send])) + Seq::<
        ActionView,
    >::empty());
    let get = resolve_start(channel_id).1;
    assert(seq![get] + (((found.1 + seq![submit]) + (relayed.1 + seq![send])) + Seq::<
        ActionView,
    >::empty()) == ((seq![get] + (found.1 + Seq::<ActionView>::empty())) + (seq![submit] + (
        relayed.1 + Seq::<ActionView>::empty()))) + seq![send]);
}

/// No thread, no relay. When the search for the channel's thread is given
/// up, so is the task: it has asked for what the search asked for and for
/// nothing else, and nothing is relayed or posted.
pub proof fn law_failed_resolution_ends_the_task(
    message: InboundMessageView,
    assistant_id: Seq<char>,
    resolving: Seq<EventView>,
    rest: Seq<EventView>,
)
    requires
        !message.author_is_bot,
        resolving.len() > 0,
        !run(resolve_start(message.channel_id).0, resolving.drop_last()).0.ended(),
        run(resolve_start(message.channel_id).0, resolving).0 == ResolveView::Aborted,
    ensures
        ({
            let start = message_start(message, assistant_id);
            let (end, actions) = run(start.0, resolving + rest);
            &&& end == TaskView::Aborted
            &&& asked(start.1) + actions == trace(resolve_start(message.channel_id), resolving).1
        }),
{
    let task = message_start(message, assistant_id).0;
    let resolve = resolve_start(message.channel_id).0;
    assert(resolving == resolving.drop_last().push(resolving.last()));
    lemma_run_push(resolve, resolving.drop_last(), resolving.last());
    lemma_resolving_follows_resolve(
        resolve,
        message.channel_id,
        message.content,
        assistant_id,
        resolving.drop_last(),
    );
    lemma_run_push(task, resolving.drop_last(), resolving.last());
    lemma_run_concat(task, resolving, rest);
    lemma_run_after_end(TaskView::Aborted, rest);
    assert(run(task, resolving).1 + Seq::<ActionView>::empty() == run(task, resolving).1);
}

/// No reply, no post. When the relay is given up, so is the task: it has
/// asked for what the search and the relay asked for and for nothing else,
/// and nothing is posted.
pub proof fn law_failed_relay_ends_the_task(
    message: InboundMessageView,
    assistant_id: Seq<char>,
    resolving: Seq<EventView>,
    thread_id: Seq<char>,
    relaying: Seq<EventView>,
    rest: Seq<EventView>,
)
    requires
        !message.author_is_bot,
        resolving.len() > 0,
        !run(resolve_start(message.channel_id).0, resolving.drop_last()).0.ended(),
        run(resolve_start(message.channel_id).0, resolving).0 == (ResolveView::Resolved {
            thread_id,
        }),
        relaying.len() > 0,
        !run(
            relay_start(thread_id, message.content, assistant_id).0,
            relaying.drop_last(),
        ).0.ended(),
        run(relay_start(thread_id, message.content, assistant_id).0, relaying).0
            == RelayView::Aborted,
    ensures
        ({
            let start = message_start(message, assistant_id);
            let (end, actions) = run(start.0, resolving + relaying + rest);
            &&& end == TaskView::Aborted
            &&& asked(start.1) + actions == trace(resolve_start(message.channel_id), resolving).1
                + trace(relay_start(thread_id, message.content, assistant_id), relaying).1
        }),
{
    let channel_id = message.channel_id;
    let text = message.content;
    let task = message_start(message, assistant_id).0;
    let resolve = resolve_start(channel_id).0;
    let relay = relay_start(thread_id, text, assistant_id).0;
    let submit = relay_start(thread_id, text, assistant_id).1;

    let found = run(resolve, resolving.drop_last());
    assert(resolving == resolving.drop_last().push(resolving.last()));
    lemma_run_push(resolve, resolving.drop_last(), resolving.last());
    lemma_resolving_follows_resolve(
        resolve,
        channel_id,
        text,
        assistant_id,
        resolving.drop_last(),
    );
    lemma_run_push(task, resolving.drop_last(), resolving.last());
    assert(run(task, resolving) == (
        TaskView::Relaying { relay, channel_id },
        found.1 + seq![submit],
    ));
    assert(run(resolve, resolving).1 == found.1 + Seq::<ActionView>::empty());

    let relayed = run(relay, relaying.drop_last());
    let relaying_task = TaskView::Relaying { relay, channel_id };
    assert(relaying == relaying.drop_last().push(relaying.last()));
    lemma_run_push(relay, relaying.drop_last(), relaying.last());
    lemma_relaying_follows_relay(relay, channel_id, relaying.drop_last());
    lemma_run_push(relaying_task, relaying.drop_last(), relaying.last());
    assert(run(relaying_task, relaying) == (
        TaskView::Aborted,
        relayed.1 + Seq::<ActionView>::empty(),
    ));
    assert(run(relay, relaying).1 == relayed.1 + Seq::<ActionView>::empty());

    lemma_run_after_end(TaskView::Aborted, rest);
    lemma_run_concat(task, resolving, relaying);
    lemma_run_concat(task, resolving + relaying, rest);
    let get = resolve_start(channel_id).1;
    assert(seq![get] + (((found.1 + seq![submit]) + (relayed.1 + Seq::<ActionView>::empty()))
        + Seq::<ActionView>::empty()) == (seq![get] + (found.1 + Seq::<ActionView>::empty()))
        + (seq![submit] + (relayed.1 + Seq::<ActionView>::empty())));
}

impl TaskView {
    /// How many fetches of a run's status the task may still ask for.
    pub open spec fn fetches_left(self) -> nat {
        match self {
            TaskView::Resolving { .. } => MAX_POLLS as nat,
            TaskView::Relaying { relay, .. } => relay.fetches_left(),
            _ => 0,
        }
    }

    /// How many waits the task may still ask for.
    pub open spec fn waits_left(self) -> nat {
        match self {
            TaskView::Resolving { .. } => MAX_POLLS as nat,
            TaskView::Relaying { relay, .. } => relay.waits_left(),
            _ => 0,
        }
    }
}

/// Whatever a task is told, it never fetches or waits more often than its
/// state leaves room for.
pub proof fn lemma_task_stays_within_budget(state: TaskView, events: Seq<EventView>)
    ensures
        fetches(run(state, events).1) <= state.fetches_left(),
        waited(run(state, events).1) <= POLL_INTERVAL_SECS * state.waits_left(),
    decreases events.len(),
{
    if events.len() > 0 {
        let (after, action) = state.next(events.first());
        let later = run(after, events.drop_first()).1;
        lemma_task_stays_within_budget(after, events.drop_first());
        if let TaskView::Relaying { relay, .. } = state {
            lemma_relay_stays_within_budget(relay, seq![events.first()]);
            lemma_run_one(relay, events.first());
            let step = asked(relay.next(events.first()).1);
            assert(step.len() > 0 ==> step.drop_first().len() == 0);
        }
        if let Some(action) = action {
            assert((asked(Some(action)) + later).drop_first() == later);
        } else {
            assert(asked(None) + later == later);
        }
    }
}

/// The cost of a message is bounded. Whatever the store and the provider
/// answer, the handling of a message fetches the status of a run at most
/// `MAX_POLLS` times and waits at most `MAX_POLLS` poll intervals in all.
pub proof fn law_message_cost_is_bounded(
    message: InboundMessageView,
    assistant_id: Seq<char>,
    events: Seq<EventView>,
)
    ensures
        ({
            let start = message_start(message, assistant_id);
            let history = asked(start.1) + run(start.0, events).1;
            &&& fetches(history) <= MAX_POLLS
            &&& waited(history) <= MAX_POLLS * POLL_INTERVAL_SECS
        }),
{
    let start = message_start(message, assistant_id);
    let later = run(start.0, events).1;
    lemma_task_stays_within_budget(start.0, events);
    if start.1 is Some {
        assert((asked(start.1) + later).drop_first() == later);
    } else {
        assert(asked(start.1) + later == later);
    }
}

impl TaskView {
    /// Whether the task works for the channel `channel_id`: the searches and
    /// resets it carries are that channel's, and so is the channel it
    /// answers to.
    pub open spec fn works_for(self, channel_id: Seq<char>) -> bool {
        match self {
            TaskView::Resolving { resolve, channel_id: origin, .. } => {
                &&& origin == channel_id
                &&& resolve matches ResolveView::Looking { channel_id: sought } ==> sought
                    == channel_id
                &&& resolve matches ResolveView::Creating { channel_id: sought } ==> sought
                    == channel_id
            },
            TaskView::Relaying { channel_id: origin, .. } => origin == channel_id,
            TaskView::Resetting { reset } => {
                &&& reset matches ResetView::Looking { channel_id: sought } ==> sought
                    == channel_id
                &&& reset matches ResetView::Deleting { channel_id: sought } ==> sought
                    == channel_id
            },
            TaskView::Registering
            | TaskView::ListeningToMessages
            | TaskView::ListeningToCommands
            | TaskView::Sending
            | TaskView::Finished
            | TaskView::Aborted => true,
        }
    }
}

/// A task that works for a channel asks for nothing that concerns another.
proof fn lemma_task_keeps_to_its_channel(
    state: TaskView,
    channel_id: Seq<char>,
    events: Seq<EventView>,
)
    requires
        state.works_for(channel_id),
    ensures
        all_concern_only(run(state, events).1, channel_id),
    decreases events.len(),
{
    if events.len() > 0 {
        let (after, action) = state.next(events.first());
        let later = run(after, events.drop_first()).1;
        lemma_task_keeps_to_its_channel(after, channel_id, events.drop_first());
        let actions = asked(action) + later;
        assert forall|i: int| 0 <= i < actions.len() implies concerns_only(
            #[trigger] actions[i],
            channel_id,
        ) by {
            if i >= asked(action).len() {
                assert(actions[i] == later[i - asked(action).len()]);
            }
        }
    }
}

/// Channels do not meet. Whatever it is told, the handling of a message
/// looks up, stores and removes no mapping but that of the message's
/// channel, and posts to no other channel: what the store answers for any
/// other channel is what it answered before.
pub proof fn law_message_touches_only_its_channel(
    message: InboundMessageView,
    assistant_id: Seq<char>,
    events: Seq<EventView>,
    store: Store,
    other: Seq<char>,
)
    requires
        other != message.channel_id,
    ensures
        ({
            let start = message_start(message, assistant_id);
            let history = asked(start.1) + run(start.0, events).1;
            &&& all_concern_only(history, message.channel_id)
            &&& lookup(apply_all(store, history), other) == lookup(store, other)
        }),
{
    let start = message_start(message, assistant_id);
    let later = run(start.0, events).1;
    let history = asked(start.1) + later;
    lemma_task_keeps_to_its_channel(start.0, message.channel_id, events);
    assert forall|i: int| 0 <= i < history.len() implies concerns_only(
        #[trigger] history[i],
        message.channel_id,
    ) by {
        if i >= asked(start.1).len() {
            assert(history[i] == later[i - asked(start.1).len()]);
        }
    }
    lemma_other_channels_keep_their_mapping(store, history, message.channel_id, other);
}

/// A restart, too, keeps to its channel: it looks up and removes no mapping
/// but that of the channel it was given in.
pub proof fn law_command_touches_only_its_channel(
    command: CommandView,
    events: Seq<EventView>,
    store: Store,
    other: Seq<char>,
)
    requires
        other != command.channel_id,
    ensures
        ({
            let start = command_start(command);
            let history = asked(start.1) + run(start.0, events).1;
            &&& all_concern_only(history, command.channel_id)
            &&& lookup(apply_all(store, history), other) == lookup(store, other)
        }),
{
    let start = command_start(command);
    let later = run(start.0, events).1;
    let history = asked(start.1) + later;
    lemma_task_keeps_to_its_channel(start.0, command.channel_id, events);
    assert forall|i: int| 0 <= i < history.len() implies concerns_only(
        #[trigger] history[i],
        command.channel_id,
    ) by {
        if i >= asked(start.1).len() {
            assert(history[i] == later[i - asked(start.1).len()]);
        }
    }
    lemma_other_channels_keep_their_mapping(store, history, command.channel_id, other);
}

/// A task that is given up has not posted: once a reply is handed over for
/// posting, the task can only finish.
proof fn lemma_no_post_before_abort(state: TaskView, events: Seq<EventView>)
    requires
        run(state, events).0 == TaskView::Aborted,
    ensures
        forall|i: int|
            0 <= i < run(state, events).1.len() ==> !(#[trigger] run(state, events).1[i]
                is SendMessage),
    decreases events.len(),
{
    if events.len() > 0 {
        let (after, action) = state.next(events.first());
        let rest = events.drop_first();
        let later = run(after, rest).1;
        if after == TaskView::Sending {
            if rest.len() > 0 {
                lemma_run_after_end(TaskView::Finished, rest.drop_first());
            }
        } else {
            lemma_no_post_before_abort(after, rest);
            let actions = asked(action) + later;
            assert forall|i: int| 0 <= i < actions.len() implies !(#[trigger] actions[i]
                is SendMessage) by {
                if i >= asked(action).len() {
                    assert(actions[i] == later[i - asked(action).len()]);
                }
            }
        }
    }
}

/// Failure is silent. Whatever it is told, the handling of a message that
/// is given up has posted nothing to any channel.
pub proof fn law_aborted_message_is_not_answered(
    message: InboundMessageView,
    assistant_id: Seq<char>,
    events: Seq<EventView>,
)
    requires
        run(message_start(message, assistant_id).0, events).0 == TaskView::Aborted,
    ensures
        ({
            let start = message_start(message, assistant_id);
            let history = asked(start.1) + run(start.0, events).1;
            forall|i: int| 0 <= i < history.len() ==> !(#[trigger] history[i] is SendMessage)
        }),
{
    let start = message_start(message, assistant_id);
    let later = run(start.0, events).1;
    let history = asked(start.1) + later;
    lemma_no_post_before_abort(start.0, events);
    assert forall|i: int| 0 <= i < history.len() implies !(#[trigger] history[i]
        is SendMessage) by {
        if i >= asked(start.1).len() {
            assert(history[i] == later[i - asked(start.1).len()]);
        }
    }
}

/// Bots are not answered. A message written by a bot ends its task at once:
/// nothing is looked up, nothing is relayed and nothing is sent, whatever
/// the task is told afterwards.
pub proof fn law_bot_messages_are_ignored(
    message: InboundMessageView,
    assistant_id: Seq<char>,
    events: Seq<EventView>,
)
    requires
        message.author_is_bot,
    ensures
        message_start(message, assistant_id) == (TaskView::Finished, None::<ActionView>),
        run(message_start(message, assistant_id).0, events) == (
            TaskView::Finished,
            Seq::<ActionView>::empty(),
        ),
{
    lemma_run_after_end(TaskView::Finished, events);
}

/// Only the restart command is acted upon. A command of any other name ends
/// its task at once, without any action.
pub proof fn law_unknown_commands_are_ignored(command: CommandView, events: Seq<EventView>)
    requires
        command.name != restart_name(),
    ensures
        command_start(command) == (TaskView::Finished, None::<ActionView>),
        run(command_start(command).0, events) == (TaskView::Finished, Seq::<ActionView>::empty()),
{
    lemma_run_after_end(TaskView::Finished, events);
}

/// Deployment. The restart command is registered, then messages and then
/// commands are subscribed to, whatever the outcome of each step.
pub proof fn law_deployment_registers_then_listens(config: ConfigView, events: Seq<EventView>)
    requires
        events.len() >= 3,
    ensures
        trace(deploy_start(config), events) == (
            TaskView::Finished,
            seq![
                ActionView::RegisterCommand {
                    application_id: config.application_id,
                    name: restart_name(),
                    description: restart_description(),
                },
                ActionView::ListenToMessages,
                ActionView::ListenToCommands,
            ],
        ),
{
    let head = events.take(3);
    let tail = events.skip(3);
    assert(events == head + tail);
    lemma_run_concat(TaskView::Registering, head, tail);
    reveal_with_fuel(run, 4);
    lemma_run_after_end(TaskView::Finished, tail);
    assert(trace(deploy_start(config), events).1 == seq![
        ActionView::RegisterCommand {
            application_id: config.application_id,
            name: restart_name(),
            description: restart_description(),
        },
        ActionView::ListenToMessages,
        ActionView::ListenToCommands,
    ]);
}

} // verus!
