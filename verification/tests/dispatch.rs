use std::collections::HashMap;

use assistant_relay::config::Config;
use assistant_relay::content::{ContentSegment, ThreadMessage};
use assistant_relay::dispatch::{on_command, on_deploy, on_message, Command, InboundMessage, Task};
use assistant_relay::effect::{Action, Event, StoredValue};
use assistant_relay::lifecycle::{Reset, Resolve};
use assistant_relay::status::RunStatus;

/// A stand-in for the world outside: a store in memory, and a provider that
/// follows a script.
struct World {
    store: HashMap<String, String>,
    threads_created: usize,
    threads_deleted: Vec<String>,
    deletion_fails: bool,
    statuses: Vec<RunStatus>,
    fetches: usize,
    answer: Vec<ContentSegment>,
    submitted: Vec<(String, String)>,
    sent: Vec<(String, String)>,
    waited: u64,
}

fn world() -> World {
    World {
        store: HashMap::new(),
        threads_created: 0,
        threads_deleted: Vec::new(),
        deletion_fails: false,
        statuses: vec![RunStatus::Completed],
        fetches: 0,
        answer: vec![ContentSegment::Text("pong".to_string())],
        submitted: Vec::new(),
        sent: Vec::new(),
        waited: 0,
    }
}

fn perform(world: &mut World, action: Action) -> Event {
    match action {
        Action::StoreGet { key } => {
            Event::Stored(world.store.get(&key).map(|v| StoredValue::Text(v.clone())))
        }
        Action::StoreSet { key, value } => {
            world.store.insert(key, value);
            Event::Done
        }
        Action::StoreDelete { key } => {
            world.store.remove(&key);
            Event::Done
        }
        Action::CreateThread => {
            world.threads_created += 1;
            Event::ThreadCreated { thread_id: format!("thread_{}", world.threads_created) }
        }
        Action::DeleteThread { thread_id } => {
            world.threads_deleted.push(thread_id);
            if world.deletion_fails {
                Event::Failed
            } else {
                Event::Done
            }
        }
        Action::SubmitMessage { thread_id, text } => {
            world.submitted.push((thread_id, text));
            Event::Done
        }
        Action::StartRun { .. } => Event::RunStarted { run_id: "run_1".to_string() },
        Action::Wait { seconds } => {
            world.waited += seconds;
            Event::Done
        }
        Action::RetrieveRun { .. } => {
            let status = world.statuses[world.fetches.min(world.statuses.len() - 1)];
            world.fetches += 1;
            Event::Status(status)
        }
        Action::ListMessages { .. } => {
            Event::Messages(vec![ThreadMessage { content: world.answer.clone() }])
        }
        Action::SendMessage { channel_id, content } => {
            world.sent.push((channel_id, content));
            Event::Done
        }
        Action::RegisterCommand { .. } | Action::ListenToMessages | Action::ListenToCommands => {
            Event::Done
        }
    }
}

fn drive(world: &mut World, start: (Task, Option<Action>)) -> Task {
    let (mut task, mut pending) = start;
    while let Some(action) = pending {
        let event = perform(world, action);
        let (next, action) = task.step(event);
        task = next;
        pending = action;
    }
    task
}

fn config() -> Config {
    Config {
        discord_token: "token".to_string(),
        assistant_id: "asst_1".to_string(),
        application_id: 42,
    }
}

fn user_message(channel_id: &str, content: &str) -> InboundMessage {
    InboundMessage {
        author_is_bot: false,
        channel_id: channel_id.to_string(),
        content: content.to_string(),
    }
}

fn restart(channel_id: &str) -> Command {
    Command { name: "restart".to_string(), channel_id: channel_id.to_string() }
}

fn feed(start: (Task, Option<Action>), events: Vec<Event>) -> (Task, Vec<Action>) {
    let (mut task, first) = start;
    let mut actions: Vec<Action> = first.into_iter().collect();
    for event in events {
        let (next, action) = task.step(event);
        task = next;
        actions.extend(action);
    }
    (task, actions)
}

#[test]
fn a_message_from_a_bot_is_ignored() {
    let message = InboundMessage {
        author_is_bot: true,
        channel_id: "chan_1".to_string(),
        content: "beep".to_string(),
    };
    assert_eq!(on_message(message, &config()), (Task::Finished, None));
}

#[test]
fn a_message_from_a_bot_never_reaches_the_relay() {
    let message = InboundMessage {
        author_is_bot: true,
        channel_id: "chan_1".to_string(),
        content: "beep".to_string(),
    };
    let mut world = world();
    let end = drive(&mut world, on_message(message, &config()));
    assert_eq!(end, Task::Finished);
    assert!(world.submitted.is_empty());
    assert!(world.sent.is_empty());
    assert_eq!(world.threads_created, 0);
}

#[test]
fn a_finished_task_ignores_what_it_is_told() {
    let message = InboundMessage {
        author_is_bot: true,
        channel_id: "chan_1".to_string(),
        content: "beep".to_string(),
    };
    let events = vec![
        Event::Stored(None),
        Event::ThreadCreated { thread_id: "thread_1".to_string() },
        Event::Done,
    ];
    let (task, actions) = feed(on_message(message, &config()), events);
    assert_eq!(task, Task::Finished);
    assert!(actions.is_empty());
}

#[test]
fn a_message_from_a_user_starts_with_a_lookup_of_its_channel() {
    let (task, action) = on_message(user_message("chan_1", "ping"), &config());
    assert_eq!(
        task,
        Task::Resolving {
            resolve: Resolve::Looking { channel_id: "chan_1".to_string() },
            channel_id: "chan_1".to_string(),
            text: "ping".to_string(),
            assistant_id: "asst_1".to_string(),
        }
    );
    assert_eq!(action, Some(Action::StoreGet { key: "chan_1".to_string() }));
}

#[test]
fn a_first_message_creates_a_thread_and_is_answered() {
    let mut world = world();
    let end = drive(&mut world, on_message(user_message("chan_1", "ping"), &config()));
    assert_eq!(end, Task::Finished);
    assert_eq!(world.threads_created, 1);
    assert_eq!(world.store.get("chan_1"), Some(&"thread_1".to_string()));
    assert_eq!(world.store.len(), 1);
    assert_eq!(world.submitted, vec![("thread_1".to_string(), "ping".to_string())]);
    assert_eq!(world.sent, vec![("chan_1".to_string(), "pong".to_string())]);
}

#[test]
fn a_second_message_reuses_the_thread() {
    let mut world = world();
    drive(&mut world, on_message(user_message("chan_1", "ping"), &config()));
    drive(&mut world, on_message(user_message("chan_1", "again"), &config()));
    assert_eq!(world.threads_created, 1);
    assert_eq!(world.store.len(), 1);
    assert_eq!(
        world.submitted,
        vec![
            ("thread_1".to_string(), "ping".to_string()),
            ("thread_1".to_string(), "again".to_string()),
        ]
    );
    assert_eq!(world.sent.len(), 2);
}

#[test]
fn each_channel_gets_its_own_thread() {
    let mut world = world();
    drive(&mut world, on_message(user_message("chan_1", "ping"), &config()));
    drive(&mut world, on_message(user_message("chan_2", "ping"), &config()));
    assert_eq!(world.threads_created, 2);
    assert_eq!(world.store.get("chan_1"), Some(&"thread_1".to_string()));
    assert_eq!(world.store.get("chan_2"), Some(&"thread_2".to_string()));
    assert_eq!(
        world.sent,
        vec![
            ("chan_1".to_string(), "pong".to_string()),
            ("chan_2".to_string(), "pong".to_string()),
        ]
    );
}

#[test]
fn two_first_contacts_at_once_leave_the_thread_stored_last() {
    let mut world = world();
    let (first, first_action) = on_message(user_message("chan_1", "one"), &config());
    let (second, second_action) = on_message(user_message("chan_1", "two"), &config());
    // Both look the channel up before either has stored a thread.
    let (mut first, mut first_action) = first.step(perform(&mut world, first_action.unwrap()));
    let (mut second, mut second_action) = second.step(perform(&mut world, second_action.unwrap()));
    // Both create a thread, and both store it: the first, then the second.
    for _ in 0..2 {
        (first, first_action) = first.step(perform(&mut world, first_action.unwrap()));
    }
    for _ in 0..2 {
        (second, second_action) = second.step(perform(&mut world, second_action.unwrap()));
    }
    assert!(matches!(first, Task::Relaying { .. }));
    assert!(matches!(second, Task::Relaying { .. }));
    assert_eq!(world.threads_created, 2);
    assert_eq!(world.store.len(), 1);
    assert_eq!(world.store.get("chan_1"), Some(&"thread_2".to_string()));
}

#[test]
fn a_slow_run_is_answered_with_timeout() {
    let mut world = world();
    world.statuses = vec![RunStatus::InProgress];
    let end = drive(&mut world, on_message(user_message("chan_1", "ping"), &config()));
    assert_eq!(end, Task::Finished);
    assert_eq!(world.fetches, 5);
    assert_eq!(world.waited, 10);
    assert_eq!(world.sent, vec![("chan_1".to_string(), "Timeout".to_string())]);
}

#[test]
fn a_failed_run_is_answered_with_its_status() {
    let mut world = world();
    world.statuses = vec![RunStatus::Queued, RunStatus::Failed];
    drive(&mut world, on_message(user_message("chan_1", "ping"), &config()));
    assert_eq!(world.fetches, 2);
    assert_eq!(world.waited, 4);
    assert_eq!(world.sent, vec![("chan_1".to_string(), "Run is failed".to_string())]);
}

#[test]
fn the_answer_is_the_text_of_the_newest_message() {
    let mut world = world();
    world.statuses = vec![RunStatus::Queued, RunStatus::InProgress, RunStatus::Completed];
    world.answer = vec![
        ContentSegment::Text("Hello, ".to_string()),
        ContentSegment::Other,
        ContentSegment::Text("world!".to_string()),
    ];
    drive(&mut world, on_message(user_message("chan_1", "ping"), &config()));
    assert_eq!(world.fetches, 3);
    assert_eq!(world.sent, vec![("chan_1".to_string(), "Hello, world!".to_string())]);
}

#[test]
fn a_thread_that_cannot_be_created_aborts_the_task() {
    let start = on_message(user_message("chan_1", "ping"), &config());
    let (task, actions) = feed(start, vec![Event::Stored(None), Event::Failed]);
    assert_eq!(task, Task::Aborted);
    assert_eq!(actions, vec![Action::StoreGet { key: "chan_1".to_string() }, Action::CreateThread]);
}

#[test]
fn a_submit_that_fails_aborts_the_task_without_a_reply() {
    let start = on_message(user_message("chan_1", "ping"), &config());
    let events = vec![
        Event::Stored(Some(StoredValue::Text("thread_3".to_string()))),
        Event::Failed,
        Event::Done,
    ];
    let (task, actions) = feed(start, events);
    assert_eq!(task, Task::Aborted);
    assert_eq!(
        actions,
        vec![
            Action::StoreGet { key: "chan_1".to_string() },
            Action::SubmitMessage {
                thread_id: "thread_3".to_string(),
                text: "ping".to_string()
            },
        ]
    );
}

#[test]
fn the_relay_starts_when_the_new_thread_is_stored() {
    let start = on_message(user_message("chan_1", "ping"), &config());
    let events = vec![
        Event::Stored(None),
        Event::ThreadCreated { thread_id: "thread_9".to_string() },
        Event::Done,
    ];
    let (_, actions) = feed(start, events);
    assert_eq!(
        actions,
        vec![
            Action::StoreGet { key: "chan_1".to_string() },
            Action::CreateThread,
            Action::StoreSet { key: "chan_1".to_string(), value: "thread_9".to_string() },
            Action::SubmitMessage {
                thread_id: "thread_9".to_string(),
                text: "ping".to_string()
            },
        ]
    );
}

#[test]
fn a_reply_that_cannot_be_sent_still_finishes_the_task() {
    let start = on_message(user_message("chan_1", "ping"), &config());
    let events = vec![
        Event::Stored(Some(StoredValue::Text("thread_3".to_string()))),
        Event::Done,
        Event::RunStarted { run_id: "run_1".to_string() },
        Event::Done,
        Event::Status(RunStatus::Expired),
        Event::Failed,
    ];
    let (task, actions) = feed(start, events);
    assert_eq!(task, Task::Finished);
    assert_eq!(
        actions.last(),
        Some(&Action::SendMessage {
            channel_id: "chan_1".to_string(),
            content: "Run is expired".to_string()
        })
    );
}

#[test]
fn restart_starts_the_reset_of_its_channel() {
    let (task, action) = on_command(restart("chan_1"));
    assert_eq!(
        task,
        Task::Resetting { reset: Reset::Looking { channel_id: "chan_1".to_string() } }
    );
    assert_eq!(action, Some(Action::StoreGet { key: "chan_1".to_string() }));
}

#[test]
fn an_unknown_command_is_ignored() {
    let command = Command { name: "help".to_string(), channel_id: "chan_1".to_string() };
    assert_eq!(on_command(command), (Task::Finished, None));
}

#[test]
fn command_names_are_matched_exactly() {
    for name in ["Restart", "restart ", "restar", "restarts", "", "/restart"] {
        let command = Command { name: name.to_string(), channel_id: "chan_1".to_string() };
        assert_eq!(on_command(command), (Task::Finished, None), "{:?}", name);
    }
}

#[test]
fn restart_on_an_unknown_channel_calls_nobody() {
    let mut world = world();
    let end = drive(&mut world, on_command(restart("chan_1")));
    assert_eq!(end, Task::Finished);
    assert!(world.threads_deleted.is_empty());
    assert!(world.store.is_empty());
}

#[test]
fn restart_deletes_the_thread_and_forgets_the_channel() {
    let mut world = world();
    drive(&mut world, on_message(user_message("chan_1", "ping"), &config()));
    drive(&mut world, on_message(user_message("chan_2", "ping"), &config()));
    let end = drive(&mut world, on_command(restart("chan_1")));
    assert_eq!(end, Task::Finished);
    assert_eq!(world.threads_deleted, vec!["thread_1".to_string()]);
    assert_eq!(world.store.get("chan_1"), None);
    assert_eq!(world.store.get("chan_2"), Some(&"thread_2".to_string()));
}

#[test]
fn restart_forgets_the_channel_when_deletion_fails() {
    let mut world = world();
    world.deletion_fails = true;
    drive(&mut world, on_message(user_message("chan_1", "ping"), &config()));
    let end = drive(&mut world, on_command(restart("chan_1")));
    assert_eq!(end, Task::Finished);
    assert_eq!(world.threads_deleted, vec!["thread_1".to_string()]);
    assert!(world.store.is_empty());
}

#[test]
fn restart_sends_nothing_to_the_channel() {
    let mut world = world();
    drive(&mut world, on_message(user_message("chan_1", "ping"), &config()));
    world.sent.clear();
    drive(&mut world, on_command(restart("chan_1")));
    assert!(world.sent.is_empty());
}

#[test]
fn a_message_after_restart_gets_a_new_thread() {
    let mut world = world();
    drive(&mut world, on_message(user_message("chan_1", "ping"), &config()));
    drive(&mut world, on_command(restart("chan_1")));
    drive(&mut world, on_message(user_message("chan_1", "ping"), &config()));
    assert_eq!(world.threads_created, 2);
    assert_eq!(world.store.get("chan_1"), Some(&"thread_2".to_string()));
}

#[test]
fn restart_aborts_on_a_stored_value_that_is_no_string() {
    let (task, actions) =
        feed(on_command(restart("chan_1")), vec![Event::Stored(Some(StoredValue::Other))]);
    assert_eq!(task, Task::Aborted);
    assert_eq!(actions, vec![Action::StoreGet { key: "chan_1".to_string() }]);
}

#[test]
fn deployment_registers_restart_then_listens() {
    let (task, first) = on_deploy(&config());
    let (task, actions) = feed((task, Some(first)), vec![Event::Done, Event::Done, Event::Done]);
    assert_eq!(task, Task::Finished);
    assert_eq!(
        actions,
        vec![
            Action::RegisterCommand {
                application_id: 42,
                name: "restart".to_string(),
                description: "Delete generated messages".to_string(),
            },
            Action::ListenToMessages,
            Action::ListenToCommands,
        ]
    );
}

#[test]
fn deployment_goes_on_when_registration_fails() {
    let (task, first) = on_deploy(&config());
    let (task, actions) =
        feed((task, Some(first)), vec![Event::Failed, Event::Failed, Event::Failed]);
    assert_eq!(task, Task::Finished);
    assert_eq!(actions.len(), 3);
    assert_eq!(actions[1], Action::ListenToMessages);
    assert_eq!(actions[2], Action::ListenToCommands);
}
