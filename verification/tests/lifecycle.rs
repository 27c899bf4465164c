use assistant_relay::effect::{Action, Event, StoredValue};
use assistant_relay::lifecycle::{reset, resolve_or_create_thread, Reset, Resolve};
use assistant_relay::status::RunStatus;

fn stored(thread_id: &str) -> Event {
    Event::Stored(Some(StoredValue::Text(thread_id.to_string())))
}

fn resolve_with(channel_id: &str, events: Vec<Event>) -> (Resolve, Vec<Action>) {
    let (mut state, first) = resolve_or_create_thread(channel_id.to_string());
    let mut actions = vec![first];
    for event in events {
        let (next, action) = state.step(event);
        state = next;
        actions.extend(action);
    }
    (state, actions)
}

fn reset_with(channel_id: &str, events: Vec<Event>) -> (Reset, Vec<Action>) {
    let (mut state, first) = reset(channel_id.to_string());
    let mut actions = vec![first];
    for event in events {
        let (next, action) = state.step(event);
        state = next;
        actions.extend(action);
    }
    (state, actions)
}

#[test]
fn resolving_starts_with_a_lookup_of_the_channel() {
    let (state, action) = resolve_or_create_thread("chan_1".to_string());
    assert_eq!(state, Resolve::Looking { channel_id: "chan_1".to_string() });
    assert_eq!(action, Action::StoreGet { key: "chan_1".to_string() });
}

#[test]
fn first_contact_creates_one_thread_and_stores_one_mapping() {
    let events = vec![
        Event::Stored(None),
        Event::ThreadCreated { thread_id: "thread_9".to_string() },
        Event::Done,
    ];
    let (state, actions) = resolve_with("chan_1", events);
    assert_eq!(state, Resolve::Resolved { thread_id: "thread_9".to_string() });
    assert_eq!(
        actions,
        vec![
            Action::StoreGet { key: "chan_1".to_string() },
            Action::CreateThread,
            Action::StoreSet { key: "chan_1".to_string(), value: "thread_9".to_string() },
        ]
    );
    assert_eq!(actions.iter().filter(|a| **a == Action::CreateThread).count(), 1);
    assert_eq!(actions.iter().filter(|a| matches!(a, Action::StoreSet { .. })).count(), 1);
}

#[test]
fn the_new_thread_is_not_used_before_it_is_stored() {
    let events =
        vec![Event::Stored(None), Event::ThreadCreated { thread_id: "thread_9".to_string() }];
    let (state, _) = resolve_with("chan_1", events);
    assert_eq!(state, Resolve::Saving { thread_id: "thread_9".to_string() });
}

#[test]
fn the_outcome_of_storing_does_not_matter() {
    let events = vec![
        Event::Stored(None),
        Event::ThreadCreated { thread_id: "thread_9".to_string() },
        Event::Failed,
    ];
    let (state, _) = resolve_with("chan_1", events);
    assert_eq!(state, Resolve::Resolved { thread_id: "thread_9".to_string() });
}

#[test]
fn a_known_channel_keeps_its_thread() {
    let (state, actions) = resolve_with("chan_1", vec![stored("thread_3")]);
    assert_eq!(state, Resolve::Resolved { thread_id: "thread_3".to_string() });
    assert_eq!(actions, vec![Action::StoreGet { key: "chan_1".to_string() }]);
}

#[test]
fn a_failed_creation_aborts_and_stores_nothing() {
    let (state, actions) = resolve_with("chan_1", vec![Event::Stored(None), Event::Failed]);
    assert_eq!(state, Resolve::Aborted);
    assert_eq!(actions, vec![Action::StoreGet { key: "chan_1".to_string() }, Action::CreateThread]);
}

#[test]
fn a_stored_value_that_is_no_string_aborts_resolving() {
    let (state, actions) =
        resolve_with("chan_1", vec![Event::Stored(Some(StoredValue::Other))]);
    assert_eq!(state, Resolve::Aborted);
    assert_eq!(actions, vec![Action::StoreGet { key: "chan_1".to_string() }]);
}

#[test]
fn an_event_that_is_no_answer_aborts_resolving() {
    let (state, _) = resolve_with("chan_1", vec![Event::Status(RunStatus::Completed)]);
    assert_eq!(state, Resolve::Aborted);
    let (state, _) = resolve_with("chan_1", vec![Event::Stored(None), Event::Done]);
    assert_eq!(state, Resolve::Aborted);
}

#[test]
fn a_resolved_flow_stays_resolved() {
    let events = vec![
        stored("thread_3"),
        Event::Stored(None),
        Event::ThreadCreated { thread_id: "thread_4".to_string() },
        Event::Failed,
    ];
    let (state, actions) = resolve_with("chan_1", events);
    assert_eq!(state, Resolve::Resolved { thread_id: "thread_3".to_string() });
    assert_eq!(actions.len(), 1);
}

#[test]
fn an_aborted_resolve_stays_aborted() {
    let (state, actions) =
        resolve_with("chan_1", vec![Event::Failed, stored("thread_3"), Event::Done]);
    assert_eq!(state, Resolve::Aborted);
    assert_eq!(actions.len(), 1);
}

#[test]
fn reset_starts_with_a_lookup_of_the_channel() {
    let (state, action) = reset("chan_1".to_string());
    assert_eq!(state, Reset::Looking { channel_id: "chan_1".to_string() });
    assert_eq!(action, Action::StoreGet { key: "chan_1".to_string() });
}

#[test]
fn reset_without_a_mapping_does_nothing() {
    let (state, actions) = reset_with("chan_1", vec![Event::Stored(None)]);
    assert_eq!(state, Reset::Finished);
    assert_eq!(actions, vec![Action::StoreGet { key: "chan_1".to_string() }]);
}

#[test]
fn reset_deletes_the_thread_and_removes_the_mapping() {
    let (state, actions) =
        reset_with("chan_1", vec![stored("thread_3"), Event::Done, Event::Done]);
    assert_eq!(state, Reset::Finished);
    assert_eq!(
        actions,
        vec![
            Action::StoreGet { key: "chan_1".to_string() },
            Action::DeleteThread { thread_id: "thread_3".to_string() },
            Action::StoreDelete { key: "chan_1".to_string() },
        ]
    );
}

#[test]
fn reset_removes_the_mapping_when_deletion_fails() {
    let (state, actions) =
        reset_with("chan_1", vec![stored("thread_3"), Event::Failed, Event::Done]);
    assert_eq!(state, Reset::Finished);
    assert_eq!(
        actions,
        vec![
            Action::StoreGet { key: "chan_1".to_string() },
            Action::DeleteThread { thread_id: "thread_3".to_string() },
            Action::StoreDelete { key: "chan_1".to_string() },
        ]
    );
}

#[test]
fn reset_is_not_finished_before_the_mapping_is_removed() {
    let (state, _) = reset_with("chan_1", vec![stored("thread_3"), Event::Done]);
    assert_eq!(state, Reset::Forgetting);
}

#[test]
fn a_stored_value_that_is_no_string_aborts_reset() {
    let (state, actions) = reset_with("chan_1", vec![Event::Stored(Some(StoredValue::Other))]);
    assert_eq!(state, Reset::Aborted);
    assert_eq!(actions, vec![Action::StoreGet { key: "chan_1".to_string() }]);
}

#[test]
fn an_event_that_is_no_answer_aborts_reset() {
    let (state, actions) = reset_with("chan_1", vec![Event::Done]);
    assert_eq!(state, Reset::Aborted);
    assert_eq!(actions.len(), 1);
}

#[test]
fn a_finished_reset_stays_finished() {
    let (state, actions) =
        reset_with("chan_1", vec![Event::Stored(None), stored("thread_3"), Event::Done]);
    assert_eq!(state, Reset::Finished);
    assert_eq!(actions.len(), 1);
}
