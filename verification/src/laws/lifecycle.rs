//! What holds of every search for a thread and of every reset, stated
//! against the model of the conversation store.

use vstd::prelude::*;

use crate::effect::{ActionView, EventView, StoredView};
use crate::lifecycle::{reset_start, resolve_start, ResetView, ResolveView};
use crate::machine::{lemma_run_after_end, lemma_run_concat, run, trace};
use crate::store::{apply_all, lookup, Store};

verus! {

/// First contact. When the store holds nothing for a channel and the provider
/// creates a thread, the flow asks for exactly one thread, stores exactly one
/// mapping, from the channel to that thread, and ends with that thread.
pub proof fn law_first_contact_creates_one_thread(
    store: Store,
    channel_id: Seq<char>,
    thread_id: Seq<char>,
    events: Seq<EventView>,
)
    requires
        !store.contains_key(channel_id),
        events.len() >= 3,
        events[0] == lookup(store, channel_id),
        events[1] == (EventView::ThreadCreated { thread_id }),
    ensures
        trace(resolve_start(channel_id), events) == (
            ResolveView::Resolved { thread_id },
            seq![
                ActionView::StoreGet { key: channel_id },
                ActionView::CreateThread,
                ActionView::StoreSet { key: channel_id, value: thread_id },
            ],
        ),
        apply_all(store, trace(resolve_start(channel_id), events).1) == store.insert(
            channel_id,
            StoredView::Text(thread_id),
        ),
{
    let head = events.take(3);
    let tail = events.skip(3);
    assert(events == head + tail);
    let start = resolve_start(channel_id).0;
    lemma_run_concat(start, head, tail);
    reveal_with_fuel(run, 4);
    let end = ResolveView::Resolved { thread_id };
    lemma_run_after_end(end, tail);
    let actions = trace(resolve_start(channel_id), events).1;
    assert(actions == seq![
        ActionView::StoreGet { key: channel_id },
        ActionView::CreateThread,
        ActionView::StoreSet { key: channel_id, value: thread_id },
    ]);
    reveal_with_fuel(apply_all, 4);
}

/// First contact, thread refused. When the store holds nothing for a channel
/// and the provider does not create a thread, the flow ends without one:
/// one thread was asked for, and the store is as it was.
pub proof fn law_failed_creation_stores_nothing(
    store: Store,
    channel_id: Seq<char>,
    events: Seq<EventView>,
)
    requires
        !store.contains_key(channel_id),
        events.len() >= 2,
        events[0] == lookup(store, channel_id),
        !(events[1] is ThreadCreated),
    ensures
        trace(resolve_start(channel_id), events) == (
            ResolveView::Aborted,
            seq![ActionView::StoreGet { key: channel_id }, ActionView::CreateThread],
        ),
        apply_all(store, trace(resolve_start(channel_id), events).1) == store,
{
    let head = events.take(2);
    let tail = events.skip(2);
    assert(events == head + tail);
    lemma_run_concat(resolve_start(channel_id).0, head, tail);
    reveal_with_fuel(run, 3);
    lemma_run_after_end(ResolveView::Aborted, tail);
    assert(trace(resolve_start(channel_id), events).1 == seq![
        ActionView::StoreGet { key: channel_id },
        ActionView::CreateThread,
    ]);
    reveal_with_fuel(apply_all, 3);
}

/// Known channel. When the store holds a thread for a channel, the flow ends
/// with that thread after the lookup alone: no thread is created and the
/// store is as it was.
pub proof fn law_known_channel_keeps_its_thread(
    store: Store,
    channel_id: Seq<char>,
    thread_id: Seq<char>,
    events: Seq<EventView>,
)
    requires
        store.contains_key(channel_id),
        store[channel_id] == StoredView::Text(thread_id),
        events.len() >= 1,
        events[0] == lookup(store, channel_id),
    ensures
        trace(resolve_start(channel_id), events) == (
            ResolveView::Resolved { thread_id },
            seq![ActionView::StoreGet { key: channel_id }],
        ),
        apply_all(store, trace(resolve_start(channel_id), events).1) == store,
{
    let head = events.take(1);
    let tail = events.skip(1);
    assert(events == head + tail);
    lemma_run_concat(resolve_start(channel_id).0, head, tail);
    reveal_with_fuel(run, 2);
    lemma_run_after_end(ResolveView::Resolved { thread_id }, tail);
    assert(trace(resolve_start(channel_id), events).1 == seq![
        ActionView::StoreGet { key: channel_id },
    ]);
    reveal_with_fuel(apply_all, 2);
}

/// The last write wins. When two first contacts in one channel both find the
/// store empty and both get a thread, each stores its own: the channel ends
/// up with one mapping, to the thread that was stored last, and the other
/// thread is left without one.
pub proof fn law_last_write_wins(
    store: Store,
    channel_id: Seq<char>,
    earlier_thread: Seq<char>,
    later_thread: Seq<char>,
    earlier: Seq<EventView>,
    later: Seq<EventView>,
)
    requires
        !store.contains_key(channel_id),
        earlier.len() >= 3,
        earlier[0] == lookup(store, channel_id),
        earlier[1] == (EventView::ThreadCreated { thread_id: earlier_thread }),
        later.len() >= 3,
        later[0] == lookup(store, channel_id),
        later[1] == (EventView::ThreadCreated { thread_id: later_thread }),
    ensures
        apply_all(
            apply_all(store, trace(resolve_start(channel_id), earlier).1),
            trace(resolve_start(channel_id), later).1,
        ) == store.insert(channel_id, StoredView::Text(later_thread)),
{
    law_first_contact_creates_one_thread(store, channel_id, earlier_thread, earlier);
    law_first_contact_creates_one_thread(store, channel_id, later_thread, later);
    reveal_with_fuel(apply_all, 4);
}

/// Reset of an unknown channel. When the store holds nothing for a channel,
/// the flow ends after the lookup alone: the provider is not called and the
/// store is as it was.
pub proof fn law_reset_without_mapping_is_noop(
    store: Store,
    channel_id: Seq<char>,
    events: Seq<EventView>,
)
    requires
        !store.contains_key(channel_id),
        events.len() >= 1,
        events[0] == lookup(store, channel_id),
    ensures
        trace(reset_start(channel_id), events) == (
            ResetView::Finished,
            seq![ActionView::StoreGet { key: channel_id }],
        ),
        forall|i: int|
            0 <= i < trace(reset_start(channel_id), events).1.len() ==> !(#[trigger] trace(
                reset_start(channel_id),
                events,
            ).1[i]).calls_provider(),
        apply_all(store, trace(reset_start(channel_id), events).1) == store,
{
    let head = events.take(1);
    let tail = events.skip(1);
    assert(events == head + tail);
    lemma_run_concat(reset_start(channel_id).0, head, tail);
    reveal_with_fuel(run, 2);
    lemma_run_after_end(ResetView::Finished, tail);
    assert(trace(reset_start(channel_id), events).1 == seq![
        ActionView::StoreGet { key: channel_id },
    ]);
    reveal_with_fuel(apply_all, 2);
}

/// Reset of a known channel. When the store holds a thread for a channel, the
/// flow asks the provider to delete that thread and then removes the mapping,
/// whatever the provider answered.
pub proof fn law_reset_always_removes_mapping(
    store: Store,
    channel_id: Seq<char>,
    thread_id: Seq<char>,
    events: Seq<EventView>,
)
    requires
        store.contains_key(channel_id),
        store[channel_id] == StoredView::Text(thread_id),
        events.len() >= 3,
        events[0] == lookup(store, channel_id),
    ensures
        trace(reset_start(channel_id), events) == (
            ResetView::Finished,
            seq![
                ActionView::StoreGet { key: channel_id },
                ActionView::DeleteThread { thread_id },
                ActionView::StoreDelete { key: channel_id },
            ],
        ),
        apply_all(store, trace(reset_start(channel_id), events).1) == store.remove(channel_id),
{
    let head = events.take(3);
    let tail = events.skip(3);
    assert(events == head + tail);
    lemma_run_concat(reset_start(channel_id).0, head, tail);
    reveal_with_fuel(run, 4);
    lemma_run_after_end(ResetView::Finished, tail);
    assert(trace(reset_start(channel_id), events).1 == seq![
        ActionView::StoreGet { key: channel_id },
        ActionView::DeleteThread { thread_id },
        ActionView::StoreDelete { key: channel_id },
    ]);
    reveal_with_fuel(apply_all, 4);
}

} // verus!
