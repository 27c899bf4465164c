//! A mathematical model of the conversation store: which value each key
//! holds, how a lookup is answered, and what the actions of a flow do to it.
//!
//! The store itself lives outside this library. The model is what the laws of
//! the flows are stated against.

use vstd::prelude::*;

use crate::effect::{ActionView, EventView, StoredView};

verus! {

/// The contents of the conversation store: at most one value per key.
pub type Store = Map<Seq<char>, StoredView>;

/// The event that answers a lookup of `key` in `store`.
pub open spec fn lookup(store: Store, key: Seq<char>) -> EventView {
    EventView::Stored(
        if store.contains_key(key) {
            Some(store[key])
        } else {
            None
        },
    )
}

/// The store after one action was performed on it.
pub open spec fn apply(store: Store, action: ActionView) -> Store {
    match action {
        ActionView::StoreSet { key, value } => store.insert(key, StoredView::Text(value)),
        ActionView::StoreDelete { key } => store.remove(key),
        _ => store,
    }
}

/// The store after a sequence of actions was performed on it, in order.
pub open spec fn apply_all(store: Store, actions: Seq<ActionView>) -> Store
    decreases actions.len(),
{
    if actions.len() == 0 {
        store
    } else {
        apply(apply_all(store, actions.drop_last()), actions.last())
    }
}

/// Whether `action` leaves every channel but `channel_id` alone: it reads,
/// writes or removes no mapping of another channel, and posts to no other
/// channel.
pub open spec fn concerns_only(action: ActionView, channel_id: Seq<char>) -> bool {
    match action {
        ActionView::StoreGet { key } => key == channel_id,
        ActionView::StoreSet { key, .. } => key == channel_id,
        ActionView::StoreDelete { key } => key == channel_id,
        ActionView::SendMessage { channel_id: target, .. } => target == channel_id,
        _ => true,
    }
}

/// Every action of `actions` leaves every channel but `channel_id` alone.
pub open spec fn all_concern_only(actions: Seq<ActionView>, channel_id: Seq<char>) -> bool {
    forall|i: int| 0 <= i < actions.len() ==> concerns_only(#[trigger] actions[i], channel_id)
}

/// Actions that concern one channel only do not change what the store
/// answers for any other.
pub proof fn lemma_other_channels_keep_their_mapping(
    store: Store,
    actions: Seq<ActionView>,
    channel_id: Seq<char>,
    other: Seq<char>,
)
    requires
        all_concern_only(actions, channel_id),
        other != channel_id,
    ensures
        lookup(apply_all(store, actions), other) == lookup(store, other),
    decreases actions.len(),
{
    if actions.len() > 0 {
        assert(concerns_only(actions[actions.len() - 1], channel_id));
        assert(all_concern_only(actions.drop_last(), channel_id)) by {
            assert forall|i: int| 0 <= i < actions.drop_last().len() implies concerns_only(
                #[trigger] actions.drop_last()[i],
                channel_id,
            ) by {
                assert(actions.drop_last()[i] == actions[i]);
            }
        }
        lemma_other_channels_keep_their_mapping(store, actions.drop_last(), channel_id, other);
    }
}

} // verus!
