//! What holds of the store whatever it holds, stated over its value.
//!
//! Each operation of [`crate::store::EventPromiseStore`] states in its
//! contract which function of [`StoreView`] it computes; the laws here relate
//! those functions to each other.

use vstd::prelude::*;
use crate::event::Id;
use crate::key::AwaitKey;
use crate::model::{Slot, StoreView};
use crate::promise::EventPromise;

verus! {

/// After an attempt to register a promise without a source under a key, a
/// second such attempt under the same key is refused and leaves the store as
/// it was. Where the first attempt was admitted, its promise is the one
/// registered, and the one that an event under the key resolves, before the
/// second attempt and after it.
pub proof fn second_sourceless_is_refused(
    store: StoreView,
    key: AwaitKey,
    from: Id,
    first: EventPromise,
    second: EventPromise,
)
    ensures
        !store.try_insert(key, None, first).admits(key, None),
        store.try_insert(key, None, first).try_insert(key, None, second) == store.try_insert(
            key,
            None,
            first,
        ),
        store.admits(key, None) ==> {
            let held = store.try_insert(key, None, first).try_insert(key, None, second);
            &&& held.registered(key, None) == Some(first)
            &&& held.awaiting(key, from) == Some(first)
        },
{
}

/// Promises for two different sources are admitted under one key, one after
/// the other, where each was admitted before. An event from the first source
/// then resolves the first promise and no other, and to take that promise out
/// leaves the second where it was.
pub proof fn two_sources_coexist(
    store: StoreView,
    key: AwaitKey,
    s1: Id,
    s2: Id,
    p1: EventPromise,
    p2: EventPromise,
)
    requires
        s1 != s2,
        store.admits(key, Some(s1)),
        store.admits(key, Some(s2)),
    ensures
        store.insert(key, Some(s1), p1).admits(key, Some(s2)),
        ({
            let both = store.insert(key, Some(s1), p1).insert(key, Some(s2), p2);
            &&& both.awaiting(key, s1) == Some(p1)
            &&& both.awaiting(key, s2) == Some(p2)
            &&& both.deliver(key, s1) == store.insert(key, Some(s2), p2)
            &&& both.deliver(key, s1).registered(key, Some(s2)) == Some(p2)
            &&& both.deliver(key, s1).awaiting(key, s1) is None
        }),
{
    let both = store.insert(key, Some(s1), p1).insert(key, Some(s2), p2);
    assert(both.deliver(key, s1).slots =~= store.insert(key, Some(s2), p2).slots);
}

/// Under one key a promise without a source and a promise with a source shut
/// each other out, whichever is registered first.
pub proof fn sourceless_and_sourced_exclude(
    store: StoreView,
    key: AwaitKey,
    src: Id,
    first: EventPromise,
    second: EventPromise,
)
    ensures
        store.admits(key, None) ==> {
            let held = store.insert(key, None, first);
            &&& !held.admits(key, Some(src))
            &&& held.try_insert(key, Some(src), second) == held
        },
        store.admits(key, Some(src)) ==> {
            let held = store.insert(key, Some(src), first);
            &&& !held.admits(key, None)
            &&& held.try_insert(key, None, second) == held
        },
{
    if store.admits(key, Some(src)) {
        let held = store.insert(key, Some(src), first);
        assert(held.slots.contains_key((key, Some(src))));
    }
}

/// An event that no promise waits for leaves the store as it is.
pub proof fn unmatched_delivery_changes_nothing(store: StoreView, key: AwaitKey, from: Id)
    requires
        store.awaiting(key, from) is None,
    ensures
        store.deliver(key, from) == store,
{
}

/// To cancel the promises of a destination frees the slots of that
/// destination and no other, and leaves every other promise where it was. As
/// many promises wait to be handed out afterwards as waited before and as the
/// destination had slots taken, and each of the new ones is the cancelled form
/// of the promise in one of those slots.
pub proof fn drop_takes_one_destination(store: StoreView, dst: Id, order: Seq<Slot>)
    requires
        store.lists(dst, order),
    ensures
        order.len() == store.slots_of(dst).len(),
        forall|slot: Slot|
            slot.0.dst == dst ==> !#[trigger] store.dropped(dst, order).slots.contains_key(slot),
        forall|slot: Slot|
            slot.0.dst != dst ==> store.dropped(dst, order).registered(slot.0, slot.1)
                == #[trigger] store.registered(slot.0, slot.1),
        store.dropped(dst, order).cancelled.len() == store.cancelled.len() + store.slots_of(
            dst,
        ).len(),
        forall|i: int|
            0 <= i < order.len() ==> store.slots_of(dst).contains(order[i]) && #[trigger]
            store.dropped(dst, order).cancelled[store.cancelled.len() + i]
                == store.slots[order[i]].cancelled(),
        store.dropped(dst, order).slots_of(dst) == Set::<Slot>::empty(),
{
    order.unique_seq_to_set();
}

/// Round trip: a promise that was admitted is the one that a matching event
/// resolves, and once it is taken out the store is as it was before the
/// promise came, so that a second such event finds nothing.
pub proof fn round_trip(
    store: StoreView,
    key: AwaitKey,
    src: Option<Id>,
    from: Id,
    promise: EventPromise,
)
    requires
        store.admits(key, src),
        src is None || src == Some(from),
    ensures
        store.insert(key, src, promise).awaiting(key, from) == Some(promise),
        store.insert(key, src, promise).deliver(key, from) == store,
        store.insert(key, src, promise).deliver(key, from).awaiting(key, from) is None,
{
    let held = store.insert(key, src, promise);
    assert(held.deliver(key, from).slots =~= store.slots);
}

/// A registration that is taken back comes back as it went in, and the store
/// is then as it was before.
pub proof fn registration_comes_back(
    store: StoreView,
    key: AwaitKey,
    src: Option<Id>,
    promise: EventPromise,
)
    requires
        store.admits(key, src),
    ensures
        store.insert(key, src, promise).registered(key, src) == Some(promise),
        store.insert(key, src, promise).remove(key, src) == store,
{
    assert(store.insert(key, src, promise).remove(key, src).slots =~= store.slots);
}

/// Every operation keeps a well-formed store well formed: the empty store is
/// so, and so is what comes of one by a registration that is admitted, by
/// taking a registration back, by a delivery, by cancelling the promises of a
/// destination, and by handing the cancelled promises out.
pub proof fn operations_keep_wf(
    store: StoreView,
    key: AwaitKey,
    src: Option<Id>,
    from: Id,
    promise: EventPromise,
    dst: Id,
    order: Seq<Slot>,
)
    requires
        store.wf(),
    ensures
        StoreView::empty().wf(),
        store.try_insert(key, src, promise).wf(),
        store.remove(key, src).wf(),
        store.deliver(key, from).wf(),
        store.dropped(dst, order).wf(),
        store.collected().wf(),
{
    store.dropped_is_wf(dst, order);
}

} // verus!
