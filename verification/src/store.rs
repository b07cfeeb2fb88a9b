//! The store of pending promises.

use vstd::prelude::*;
use rustc_hash::FxHashMap;
use crate::event::{Event, EventData, EventKey, Id};
use crate::key::{AwaitKey, KeyParts};
use crate::model::{Slot, StoreView};
use crate::promise::EventPromise;
use crate::table::{table_get, table_get_mut, table_insert, table_keys, table_remove};

verus! {

/// The answer to a registration that an earlier one stands in the way of.
#[derive(Clone, Copy, Debug, PartialEq, Eq)]
pub struct DuplicateRegistration {
    /// The key of the refused registration.
    pub key: AwaitKey,
    /// The source of a registration under that key that stands in the way;
    /// none where that one names no source.
    pub source: Option<Id>,
}

/// The pending promises of a simulation, found by the key of the awaited
/// events and, for awaits that name one, by the source.
///
/// Promises without a source are held under their key. Promises with a source
/// are held in two tiers: under the key a table of its own, and in that table
/// the promise under its source. A promise that the store has cancelled is
/// kept, out of reach of every event, until
/// [`EventPromiseStore::take_cancelled`] hands it to the engine, which lets
/// the waiting task know.
pub struct EventPromiseStore {
    promises: FxHashMap<KeyParts, EventPromise>,
    promises_with_source: FxHashMap<KeyParts, FxHashMap<Id, EventPromise>>,
    cancelled: Vec<EventPromise>,
}

impl View for EventPromiseStore {
    type V = StoreView;

    closed spec fn view(&self) -> StoreView {
        StoreView {
            slots: Map::new(
                |slot: Slot|
                    match slot.1 {
                        None => self.promises@.contains_key(slot.0.parts()),
                        Some(src) => self.promises_with_source@.contains_key(slot.0.parts())
                            && self.promises_with_source@[slot.0.parts()]@.contains_key(src),
                    },
                |slot: Slot|
                    match slot.1 {
                        None => self.promises@[slot.0.parts()],
                        Some(src) => self.promises_with_source@[slot.0.parts()]@[src],
                    },
            ),
            cancelled: self.cancelled@,
        }
    }
}

impl EventPromiseStore {
    /// A store that holds nothing.
    pub fn new() -> (store: EventPromiseStore)
        ensures
            store@ == StoreView::empty(),
            store@.wf(),
    {
        let store = EventPromiseStore {
            promises: FxHashMap::default(),
            promises_with_source: FxHashMap::default(),
            cancelled: Vec::new(),
        };
        assert(store@.slots =~= Map::empty());
        store
    }

    /// Registers `promise` for the events with payloads of the type `T` that
    /// are delivered to `dst` with the token `event_key`: from any source
    /// where `src` is none, from that source where it names one.
    ///
    /// The registration is refused, and the store left as it was, where a
    /// promise without a source is held under the same key, where `src` names
    /// a source and a promise for that source is held under the key, and where
    /// `src` is none and any promise with a source is held under the key. The
    /// error then names a registration that stands in the way.
    pub fn insert<T: EventData>(
        &mut self,
        dst: Id,
        src: Option<Id>,
        event_key: Option<EventKey>,
        promise: EventPromise,
    ) -> (result: Result<(), DuplicateRegistration>)
        ensures
            old(self)@.wf() ==> final(self)@.wf(),
            result is Ok <==> old(self)@.admits(AwaitKey::of_type::<T>(dst, event_key), src),
            final(self)@ == old(self)@.try_insert(
                AwaitKey::of_type::<T>(dst, event_key),
                src,
                promise,
            ),
            result matches Err(refusal) ==> refusal.key == AwaitKey::of_type::<T>(dst, event_key)
                && old(self)@.blocks(refusal.key, src, refusal.source),
    {
        let key = AwaitKey::new::<T>(dst, event_key);
        let parts = key.to_parts();

        // a promise without a source shuts out every other
        if table_get(&self.promises, &parts).is_some() {
            return Err(DuplicateRegistration { key, source: None });
        }
        match src {
            Some(src) => {
                // only a promise for the same source is in the way
                let taken = match table_get(&self.promises_with_source, &parts) {
                    Some(sources) => table_get(sources, &src).is_some(),
                    None => false,
                };
                if taken {
                    return Err(DuplicateRegistration { key, source: Some(src) });
                }
                match table_get_mut(&mut self.promises_with_source, &parts) {
                    Some(sources) => {
                        table_insert(sources, src, promise);
                    },
                    None => {
                        let mut sources: FxHashMap<Id, EventPromise> = FxHashMap::default();
                        table_insert(&mut sources, src, promise);
                        table_insert(&mut self.promises_with_source, parts, sources);
                    },
                }
                assert(self@.slots =~= old(self)@.insert(key, Some(src), promise).slots);
            },
            None => {
                // every promise with a source is in the way
                let blocking = match table_get(&self.promises_with_source, &parts) {
                    Some(sources) => {
                        if sources.is_empty() {
                            None
                        } else {
                            // a table that is not empty has a first key
                            let held = table_keys(sources);
                            Some(held[0])
                        }
                    },
                    None => None,
                };
                if let Some(source) = blocking {
                    assert(old(self)@.slots.contains_key((key, Some(source))));
                    return Err(DuplicateRegistration { key, source: Some(source) });
                }
                table_insert(&mut self.promises, parts, promise);
                assert(self@.slots =~= old(self)@.insert(key, None, promise).slots);
            },
        }
        Ok(())
    }

    /// Takes back the registration for the events with payloads of the type
    /// `T` that are delivered to `dst` with the token `event_key`: the one
    /// without a source where `src` is none, the one for that source where it
    /// names one. The promise comes back as it was registered: to resolve or
    /// to cancel it is left to the caller.
    pub fn remove<T: EventData>(
        &mut self,
        dst: Id,
        src: &Option<Id>,
        event_key: Option<EventKey>,
    ) -> (promise: Option<EventPromise>)
        ensures
            old(self)@.wf() ==> final(self)@.wf(),
            promise == old(self)@.registered(AwaitKey::of_type::<T>(dst, event_key), *src),
            final(self)@ == old(self)@.remove(AwaitKey::of_type::<T>(dst, event_key), *src),
    {
        let key = AwaitKey::new::<T>(dst, event_key);
        self.take(&key, *src)
    }

    /// Whether a promise waits for `event`, delivered with the token
    /// `event_key`: one without a source under the event's key, or one for
    /// the event's source.
    pub fn has_promise_for(&self, event: &Event, event_key: Option<EventKey>) -> (found: bool)
        ensures
            found == (self@.awaiting(AwaitKey::of_event(*event, event_key), event.src) is Some),
    {
        let key = AwaitKey::for_event(event, event_key);
        let parts = key.to_parts();
        if table_get(&self.promises, &parts).is_some() {
            return true;
        }
        match table_get(&self.promises_with_source, &parts) {
            Some(sources) => table_get(sources, &event.src).is_some(),
            None => false,
        }
    }

    /// Takes out the promise that waits for `event`, delivered with the token
    /// `event_key`: the one without a source under the event's key where
    /// there is one, else the one for the event's source. Where there is
    /// neither the store stays as it is.
    pub fn remove_promise_for(&mut self, event: &Event, event_key: Option<EventKey>) -> (promise:
        Option<EventPromise>)
        ensures
            old(self)@.wf() ==> final(self)@.wf(),
            promise == old(self)@.awaiting(AwaitKey::of_event(*event, event_key), event.src),
            final(self)@ == old(self)@.deliver(AwaitKey::of_event(*event, event_key), event.src),
    {
        let key = AwaitKey::for_event(event, event_key);
        let promise = self.take(&key, None);
        if promise.is_some() {
            return promise;
        }
        let promise = self.take(&key, Some(event.src));
        assert(self@.slots =~= old(self)@.deliver(key, event.src).slots);
        promise
    }

    /// Cancels every promise that waits for an event to the component `dst`,
    /// with and without a source, and takes it out of the store. The
    /// cancelled promises wait, behind those that waited before, to be handed
    /// out by [`EventPromiseStore::take_cancelled`]; the order among them is
    /// open. The promises of other destinations stay. The result is the
    /// number of promises cancelled.
    pub fn drop_promises_by_dst(&mut self, dst: Id) -> (removed_count: usize)
        ensures
            old(self)@.slots_of(dst).finite(),
            removed_count == old(self)@.slots_of(dst).len(),
            exists|order: Seq<Slot>| #[trigger]
                old(self)@.lists(dst, order) && final(self)@ == old(self)@.dropped(dst, order),
            old(self)@.wf() ==> final(self)@.wf(),
    {
        let ghost before = self@;
        let slots = self.taken_slots(dst);
        proof {
            slots@.unique_seq_to_set();
            assert(self@.cancelled =~= before.cancelled + slots@.take(0).map_values(
                |slot: Slot| before.slots[slot].cancelled(),
            ));
        }
        let mut removed_count: usize = 0;
        let mut i: usize = 0;
        while i < slots.len()
            invariant
                i <= slots.len(),
                before.lists(dst, slots@),
                removed_count == i,
                self@.slots == before.slots.remove_keys(slots@.take(i as int).to_set()),
                self@.cancelled == before.cancelled + slots@.take(i as int).map_values(
                    |slot: Slot| before.slots[slot].cancelled(),
                ),
            decreases slots.len() - i,
        {
            let slot = slots[i];
            let ghost done = slots@.take(i as int);
            proof {
                assert(slots@.to_set().contains(slot));
                assert(slots@.take(i + 1) =~= done.push(slot));
                done.lemma_push_to_set_commute(slot);
            }
            if let Some(mut promise) = self.take(&slot.0, slot.1) {
                promise.cancel();
                self.cancelled.push(promise);
                removed_count += 1;
            }
            assert(self@.cancelled =~= before.cancelled + slots@.take(i + 1).map_values(
                |slot: Slot| before.slots[slot].cancelled(),
            ));
            i += 1;
        }
        proof {
            assert(slots@.take(slots@.len() as int) =~= slots@);
            if before.wf() {
                before.dropped_is_wf(dst, slots@);
            }
        }
        let ghost after = self@;
        // the tables of the sources of that destination are empty now
        let keys = table_keys(&self.promises_with_source);
        let mut i: usize = 0;
        while i < keys.len()
            invariant
                i <= keys.len(),
                self@ == after,
                after == before.dropped(dst, slots@),
            decreases keys.len() - i,
        {
            let parts = keys[i];
            if parts.0 == dst {
                assert forall|src: Id|
                    !(self.promises_with_source@.contains_key(parts)
                        && #[trigger] self.promises_with_source@[parts]@.contains_key(src)) by {
                    let slot: Slot = (AwaitKey::from_parts(parts), Some(src));
                    assert(!after.slots.contains_key(slot));
                }
                table_remove(&mut self.promises_with_source, &parts);
                assert(self@.slots =~= after.slots);
            }
            i += 1;
        }
        removed_count
    }

    /// Hands out the promises that the store has cancelled since they were
    /// last handed out, oldest first.
    pub fn take_cancelled(&mut self) -> (cancelled: Vec<EventPromise>)
        ensures
            cancelled@ == old(self)@.cancelled,
            final(self)@ == old(self)@.collected(),
            old(self)@.wf() ==> final(self)@.wf(),
    {
        let mut cancelled: Vec<EventPromise> = Vec::new();
        std::mem::swap(&mut self.cancelled, &mut cancelled);
        cancelled
    }

    /// Takes the promise out of the slot `(key, src)`, if one is there.
    fn take(&mut self, key: &AwaitKey, src: Option<Id>) -> (taken: Option<EventPromise>)
        ensures
            taken == old(self)@.registered(*key, src),
            final(self)@ == old(self)@.remove(*key, src),
    {
        let parts = key.to_parts();
        let taken = match src {
            Some(src) => {
                match table_get_mut(&mut self.promises_with_source, &parts) {
                    Some(sources) => table_remove(sources, &src),
                    None => None,
                }
            },
            None => table_remove(&mut self.promises, &parts),
        };
        assert(self@.slots =~= old(self)@.remove(*key, src).slots);
        taken
    }

    /// The taken slots of the destination `dst`, each once.
    fn taken_slots(&self, dst: Id) -> (slots: Vec<Slot>)
        ensures
            self@.lists(dst, slots@),
    {
        let mut slots: Vec<Slot> = Vec::new();
        let keys = table_keys(&self.promises);
        let mut i: usize = 0;
        while i < keys.len()
            invariant
                i <= keys.len(),
                keys@.no_duplicates(),
                keys@.to_set() == self.promises@.dom(),
                slots@.no_duplicates(),
                forall|slot: Slot| #[trigger]
                    slots@.contains(slot) <==> slot.1 is None && slot.0.dst == dst && among(
                        keys@,
                        i as int,
                        slot.0.parts(),
                    ),
            decreases keys.len() - i,
        {
            let parts = keys[i];
            if parts.0 == dst {
                let slot: Slot = (AwaitKey::of_parts(parts), None);
                proof {
                    lemma_push_fresh(slots@, slot);
                    lemma_contains_after_push(slots@, slot);
                }
                slots.push(slot);
            }
            i += 1;
        }
        let keys = table_keys(&self.promises_with_source);
        let mut i: usize = 0;
        while i < keys.len()
            invariant
                i <= keys.len(),
                keys@.no_duplicates(),
                keys@.to_set() == self.promises_with_source@.dom(),
                slots@.no_duplicates(),
                forall|slot: Slot| #[trigger]
                    slots@.contains(slot) <==> self@.slots_of(dst).contains(slot) && (slot.1 is Some
                        ==> among(keys@, i as int, slot.0.parts())),
            decreases keys.len() - i,
        {
            let parts = keys[i];
            if parts.0 == dst {
                let key = AwaitKey::of_parts(parts);
                match table_get(&self.promises_with_source, &parts) {
                    Some(sources) => {
                        let held = table_keys(sources);
                        let mut j: usize = 0;
                        while j < held.len()
                            invariant
                                j <= held.len(),
                                i < keys.len(),
                                parts == keys@[i as int],
                                parts.0 == dst,
                                key == AwaitKey::from_parts(parts),
                                keys@.no_duplicates(),
                                held@.no_duplicates(),
                                self.promises_with_source@.contains_key(parts),
                                held@.to_set() == self.promises_with_source@[parts]@.dom(),
                                slots@.no_duplicates(),
                                forall|slot: Slot| #[trigger]
                                    slots@.contains(slot) <==> self@.slots_of(dst).contains(slot)
                                        && (slot.1 matches Some(src) ==> among(
                                        keys@,
                                        i as int,
                                        slot.0.parts(),
                                    ) || (slot.0 == key && among(held@, j as int, src))),
                            decreases held.len() - j,
                        {
                            let slot: Slot = (key, Some(held[j]));
                            proof {
                                lemma_push_fresh(slots@, slot);
                                lemma_contains_after_push(slots@, slot);
                            }
                            slots.push(slot);
                            j += 1;
                        }
                    },
                    None => {},
                }
            }
            i += 1;
        }
        assert(slots@.to_set() =~= self@.slots_of(dst));
        slots
    }
}

/// Whether `x` is one of the first `n` items of `s`.
spec fn among<T>(s: Seq<T>, n: int, x: T) -> bool {
    exists|j: int| 0 <= j < n && s[j] == x
}

/// A sequence without duplicates stays so when an item that it lacks is
/// pushed.
proof fn lemma_push_fresh<T>(s: Seq<T>, x: T)
    requires
        s.no_duplicates(),
        !s.contains(x),
    ensures
        s.push(x).no_duplicates(),
{
}

/// After a push a sequence contains what it contained, and the new item.
proof fn lemma_contains_after_push<T>(s: Seq<T>, x: T)
    ensures
        forall|y: T| #[trigger] s.push(x).contains(y) <==> s.contains(y) || y == x,
{
    assert forall|y: T| #[trigger] s.push(x).contains(y) <==> s.contains(y) || y == x by {
        if s.contains(y) {
            let j = choose|j: int| 0 <= j < s.len() && s[j] == y;
            assert(s.push(x)[j] == y);
        }
        if y == x {
            assert(s.push(x)[s.len() as int] == y);
        }
    }
}

} // verus!
