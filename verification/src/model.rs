//! What the store holds, as a mathematical value, and what each operation
//! makes of it.

use vstd::prelude::*;
use vstd::set_lib::lemma_set_subset_finite;
use crate::event::Id;
use crate::key::AwaitKey;
use crate::promise::EventPromise;

verus! {

/// A place for one promise: a key, alone for an await that takes the event
/// from any source, or with the one source that the await names.
pub type Slot = (AwaitKey, Option<Id>);

/// The store as a value: the pending promises, each in its slot, and the
/// promises that the store has cancelled and not yet handed out, oldest
/// first.
pub struct StoreView {
    /// The pending promises.
    pub slots: Map<Slot, EventPromise>,
    /// The cancelled promises that wait to be handed out.
    pub cancelled: Seq<EventPromise>,
}

impl StoreView {
    /// The store that holds nothing.
    pub open spec fn empty() -> StoreView {
        StoreView { slots: Map::empty(), cancelled: Seq::empty() }
    }

    /// What always holds of a store: it holds finitely many promises, and no
    /// key has a promise without a source beside one with a source. (That a
    /// key has at most one promise without a source, and at most one for each
    /// source, is in the type.)
    pub open spec fn wf(self) -> bool {
        &&& self.slots.dom().finite()
        &&& forall|key: AwaitKey, src: Id|
            self.slots.contains_key((key, None)) ==> !#[trigger] self.slots.contains_key(
                (key, Some(src)),
            )
    }

    /// Whether some promise with a source is held under `key`.
    pub open spec fn has_sourced(self, key: AwaitKey) -> bool {
        exists|src: Id| #[trigger] self.slots.contains_key((key, Some(src)))
    }

    /// Whether a new promise may take the slot `(key, src)`: no promise
    /// without a source is held under `key`, and none that the new one would
    /// compete with, which is the one with the same source for a promise with
    /// a source, and every one with a source for a promise without.
    pub open spec fn admits(self, key: AwaitKey, src: Option<Id>) -> bool {
        &&& !self.slots.contains_key((key, None))
        &&& match src {
            Some(src) => !self.slots.contains_key((key, Some(src))),
            None => !self.has_sourced(key),
        }
    }

    /// Whether the promise in the slot `(key, blocking)` is one that keeps a
    /// new promise out of the slot `(key, src)`.
    pub open spec fn blocks(self, key: AwaitKey, src: Option<Id>, blocking: Option<Id>) -> bool {
        &&& self.slots.contains_key((key, blocking))
        &&& src is Some && blocking is Some ==> src == blocking
    }

    /// The store with `promise` in the slot `(key, src)`.
    pub open spec fn insert(self, key: AwaitKey, src: Option<Id>, promise: EventPromise)
        -> StoreView {
        StoreView { slots: self.slots.insert((key, src), promise), cancelled: self.cancelled }
    }

    /// The store after an attempt to register `promise` in the slot
    /// `(key, src)`: with the promise where the slot admits it, unchanged
    /// where not.
    pub open spec fn try_insert(self, key: AwaitKey, src: Option<Id>, promise: EventPromise)
        -> StoreView {
        if self.admits(key, src) {
            self.insert(key, src, promise)
        } else {
            self
        }
    }

    /// The promise in the slot `(key, src)`, if any.
    pub open spec fn registered(self, key: AwaitKey, src: Option<Id>) -> Option<EventPromise> {
        if self.slots.contains_key((key, src)) {
            Some(self.slots[(key, src)])
        } else {
            None
        }
    }

    /// The store without the slot `(key, src)`.
    pub open spec fn remove(self, key: AwaitKey, src: Option<Id>) -> StoreView {
        StoreView { slots: self.slots.remove((key, src)), cancelled: self.cancelled }
    }

    /// The slot whose promise an event under `key` from the component `from`
    /// resolves: the one without a source where it is taken, else the one of
    /// that source where it is taken.
    pub open spec fn matching(self, key: AwaitKey, from: Id) -> Option<Slot> {
        if self.slots.contains_key((key, None)) {
            Some((key, None))
        } else if self.slots.contains_key((key, Some(from))) {
            Some((key, Some(from)))
        } else {
            None
        }
    }

    /// The promise that an event under `key` from `from` resolves, if any.
    pub open spec fn awaiting(self, key: AwaitKey, from: Id) -> Option<EventPromise> {
        match self.matching(key, from) {
            Some(slot) => Some(self.slots[slot]),
            None => None,
        }
    }

    /// The store without the promise that an event under `key` from `from`
    /// resolves; the same store where there is none.
    pub open spec fn deliver(self, key: AwaitKey, from: Id) -> StoreView {
        match self.matching(key, from) {
            Some(slot) => self.remove(slot.0, slot.1),
            None => self,
        }
    }

    /// The taken slots whose key has the destination `dst`.
    pub open spec fn slots_of(self, dst: Id) -> Set<Slot> {
        self.slots.dom().filter(|slot: Slot| slot.0.dst == dst)
    }

    /// Whether `order` lists the taken slots of the destination `dst`, each
    /// once.
    pub open spec fn lists(self, dst: Id, order: Seq<Slot>) -> bool {
        &&& order.no_duplicates()
        &&& order.to_set() == self.slots_of(dst)
    }

    /// The store after the promises of the destination `dst` were cancelled
    /// in the order `order`: their slots are free, and the promises, each as
    /// its cancellation leaves it, wait in that order behind those that
    /// waited before.
    pub open spec fn dropped(self, dst: Id, order: Seq<Slot>) -> StoreView {
        StoreView {
            slots: self.slots.remove_keys(self.slots_of(dst)),
            cancelled: self.cancelled + order.map_values(
                |slot: Slot| self.slots[slot].cancelled(),
            ),
        }
    }

    /// To cancel the promises of a destination keeps a store well formed.
    pub proof fn dropped_is_wf(self, dst: Id, order: Seq<Slot>)
        requires
            self.wf(),
        ensures
            self.dropped(dst, order).wf(),
    {
        let after = self.dropped(dst, order);
        lemma_set_subset_finite(self.slots.dom(), after.slots.dom());
    }

    /// The store after the cancelled promises were handed out.
    pub open spec fn collected(self) -> StoreView {
        StoreView { slots: self.slots, cancelled: Seq::empty() }
    }
}

} // verus!
