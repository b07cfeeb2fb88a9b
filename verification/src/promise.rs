//! The promise: the handle by which a suspended await is brought to its end.

use vstd::prelude::*;
use crate::event::Event;

verus! {

/// Where an await stands. `Pending` is where it begins; the other two are
/// terminal.
pub enum PromiseState {
    /// No matching event has arrived and nobody has cancelled the await.
    Pending,
    /// The event that the await was resolved with.
    Resolved(Event),
    /// The awaited event will never arrive.
    Cancelled,
}

impl PromiseState {
    /// The state after a request to cancel: a pending await is cancelled, a
    /// terminal state stays.
    pub open spec fn cancelled(self) -> PromiseState {
        match self {
            PromiseState::Pending => PromiseState::Cancelled,
            _ => self,
        }
    }

    /// The state after a request to resolve with `event`: a pending await is
    /// resolved with it, a terminal state stays.
    pub open spec fn resolved(self, event: Event) -> PromiseState {
        match self {
            PromiseState::Pending => PromiseState::Resolved(event),
            _ => self,
        }
    }
}

/// The resolution handle of one suspended await. `id` names the future that
/// the promise is paired with.
pub struct EventPromise {
    id: u64,
    state: PromiseState,
}

impl EventPromise {
    /// The future that the promise is paired with.
    pub closed spec fn spec_id(&self) -> u64 {
        self.id
    }

    /// Where the await stands.
    pub closed spec fn spec_state(&self) -> &PromiseState {
        &self.state
    }

    /// The promise as a request to cancel leaves it.
    pub closed spec fn cancelled(self) -> EventPromise {
        EventPromise { id: self.id, state: self.state.cancelled() }
    }

    /// The promise as a request to resolve with `event` leaves it.
    pub closed spec fn resolved(self, event: Event) -> EventPromise {
        EventPromise { id: self.id, state: self.state.resolved(event) }
    }

    /// A request to cancel keeps the future and moves the state as
    /// [`PromiseState::cancelled`] says.
    pub proof fn cancelled_parts(self)
        ensures
            self.cancelled().id() == self.id(),
            *self.cancelled().state() == self.state().cancelled(),
    {
    }

    /// A request to resolve keeps the future and moves the state as
    /// [`PromiseState::resolved`] says.
    pub proof fn resolved_parts(self, event: Event)
        ensures
            self.resolved(event).id() == self.id(),
            *self.resolved(event).state() == self.state().resolved(event),
    {
    }

    /// Two promises with the same future and the same state are one promise.
    pub proof fn same_parts(self, other: EventPromise)
        requires
            self.id() == other.id(),
            self.state() == other.state(),
        ensures
            self == other,
    {
    }

    /// A terminal state is final: no request moves a promise out of it.
    pub proof fn terminal_is_final(self, event: Event)
        requires
            !(self.state() is Pending),
        ensures
            self.cancelled() == self,
            self.resolved(event) == self,
    {
    }

    /// A pending promise for the future `id`.
    pub fn new(id: u64) -> (promise: EventPromise)
        ensures
            promise.id() == id,
            promise.state() is Pending,
    {
        EventPromise { id, state: PromiseState::Pending }
    }

    /// The future that the promise is paired with.
    #[verifier::when_used_as_spec(spec_id)]
    pub fn id(&self) -> (id: u64)
        ensures
            id == self.spec_id(),
    {
        self.id
    }

    /// Where the await stands.
    #[verifier::when_used_as_spec(spec_state)]
    pub fn state(&self) -> (state: &PromiseState)
        ensures
            state == self.spec_state(),
    {
        &self.state
    }

    /// Whether the await is still pending.
    pub fn is_pending(&self) -> (pending: bool)
        ensures
            pending == (self.state() is Pending),
    {
        match self.state {
            PromiseState::Pending => true,
            _ => false,
        }
    }

    /// Resolves the await with `event`. A promise that is not pending stays
    /// as it is, and `event` is dropped.
    pub fn resolve(&mut self, event: Event)
        ensures
            *final(self) == old(self).resolved(event),
            final(self).id() == old(self).id(),
            *final(self).state() == old(self).state().resolved(event),
    {
        if self.is_pending() {
            self.state = PromiseState::Resolved(event);
        }
    }

    /// Cancels the await. A promise that is not pending stays as it is.
    pub fn cancel(&mut self)
        ensures
            *final(self) == old(self).cancelled(),
            final(self).id() == old(self).id(),
            *final(self).state() == old(self).state().cancelled(),
    {
        if self.is_pending() {
            self.state = PromiseState::Cancelled;
        }
    }
}

} // verus!
