//! The correlation core of a discrete-event simulation: a store of pending
//! awaits, each held as a promise under the key of the events that it waits
//! for.
//!
//! A component that waits for an event registers a promise in the
//! [`store::EventPromiseStore`]. The engine asks the store for the promise
//! that waits for each event it delivers and resolves it, and has the store
//! cancel the promises of a component that is torn down. The store's contracts
//! are stated over [`model::StoreView`], and [`laws`] holds what follows from
//! them for every store.

pub mod event;
pub mod key;
pub mod laws;
pub mod model;
pub mod promise;
pub mod store;
mod table;
