//! Components, events and the identity of payload types.

use vstd::prelude::*;

verus! {

/// Handle of a simulated component, the source or the destination of an event.
pub type Id = u32;

/// Token that tells apart awaits for the same destination and payload type.
pub type EventKey = u64;

/// Identity of a payload type.
pub type TypeTag = u64;

/// The capability that every payload type has: it tells its type identity,
/// from a value and without one.
///
/// An implementation owes that every value of the type carries the type's own
/// identity, which `data_type_is_static` states, and that no two payload types
/// share one, which no contract here can state.
pub trait EventData {
    /// The identity of the payload type of `self`.
    spec fn data_type(&self) -> TypeTag;

    /// The identity of this payload type.
    spec fn static_data_type() -> TypeTag where Self: Sized;

    /// Every value carries the identity of its type.
    proof fn data_type_is_static(&self) where Self: Sized
        ensures
            self.data_type() == Self::static_data_type(),
    ;

    /// The identity of the payload type of `self`, found at run time.
    fn type_tag(&self) -> (tag: TypeTag)
        ensures
            tag == self.data_type(),
    ;

    /// The identity of this payload type, known without a value.
    fn static_type_tag() -> (tag: TypeTag) where Self: Sized
        ensures
            tag == Self::static_data_type(),
    ;
}

/// A payload that says nothing but what it is: the payload type with the
/// identity `TAG`.
#[derive(Clone, Copy, Debug)]
pub struct Signal<const TAG: u64>;

impl<const TAG: u64> EventData for Signal<TAG> {
    open spec fn data_type(&self) -> TypeTag {
        TAG
    }

    open spec fn static_data_type() -> TypeTag {
        TAG
    }

    proof fn data_type_is_static(&self) {
    }

    fn type_tag(&self) -> (tag: TypeTag) {
        TAG
    }

    fn static_type_tag() -> (tag: TypeTag) {
        TAG
    }
}

/// A payload on its way from one component to another.
pub struct Event {
    /// The component that the event is delivered to.
    pub dst: Id,
    /// The component that sent the event.
    pub src: Id,
    /// The payload.
    pub data: Box<dyn EventData>,
}

} // verus!
