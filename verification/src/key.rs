//! The key under which an await is registered and an event is matched.

use vstd::prelude::*;
use crate::event::{Event, EventData, EventKey, Id, TypeTag};

verus! {

/// Identity of a class of awaited events: destination, payload type and an
/// optional token.
#[derive(Clone, Copy, Debug, PartialEq, Eq, Hash)]
pub struct AwaitKey {
    /// The component that the awaited event is delivered to.
    pub dst: Id,
    /// The identity of the awaited payload type.
    pub data_type: TypeTag,
    /// The token that the await was registered with, if any.
    pub event_key: Option<EventKey>,
}

/// The parts of a key as one plain value: destination, payload type, token.
pub type KeyParts = (Id, TypeTag, Option<EventKey>);

impl AwaitKey {
    /// The parts of the key.
    pub open spec fn parts(self) -> KeyParts {
        (self.dst, self.data_type, self.event_key)
    }

    /// The key with the given parts.
    pub open spec fn from_parts(parts: KeyParts) -> AwaitKey {
        AwaitKey { dst: parts.0, data_type: parts.1, event_key: parts.2 }
    }

    /// The key under which `event` is matched where its delivery names the
    /// token `event_key`.
    pub open spec fn of_event(event: Event, event_key: Option<EventKey>) -> AwaitKey {
        AwaitKey { dst: event.dst, data_type: event.data.data_type(), event_key }
    }

    /// The key of an await for payloads of the type `T`.
    pub open spec fn of_type<T: EventData>(dst: Id, event_key: Option<EventKey>) -> AwaitKey {
        AwaitKey { dst, data_type: T::static_data_type(), event_key }
    }

    /// The parts of the key.
    pub fn to_parts(&self) -> (parts: KeyParts)
        ensures
            parts == self.parts(),
    {
        (self.dst, self.data_type, self.event_key)
    }

    /// The key with the given parts.
    pub fn of_parts(parts: KeyParts) -> (key: AwaitKey)
        ensures
            key == AwaitKey::from_parts(parts),
    {
        AwaitKey { dst: parts.0, data_type: parts.1, event_key: parts.2 }
    }

    /// Key of an await for payloads of the type `T`.
    pub fn new<T: EventData>(dst: Id, event_key: Option<EventKey>) -> (key: AwaitKey)
        ensures
            key == AwaitKey::of_type::<T>(dst, event_key),
    {
        AwaitKey { dst, data_type: T::static_type_tag(), event_key }
    }

    /// Key of the awaits that `event` answers where its delivery names the
    /// token `event_key`.
    pub fn for_event(event: &Event, event_key: Option<EventKey>) -> (key: AwaitKey)
        ensures
            key == AwaitKey::of_event(*event, event_key),
    {
        AwaitKey { dst: event.dst, data_type: event.data.type_tag(), event_key }
    }

    /// Key of the awaits that an event with the payload `data` answers.
    pub fn new_by_ref(dst: Id, data: &dyn EventData, event_key: Option<EventKey>) -> (key:
        AwaitKey)
        ensures
            key == (AwaitKey { dst, data_type: data.data_type(), event_key }),
    {
        AwaitKey { dst, data_type: data.type_tag(), event_key }
    }
}

/// The two ways to derive a key agree: the key of an await for payloads of
/// the type `T` is the key under which an event with a payload of that type,
/// for the same destination and with the same token, is matched.
pub proof fn derivations_agree<T: EventData>(dst: Id, data: T, event_key: Option<EventKey>)
    ensures
        AwaitKey::of_type::<T>(dst, event_key) == (AwaitKey {
            dst,
            data_type: data.data_type(),
            event_key,
        }),
{
    data.data_type_is_static();
}

} // verus!
