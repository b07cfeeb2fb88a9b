use promise_store::event::{Event, Signal};
use promise_store::key::AwaitKey;
use promise_store::promise::{EventPromise, PromiseState};
use promise_store::store::{DuplicateRegistration, EventPromiseStore};

type Ping = Signal<1>;
type Pong = Signal<2>;

fn ping(dst: u32, src: u32) -> Event {
    Event { dst, src, data: Box::new(Signal::<1>) }
}

fn pong(dst: u32, src: u32) -> Event {
    Event { dst, src, data: Box::new(Signal::<2>) }
}

fn id_of(promise: Option<EventPromise>) -> Option<u64> {
    promise.map(|p| p.id())
}

fn sorted_ids(promises: &[EventPromise]) -> Vec<u64> {
    let mut ids: Vec<u64> = promises.iter().map(|p| p.id()).collect();
    ids.sort();
    ids
}

#[test]
fn empty_store_matches_nothing() {
    let mut store = EventPromiseStore::new();
    assert!(!store.has_promise_for(&ping(5, 9), None));
    assert_eq!(id_of(store.remove_promise_for(&ping(5, 9), None)), None);
    assert_eq!(id_of(store.remove::<Ping>(5, &None, None)), None);
    assert_eq!(id_of(store.remove::<Ping>(5, &Some(9), None)), None);
    assert_eq!(store.drop_promises_by_dst(5), 0);
    assert!(store.take_cancelled().is_empty());
}

#[test]
fn second_sourceless_insert_is_refused() {
    let mut store = EventPromiseStore::new();
    assert_eq!(store.insert::<Ping>(5, None, Some(3), EventPromise::new(1)), Ok(()));
    assert_eq!(
        store.insert::<Ping>(5, None, Some(3), EventPromise::new(2)),
        Err(DuplicateRegistration { key: AwaitKey::new::<Ping>(5, Some(3)), source: None })
    );
    assert!(store.has_promise_for(&ping(5, 9), Some(3)));
    assert_eq!(id_of(store.remove_promise_for(&ping(5, 9), Some(3))), Some(1));
}

#[test]
fn two_sources_coexist_under_one_key() {
    let mut store = EventPromiseStore::new();
    assert_eq!(store.insert::<Ping>(5, Some(1), None, EventPromise::new(10)), Ok(()));
    assert_eq!(store.insert::<Ping>(5, Some(2), None, EventPromise::new(20)), Ok(()));
    assert_eq!(id_of(store.remove_promise_for(&ping(5, 1), None)), Some(10));
    assert!(!store.has_promise_for(&ping(5, 1), None));
    assert!(store.has_promise_for(&ping(5, 2), None));
    assert_eq!(id_of(store.remove_promise_for(&ping(5, 2), None)), Some(20));
}

#[test]
fn second_insert_for_one_source_is_refused() {
    let mut store = EventPromiseStore::new();
    assert_eq!(store.insert::<Ping>(5, Some(1), None, EventPromise::new(10)), Ok(()));
    assert_eq!(
        store.insert::<Ping>(5, Some(1), None, EventPromise::new(11)),
        Err(DuplicateRegistration { key: AwaitKey::new::<Ping>(5, None), source: Some(1) })
    );
    assert_eq!(id_of(store.remove_promise_for(&ping(5, 1), None)), Some(10));
}

#[test]
fn sourced_after_sourceless_is_refused() {
    let mut store = EventPromiseStore::new();
    assert_eq!(store.insert::<Ping>(5, None, None, EventPromise::new(1)), Ok(()));
    assert_eq!(
        store.insert::<Ping>(5, Some(9), None, EventPromise::new(2)),
        Err(DuplicateRegistration { key: AwaitKey::new::<Ping>(5, None), source: None })
    );
    assert_eq!(id_of(store.remove_promise_for(&ping(5, 9), None)), Some(1));
    assert!(!store.has_promise_for(&ping(5, 9), None));
}

#[test]
fn sourceless_after_sourced_is_refused() {
    let mut store = EventPromiseStore::new();
    assert_eq!(store.insert::<Ping>(5, Some(9), None, EventPromise::new(2)), Ok(()));
    assert_eq!(
        store.insert::<Ping>(5, None, None, EventPromise::new(1)),
        Err(DuplicateRegistration { key: AwaitKey::new::<Ping>(5, None), source: Some(9) })
    );
    assert!(!store.has_promise_for(&ping(5, 8), None));
    assert_eq!(id_of(store.remove_promise_for(&ping(5, 9), None)), Some(2));
}

#[test]
fn refusal_names_a_source_that_is_held() {
    let mut store = EventPromiseStore::new();
    assert_eq!(store.insert::<Ping>(5, Some(3), None, EventPromise::new(1)), Ok(()));
    assert_eq!(store.insert::<Ping>(5, Some(4), None, EventPromise::new(2)), Ok(()));
    let refusal = store.insert::<Ping>(5, None, None, EventPromise::new(3)).unwrap_err();
    assert_eq!(refusal.key, AwaitKey::new::<Ping>(5, None));
    assert!(refusal.source == Some(3) || refusal.source == Some(4));
}

#[test]
fn sourceless_is_admitted_once_the_sources_are_gone() {
    let mut store = EventPromiseStore::new();
    assert_eq!(store.insert::<Ping>(5, Some(9), None, EventPromise::new(2)), Ok(()));
    assert_eq!(id_of(store.remove::<Ping>(5, &Some(9), None)), Some(2));
    assert_eq!(store.insert::<Ping>(5, None, None, EventPromise::new(1)), Ok(()));
    assert_eq!(id_of(store.remove_promise_for(&ping(5, 7), None)), Some(1));
}

#[test]
fn unmatched_delivery_leaves_the_store() {
    let mut store = EventPromiseStore::new();
    assert_eq!(store.insert::<Ping>(5, None, None, EventPromise::new(1)), Ok(()));
    assert_eq!(store.insert::<Pong>(5, Some(9), Some(4), EventPromise::new(2)), Ok(()));
    assert_eq!(id_of(store.remove_promise_for(&ping(6, 9), None)), None);
    assert_eq!(id_of(store.remove_promise_for(&ping(5, 9), Some(4))), None);
    assert_eq!(id_of(store.remove_promise_for(&pong(5, 9), None)), None);
    assert_eq!(id_of(store.remove_promise_for(&pong(5, 8), Some(4))), None);
    assert!(store.has_promise_for(&ping(5, 9), None));
    assert!(store.has_promise_for(&pong(5, 9), Some(4)));
    assert_eq!(id_of(store.remove_promise_for(&ping(5, 9), None)), Some(1));
    assert_eq!(id_of(store.remove_promise_for(&pong(5, 9), Some(4))), Some(2));
}

#[test]
fn drop_cancels_one_destination() {
    let mut store = EventPromiseStore::new();
    assert_eq!(store.insert::<Ping>(5, None, None, EventPromise::new(1)), Ok(()));
    assert_eq!(store.insert::<Pong>(5, Some(7), None, EventPromise::new(2)), Ok(()));
    assert_eq!(store.insert::<Pong>(5, Some(8), None, EventPromise::new(3)), Ok(()));
    assert_eq!(store.insert::<Ping>(5, None, Some(1), EventPromise::new(4)), Ok(()));
    assert_eq!(store.insert::<Ping>(6, None, None, EventPromise::new(5)), Ok(()));
    assert_eq!(store.insert::<Pong>(6, Some(5), None, EventPromise::new(6)), Ok(()));

    assert_eq!(store.drop_promises_by_dst(5), 4);

    assert!(!store.has_promise_for(&ping(5, 9), None));
    assert!(!store.has_promise_for(&pong(5, 7), None));
    assert!(!store.has_promise_for(&pong(5, 8), None));
    assert!(!store.has_promise_for(&ping(5, 9), Some(1)));
    assert!(store.has_promise_for(&ping(6, 9), None));
    assert!(store.has_promise_for(&pong(6, 5), None));

    let cancelled = store.take_cancelled();
    assert_eq!(sorted_ids(&cancelled), vec![1, 2, 3, 4]);
    assert!(cancelled.iter().all(|p| matches!(p.state(), PromiseState::Cancelled)));

    assert_eq!(store.drop_promises_by_dst(5), 0);
    assert!(store.take_cancelled().is_empty());
    assert_eq!(id_of(store.remove_promise_for(&ping(6, 9), None)), Some(5));
    assert_eq!(id_of(store.remove_promise_for(&pong(6, 5), None)), Some(6));
}

#[test]
fn dropped_destination_can_register_again() {
    let mut store = EventPromiseStore::new();
    assert_eq!(store.insert::<Ping>(5, Some(7), None, EventPromise::new(1)), Ok(()));
    assert_eq!(store.drop_promises_by_dst(5), 1);
    assert_eq!(store.insert::<Ping>(5, None, None, EventPromise::new(2)), Ok(()));
    assert_eq!(store.drop_promises_by_dst(5), 1);
    assert_eq!(store.insert::<Ping>(5, Some(7), None, EventPromise::new(3)), Ok(()));
    assert_eq!(id_of(store.remove_promise_for(&ping(5, 7), None)), Some(3));
}

#[test]
fn cancelled_promises_come_out_oldest_first() {
    let mut store = EventPromiseStore::new();
    assert_eq!(store.insert::<Ping>(1, None, None, EventPromise::new(10)), Ok(()));
    assert_eq!(store.insert::<Ping>(2, Some(1), None, EventPromise::new(20)), Ok(()));
    assert_eq!(store.drop_promises_by_dst(2), 1);
    assert_eq!(store.drop_promises_by_dst(1), 1);
    let cancelled = store.take_cancelled();
    let ids: Vec<u64> = cancelled.iter().map(|p| p.id()).collect();
    assert_eq!(ids, vec![20, 10]);
    assert!(store.take_cancelled().is_empty());
}

#[test]
fn drop_leaves_ended_promises_as_they_are() {
    let mut store = EventPromiseStore::new();
    let mut resolved = EventPromise::new(1);
    resolved.resolve(ping(5, 9));
    assert_eq!(store.insert::<Ping>(5, None, None, resolved), Ok(()));
    assert_eq!(store.drop_promises_by_dst(5), 1);
    let cancelled = store.take_cancelled();
    assert_eq!(cancelled.len(), 1);
    assert!(matches!(cancelled[0].state(), PromiseState::Resolved(_)));
}

#[test]
fn round_trip_returns_the_promise_once() {
    let mut store = EventPromiseStore::new();
    assert_eq!(store.insert::<Ping>(5, None, Some(2), EventPromise::new(1)), Ok(()));
    let promise = store.remove_promise_for(&ping(5, 9), Some(2)).unwrap();
    assert_eq!(promise.id(), 1);
    assert!(promise.is_pending());
    assert_eq!(id_of(store.remove_promise_for(&ping(5, 9), Some(2))), None);

    assert_eq!(store.insert::<Ping>(5, Some(9), Some(2), EventPromise::new(3)), Ok(()));
    let promise = store.remove_promise_for(&ping(5, 9), Some(2)).unwrap();
    assert_eq!(promise.id(), 3);
    assert!(promise.is_pending());
    assert_eq!(id_of(store.remove_promise_for(&ping(5, 9), Some(2))), None);
}

#[test]
fn remove_takes_the_named_registration_only() {
    let mut store = EventPromiseStore::new();
    assert_eq!(store.insert::<Ping>(5, Some(1), None, EventPromise::new(10)), Ok(()));
    assert_eq!(store.insert::<Ping>(5, Some(2), None, EventPromise::new(20)), Ok(()));
    assert_eq!(store.insert::<Pong>(5, None, None, EventPromise::new(30)), Ok(()));
    assert_eq!(id_of(store.remove::<Ping>(5, &None, None)), None);
    assert_eq!(id_of(store.remove::<Pong>(5, &Some(1), None)), None);
    assert_eq!(id_of(store.remove::<Ping>(5, &Some(3), None)), None);
    assert_eq!(id_of(store.remove::<Ping>(5, &Some(1), Some(0))), None);
    let promise = store.remove::<Ping>(5, &Some(1), None).unwrap();
    assert_eq!(promise.id(), 10);
    assert!(promise.is_pending());
    assert_eq!(id_of(store.remove::<Ping>(5, &Some(1), None)), None);
    assert!(store.has_promise_for(&ping(5, 2), None));
    assert_eq!(id_of(store.remove::<Pong>(5, &None, None)), Some(30));
    assert_eq!(id_of(store.remove::<Pong>(5, &None, None)), None);
    assert!(store.take_cancelled().is_empty());
}

#[test]
fn token_tells_awaits_apart() {
    let mut store = EventPromiseStore::new();
    assert_eq!(store.insert::<Ping>(5, None, None, EventPromise::new(1)), Ok(()));
    assert_eq!(store.insert::<Ping>(5, None, Some(1), EventPromise::new(2)), Ok(()));
    assert_eq!(store.insert::<Ping>(5, Some(9), Some(2), EventPromise::new(3)), Ok(()));
    assert_eq!(id_of(store.remove_promise_for(&ping(5, 9), Some(1))), Some(2));
    assert_eq!(id_of(store.remove_promise_for(&ping(5, 9), Some(2))), Some(3));
    assert_eq!(id_of(store.remove_promise_for(&ping(5, 9), None)), Some(1));
}

#[test]
fn sourceless_promise_is_delivered_once() {
    let mut store = EventPromiseStore::new();
    assert_eq!(store.insert::<Ping>(5, None, None, EventPromise::new(1)), Ok(()));
    let event = ping(5, 9);
    assert!(store.has_promise_for(&event, None));
    let promise = store.remove_promise_for(&event, None).unwrap();
    assert_eq!(promise.id(), 1);
    assert!(!store.has_promise_for(&ping(5, 9), None));
}

#[test]
fn sourced_promise_needs_its_source() {
    let mut store = EventPromiseStore::new();
    assert_eq!(store.insert::<Ping>(5, Some(9), Some(1), EventPromise::new(2)), Ok(()));
    assert!(!store.has_promise_for(&ping(5, 8), Some(1)));
    assert_eq!(id_of(store.remove_promise_for(&ping(5, 8), Some(1))), None);
    assert!(store.has_promise_for(&ping(5, 9), Some(1)));
    let promise = store.remove_promise_for(&ping(5, 9), Some(1)).unwrap();
    assert_eq!(promise.id(), 2);
    assert!(!store.has_promise_for(&ping(5, 9), Some(1)));
}

#[test]
fn delivered_promise_is_resolved_by_the_caller() {
    let mut store = EventPromiseStore::new();
    assert_eq!(store.insert::<Ping>(5, None, None, EventPromise::new(1)), Ok(()));
    let event = ping(5, 9);
    let mut promise = store.remove_promise_for(&event, None).unwrap();
    promise.resolve(event);
    match promise.state() {
        PromiseState::Resolved(event) => assert_eq!(event.src, 9),
        _ => panic!("the promise was not resolved"),
    }
    assert!(store.take_cancelled().is_empty());
}

#[test]
fn many_promises_of_one_destination_are_all_cancelled() {
    let mut store = EventPromiseStore::new();
    for src in 0..100u32 {
        assert_eq!(
            store.insert::<Ping>(5, Some(src), None, EventPromise::new(u64::from(src))),
            Ok(())
        );
        assert_eq!(
            store.insert::<Ping>(6, Some(src), None, EventPromise::new(1000 + u64::from(src))),
            Ok(())
        );
    }
    for token in 0..50u64 {
        assert_eq!(
            store.insert::<Pong>(5, None, Some(token), EventPromise::new(200 + token)),
            Ok(())
        );
    }
    assert_eq!(store.drop_promises_by_dst(5), 150);
    let cancelled = store.take_cancelled();
    let mut expected: Vec<u64> = (0..100).collect();
    expected.extend(200..250);
    assert_eq!(sorted_ids(&cancelled), expected);
    for src in 0..100u32 {
        assert!(!store.has_promise_for(&ping(5, src), None));
        assert!(store.has_promise_for(&ping(6, src), None));
    }
    assert_eq!(store.drop_promises_by_dst(6), 100);
}
