//! The subscriber store: insert semantics, identifier uniqueness, and the
//! failure modes.

use zero2prod::handler::persistence_status;
use zero2prod::store::{StoreError, SubscriberStore};
use zero2prod::validation::validate;

#[test]
fn insert_appends_exactly_one_matching_record() {
    let mut store = SubscriberStore::new();
    let submission = validate("le guin", "ursula_le_guin@gmail.com").unwrap();

    let record = store.insert_subscriber(&submission).unwrap();

    assert_eq!(store.len(), 1);
    let saved = &store.records()[0];
    assert_eq!(saved.id, record.id);
    assert_eq!(saved.email, "ursula_le_guin@gmail.com");
    assert_eq!(saved.name, "le guin");
}

#[test]
fn insert_rejects_a_colliding_identifier() {
    let mut store = SubscriberStore::new();
    let submission = validate("le guin", "a@b.com").unwrap();

    store
        .insert_subscriber_record(&submission, 7, 0)
        .unwrap();
    let err = store
        .insert_subscriber_record(&submission, 7, 1)
        .unwrap_err();

    assert_eq!(err, StoreError::IdCollision);
    assert_eq!(store.len(), 1);
}

#[test]
fn insert_fails_without_touching_an_unreachable_store() {
    let mut store = SubscriberStore::new();
    store.set_available(false);
    let submission = validate("le guin", "a@b.com").unwrap();

    let err = store.insert_subscriber(&submission).unwrap_err();

    assert_eq!(err, StoreError::Unavailable);
    assert_eq!(store.len(), 0);

    store.set_available(true);
    assert!(store.insert_subscriber(&submission).is_ok());
    assert_eq!(store.len(), 1);
}

#[test]
fn insert_clamps_a_clock_that_stepped_back() {
    let mut store = SubscriberStore::new();
    let submission = validate("le guin", "a@b.com").unwrap();

    let first = store.insert_subscriber_record(&submission, 1, 100).unwrap();
    let second = store.insert_subscriber_record(&submission, 2, 50).unwrap();
    let third = store.insert_subscriber_record(&submission, 3, 250).unwrap();

    assert_eq!(first.subscribed_at, 100);
    assert_eq!(second.subscribed_at, 100);
    assert_eq!(third.subscribed_at, 250);
}

#[test]
fn timestamps_never_decrease_along_the_insertion_order() {
    let mut store = SubscriberStore::new();
    let submission = validate("le guin", "a@b.com").unwrap();

    for _ in 0..5 {
        store.insert_subscriber(&submission).unwrap();
    }

    let records = store.records();
    for k in 1..records.len() {
        assert!(records[k - 1].subscribed_at <= records[k].subscribed_at);
    }
}

#[test]
fn persistence_outcome_maps_to_the_response_status() {
    let mut store = SubscriberStore::new();
    let submission = validate("le guin", "a@b.com").unwrap();

    let ok = store.insert_subscriber(&submission);
    assert_eq!(persistence_status(&ok), 200);

    store.set_available(false);
    let err = store.insert_subscriber(&submission);
    assert_eq!(persistence_status(&err), 500);
}
