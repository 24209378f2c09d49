//! The liveness probe and the submission endpoint, driven end to end
//! against the in-memory subscriber store.

use zero2prod::handler::{health_check, subscribe};
use zero2prod::store::SubscriberStore;

#[test]
fn health_check_work() {
    let response = health_check();
    assert!(response.status == 200);
    assert_eq!(response.body.len(), 0);
}

#[test]
fn subscribe_returns_a_200_for_valid_form_data() {
    let mut store = SubscriberStore::new();
    let body = "name=le%20guin&email=ursula_le_guin%40gmail.com";

    let handled = subscribe(&mut store, body.as_bytes());

    assert_eq!(handled.response.status, 200);
    let saved = &store.records()[0];
    assert_eq!(saved.email, "ursula_le_guin@gmail.com");
    assert_eq!(saved.name, "le guin");
}

#[test]
fn subscribe_returns_a_400_when_data_is_missing() {
    let test_cases = vec![
        ("name=le%20guin", "missing the email"),
        ("email=ursula_le_guin%40gmailc.com", "missing the name"),
        ("", "missing both name and email"),
    ];

    for (invalid_body, error_message) in test_cases {
        let mut store = SubscriberStore::new();
        let handled = subscribe(&mut store, invalid_body.as_bytes());
        assert_eq!(
            400, handled.response.status,
            "The API did not fail with 400 Bad Request when the playload was {}",
            error_message
        );
    }
}

#[test]
fn subscribe_rejects_a_forbidden_character_in_the_name() {
    let mut store = SubscriberStore::new();
    let handled = subscribe(&mut store, "name=%2F&email=a%40b.com".as_bytes());
    assert_eq!(handled.response.status, 400);
    assert_eq!(store.len(), 0);
}

#[test]
fn subscribe_rejects_a_repeated_field() {
    let mut store = SubscriberStore::new();
    let handled = subscribe(
        &mut store,
        "name=le%20guin&name=other&email=a%40b.com".as_bytes(),
    );
    assert_eq!(handled.response.status, 400);
    assert_eq!(store.len(), 0);
}

#[test]
fn subscribe_returns_a_500_when_storage_is_unreachable() {
    let mut store = SubscriberStore::new();
    store.set_available(false);
    let handled = subscribe(&mut store, "name=le%20guin&email=ursula_le_guin%40gmail.com".as_bytes());
    assert_eq!(handled.response.status, 500);
    assert_eq!(store.len(), 0);
}

#[test]
fn subscribe_keeps_repeated_submissions_as_independent_records() {
    let mut store = SubscriberStore::new();
    let body = "name=le%20guin&email=ursula_le_guin%40gmail.com";

    let first = subscribe(&mut store, body.as_bytes());
    let second = subscribe(&mut store, body.as_bytes());

    assert_eq!(first.response.status, 200);
    assert_eq!(second.response.status, 200);
    assert_eq!(store.len(), 2);
    let records = store.records();
    assert_ne!(records[0].id, records[1].id);
    assert_eq!(records[0].email, records[1].email);
}

#[test]
fn subscribe_attributes_every_event_to_the_request() {
    let mut store = SubscriberStore::new();
    let handled = subscribe(&mut store, "name=le%20guin&email=ursula_le_guin%40gmail.com".as_bytes());
    assert!(handled.events.len() > 0);
    for event in &handled.events {
        assert_eq!(event.request_id, handled.context.request_id);
    }
    assert_eq!(handled.context.subscriber_name, "le guin");
    assert_eq!(handled.context.subscriber_email, "ursula_le_guin@gmail.com");
}
