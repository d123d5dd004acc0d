use order_relay::store::OrderStore;
use order_relay::webhook::{process_webhook, webhook_ack_json, WebhookOutcome};

const SECRET: &[u8] = b"test-private-key";

fn sign(body: &str) -> String {
    let mut mac = <hmac::Hmac<sha2::Sha256> as hmac::KeyInit>::new_from_slice(SECRET).unwrap();
    hmac::Mac::update(&mut mac, body.as_bytes());
    hex::encode(hmac::Mac::finalize(mac).into_bytes())
}

#[test]
fn status_change_inserts_new_record() {
    let mut store = OrderStore::new();
    let body = "{\"event\":\"order.status.changed\",\"data\":{\"uuid\":\"abc\",\"status\":\"received\"}}";
    let sig = sign(body);
    let outcome = process_webhook(&mut store, SECRET, Some(&sig), body);
    assert_eq!(outcome.status_code(), 200);
    assert!(matches!(outcome, WebhookOutcome::Updated { .. }));
    assert_eq!(store.lookup(&"abc".to_string()), Some("received".to_string()));
}

#[test]
fn repeated_status_change_overwrites_without_duplicate() {
    let mut store = OrderStore::new();
    let first = "{\"event\":\"order.status.changed\",\"data\":{\"uuid\":\"abc\",\"status\":\"created\"}}";
    let second = "{\"event\":\"order.status.changed\",\"data\":{\"uuid\":\"abc\",\"status\":\"received\"}}";
    let s1 = sign(first);
    let s2 = sign(second);
    process_webhook(&mut store, SECRET, Some(&s1), first);
    process_webhook(&mut store, SECRET, Some(&s2), second);
    assert_eq!(store.lookup(&"abc".to_string()), Some("received".to_string()));
    assert_eq!(
        store.dump_json(),
        "{\"abc\":{\"uuid\":\"abc\",\"status\":\"received\"}}"
    );
}

#[test]
fn bad_signature_returns_403_and_mutates_nothing() {
    let mut store = OrderStore::new();
    let body = "{\"event\":\"order.status.changed\",\"data\":{\"uuid\":\"abc\",\"status\":\"received\"}}";
    let mut sig = sign(body).into_bytes();
    sig[0] ^= 0x01;
    let sig = String::from_utf8(sig).unwrap();
    let outcome = process_webhook(&mut store, SECRET, Some(&sig), body);
    assert!(matches!(outcome, WebhookOutcome::BadSignature));
    assert_eq!(outcome.status_code(), 403);
    assert_eq!(store.dump_json(), "{}");
}

#[test]
fn missing_header_returns_400() {
    let mut store = OrderStore::new();
    let body = "{\"event\":\"order.status.changed\",\"data\":{\"uuid\":\"abc\",\"status\":\"received\"}}";
    let outcome = process_webhook(&mut store, SECRET, None, body);
    assert!(matches!(outcome, WebhookOutcome::MissingHeader));
    assert_eq!(outcome.status_code(), 400);
    assert_eq!(store.dump_json(), "{}");
}

#[test]
fn unrecognized_event_returns_200_and_leaves_store() {
    let mut store = OrderStore::new();
    let body = "{\"event\":\"order.refund.requested\",\"data\":{\"uuid\":\"abc\",\"status\":\"x\"}}";
    let sig = sign(body);
    let outcome = process_webhook(&mut store, SECRET, Some(&sig), body);
    assert!(matches!(outcome, WebhookOutcome::Ignored));
    assert_eq!(outcome.status_code(), 200);
    assert_eq!(store.dump_json(), "{}");
}

#[test]
fn missing_event_field_is_acknowledged() {
    let mut store = OrderStore::new();
    let body = "{\"data\":{\"uuid\":\"abc\",\"status\":\"x\"}}";
    let sig = sign(body);
    let outcome = process_webhook(&mut store, SECRET, Some(&sig), body);
    assert!(matches!(outcome, WebhookOutcome::Ignored));
    assert_eq!(outcome.status_code(), 200);
    assert_eq!(store.dump_json(), "{}");
}

#[test]
fn malformed_json_returns_400() {
    let mut store = OrderStore::new();
    let body = "{\"event\": not json";
    let sig = sign(body);
    let outcome = process_webhook(&mut store, SECRET, Some(&sig), body);
    assert!(matches!(outcome, WebhookOutcome::MalformedBody));
    assert_eq!(outcome.status_code(), 400);
    assert_eq!(store.dump_json(), "{}");
}

#[test]
fn status_change_without_uuid_returns_400() {
    let mut store = OrderStore::new();
    let body = "{\"event\":\"order.status.changed\",\"data\":{\"status\":\"received\"}}";
    let sig = sign(body);
    let outcome = process_webhook(&mut store, SECRET, Some(&sig), body);
    assert!(matches!(outcome, WebhookOutcome::MissingField));
    assert_eq!(outcome.status_code(), 400);
    assert_eq!(store.dump_json(), "{}");
}

#[test]
fn status_change_with_non_string_status_returns_400() {
    let mut store = OrderStore::new();
    let body = "{\"event\":\"order.status.changed\",\"data\":{\"uuid\":\"abc\",\"status\":7}}";
    let sig = sign(body);
    let outcome = process_webhook(&mut store, SECRET, Some(&sig), body);
    assert!(matches!(outcome, WebhookOutcome::MissingField));
    assert_eq!(outcome.status_code(), 400);
    assert_eq!(store.dump_json(), "{}");
}

#[test]
fn ack_body_is_fixed_json() {
    assert_eq!(
        webhook_ack_json(),
        "{\"status\":\"Webhook received successfully\"}"
    );
    let value: serde_json::Value = serde_json::from_str(&webhook_ack_json()).unwrap();
    assert!(value.is_object());
}
