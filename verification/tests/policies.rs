use tress::push::classify_delivery;
use tress::push::DeliveryOutcome;
use tress::push::notification_payload;
use tress::retry::RetryDecision;
use tress::retry::RetryPolicy;

#[test]
fn delivery_classification_boundaries() {
    assert!(matches!(classify_delivery(200), DeliveryOutcome::Delivered));
    assert!(matches!(classify_delivery(201), DeliveryOutcome::Delivered));
    assert!(matches!(classify_delivery(299), DeliveryOutcome::Delivered));
    assert!(matches!(classify_delivery(300), DeliveryOutcome::Failed));
    assert!(matches!(classify_delivery(404), DeliveryOutcome::Failed));
    assert!(matches!(classify_delivery(410), DeliveryOutcome::Invalid));
    assert!(matches!(classify_delivery(500), DeliveryOutcome::Failed));
    assert!(matches!(classify_delivery(199), DeliveryOutcome::Failed));
}

#[test]
fn default_backoff_doubles_then_gives_up() {
    let policy = RetryPolicy::default();
    assert_eq!(policy.decide(0), RetryDecision::Retry(1000));
    assert_eq!(policy.decide(1), RetryDecision::Retry(2000));
    assert_eq!(policy.decide(2), RetryDecision::Retry(4000));
    assert_eq!(policy.decide(3), RetryDecision::GiveUp);
    assert_eq!(policy.decide(17), RetryDecision::GiveUp);
}

#[test]
fn backoff_delay_is_capped() {
    let policy = RetryPolicy { max_retries: 10, base_delay_ms: 40000, max_delay_ms: 60000 };
    assert_eq!(policy.decide(0), RetryDecision::Retry(40000));
    assert_eq!(policy.decide(1), RetryDecision::Retry(60000));
    assert_eq!(policy.decide(9), RetryDecision::Retry(60000));

    let zero = RetryPolicy { max_retries: 2, base_delay_ms: 0, max_delay_ms: 60000 };
    assert_eq!(zero.decide(1), RetryDecision::Retry(0));
}

#[test]
fn payload_holds_id_and_title() {
    let payload = notification_payload(7, "Hello".as_bytes());
    assert_eq!(payload, b"{\"id\":7,\"title\":\"Hello\"}");

    let big = notification_payload(18446744073709551615, "x".as_bytes());
    assert_eq!(big, b"{\"id\":18446744073709551615,\"title\":\"x\"}");
}

#[test]
fn payload_escapes_title() {
    let payload = notification_payload(1, "He said \"hi\"\\ and\nleft\u{1}".as_bytes());
    assert_eq!(
        payload,
        b"{\"id\":1,\"title\":\"He said \\\"hi\\\"\\\\ and\\nleft\\u0001\"}"
    );
    let parsed: serde_json::Value = serde_json::from_slice(&payload).unwrap();
    assert_eq!(parsed["id"], 1);
    assert_eq!(parsed["title"], "He said \"hi\"\\ and\nleft\u{1}");

    let unicode = notification_payload(2, "héllo ☃".as_bytes());
    let parsed: serde_json::Value = serde_json::from_slice(&unicode).unwrap();
    assert_eq!(parsed["title"], "héllo ☃");
}
