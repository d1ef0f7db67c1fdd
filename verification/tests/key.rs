use zero2prod::idempotency::key::IdempotencyKey;
use zero2prod::idempotency::key::ValidationError;
use zero2prod::idempotency::key::MAX_KEY_BYTES;

#[test]
fn a_key_is_taken_as_it_is() {
    let key = IdempotencyKey::parse("  AbC-123 ".to_string()).unwrap();
    assert_eq!(key.as_str(), "  AbC-123 ");
    assert_eq!(key.to_text(), "  AbC-123 ");
    assert!(key.has_text(&"  AbC-123 ".to_string()));
    assert!(!key.has_text(&"abc-123".to_string()));
}

#[test]
fn an_empty_key_is_rejected() {
    let rejected = IdempotencyKey::parse(String::new());
    assert_eq!(rejected.unwrap_err(), ValidationError::Empty);
    assert_eq!(ValidationError::Empty.message(), "The idempotency key cannot be empty");
}

#[test]
fn the_longest_key_has_255_bytes() {
    assert_eq!(MAX_KEY_BYTES, 255);
    assert!(IdempotencyKey::parse("a".repeat(255)).is_ok());
    let rejected = IdempotencyKey::parse("a".repeat(256));
    assert_eq!(rejected.unwrap_err(), ValidationError::TooLong);
    assert_eq!(
        ValidationError::TooLong.message(),
        "The idempotency key must not be longer than 255 bytes"
    );
}

#[test]
fn the_length_of_a_key_is_counted_in_bytes() {
    // Each of these characters takes three bytes.
    assert!(IdempotencyKey::parse("\u{20ac}".repeat(85)).is_ok());
    let rejected = IdempotencyKey::parse("\u{20ac}".repeat(86));
    assert_eq!(rejected.unwrap_err(), ValidationError::TooLong);
}

#[test]
fn a_single_character_is_a_key() {
    assert_eq!(IdempotencyKey::parse("k".to_string()).unwrap().as_str(), "k");
}
