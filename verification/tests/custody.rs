use brain::error::{BrainError, Fault};
use brain::keys::{
    blob_from_b64, blob_to_b64, validate_custody_plaintext, KeyCustody, PlainCustody, ProviderKey,
    MAX_CUSTODY_PLAINTEXT_BYTES,
};
use brain::limits::{ceiling, ceiling_u64, Limits};

#[test]
fn plain_custody_round_trips_and_binds_to_the_session() {
    let c = PlainCustody;
    let key = ProviderKey::new("sk-test-abc123");
    let blob = c.encrypt("ses_a", &key).unwrap();
    assert_ne!(blob, b"sk-test-abc123", "blob must not be the plaintext");
    let back = c.decrypt("ses_a", &blob).unwrap();
    assert_eq!(back.expose(), "sk-test-abc123");
    if let Ok(k) = c.decrypt("ses_b", &blob) {
        assert_ne!(k.expose(), "sk-test-abc123")
    }
}

#[test]
fn b64_round_trip() {
    let blob = vec![0u8, 1, 2, 255];
    assert_eq!(blob_from_b64(&blob_to_b64(&blob)).unwrap(), blob);
}

#[test]
fn b64_text_is_the_standard_padded_encoding() {
    assert_eq!(blob_to_b64(b"hi"), "aGk=");
    assert!(matches!(blob_from_b64("not base64!"), Err(BrainError::Custody(Fault::CustodyBlobNotBase64))));
}

#[test]
fn custody_plaintext_must_be_one_to_four_kib() {
    assert!(validate_custody_plaintext("api_key", "k").is_ok());
    assert!(validate_custody_plaintext("api_key", &"k".repeat(MAX_CUSTODY_PLAINTEXT_BYTES)).is_ok());
    assert!(matches!(
        validate_custody_plaintext("api_key", ""),
        Err(BrainError::Invalid(Fault::CustodyPlaintextSize { label })) if label == "api_key"
    ));
    assert!(validate_custody_plaintext("api_key", &"k".repeat(MAX_CUSTODY_PLAINTEXT_BYTES + 1)).is_err());
}

#[test]
fn a_blob_that_is_not_a_masked_key_is_refused() {
    let c = PlainCustody;
    let mask = c.encrypt("ses_a", &ProviderKey::new("\u{0}")).unwrap();
    // Turn the masked NUL into a lone continuation byte: never valid UTF-8.
    let blob = vec![mask[0] ^ 0x80];
    assert!(matches!(c.decrypt("ses_a", &blob), Err(BrainError::Custody(Fault::CustodyWrongSession))));
}

#[test]
fn limits_default_and_derived_bounds() {
    let limits = Limits::default();
    assert_eq!(limits.max_live_backlog, 1024);
    assert_eq!(limits.tool_deadline_ms(), 120_000);
    assert_eq!(limits.max_turn(), Some(std::time::Duration::from_secs(30 * 60)));
    assert_eq!(limits.max_model(), Some(std::time::Duration::from_secs(120)));
    assert_eq!(limits.max_model_connect(), Some(std::time::Duration::from_secs(10)));
    assert!(limits.validate().is_ok());
    let unbounded = Limits { max_tool_secs: 0, max_turn_secs: 0, max_live_backlog: 0, ..Limits::default() };
    assert_eq!(unbounded.tool_deadline_ms(), u64::MAX / 4);
    assert_eq!(unbounded.max_turn(), None);
    assert_eq!(unbounded.validate().unwrap_err(), "BRAIN_MAX_LIVE_BACKLOG must be at least 1");
    assert_eq!(ceiling(0), usize::MAX);
    assert_eq!(ceiling(7), 7);
    assert_eq!(ceiling_u64(0), u64::MAX);
    assert_eq!(ceiling_u64(9), 9);
}
