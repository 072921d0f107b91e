use alure_sdk::ReceiptVerifier;

use ed25519_dalek::pkcs8::EncodePublicKey;
use ed25519_dalek::Signer;

use base64::engine::general_purpose::URL_SAFE_NO_PAD;
use base64::Engine;
use sha2::Digest;
use sha2::Sha256;

fn b64(s: &str) -> String {
    URL_SAFE_NO_PAD.encode(s.as_bytes())
}

fn sha_hex(s: &str) -> String {
    format!("{:x}", Sha256::digest(s.as_bytes()))
}

fn ms_of(rfc3339: &str) -> i64 {
    chrono::DateTime::parse_from_rfc3339(rfc3339)
        .unwrap()
        .timestamp_millis()
}

fn token_for(device_id: &str, expires_at: Option<&str>, grace: Option<i64>) -> String {
    let mut payload = format!("{{\"device_id_hash\":\"{}\"", sha_hex(device_id));
    if let Some(e) = expires_at {
        payload.push_str(&format!(",\"expires_at\":\"{}\"", e));
    }
    if let Some(g) = grace {
        payload.push_str(&format!(",\"grace_period_days\":{}", g));
    }
    payload.push('}');
    format!("v1.{}.sig", b64(&payload))
}

#[test]
fn parse_reads_payload_fields() {
    let v = ReceiptVerifier::new(None);
    let payload =
        "{\"device_id_hash\":\"abc\",\"expires_at\":\"2030-01-01T00:00:00Z\",\"grace_period_days\":2,\"project_id\":\"proj-9\"}";
    let token = format!("v1.{}.c2ln", b64(payload));
    let p = v.parse(&token).unwrap();
    assert_eq!(p.device_id_hash.as_deref(), Some("abc"));
    assert_eq!(p.expires_at.as_deref(), Some("2030-01-01T00:00:00Z"));
    assert_eq!(p.grace_period_days, Some(2));
    assert_eq!(p.project_id.as_deref(), Some("proj-9"));
}

#[test]
fn parse_is_deterministic() {
    let v = ReceiptVerifier::new(None);
    let token = token_for("dev-1", Some("2030-01-01T00:00:00Z"), Some(3));
    let a = v.parse(&token).unwrap();
    let b = v.parse(&token).unwrap();
    assert_eq!(a.device_id_hash, b.device_id_hash);
    assert_eq!(a.expires_at, b.expires_at);
    assert_eq!(a.grace_period_days, b.grace_period_days);
    assert_eq!(a.project_id, b.project_id);
}

#[test]
fn parse_rejects_bad_shapes() {
    let v = ReceiptVerifier::new(None);
    for bad in ["", "x", "v1", "v1.a", "v2.a.b", "v1.a.b.c", "no.dots.v1.here"] {
        let e = v.parse(bad).unwrap_err();
        assert_eq!(e.0, "invalid_receipt_format", "token {:?}", bad);
    }
}

#[test]
fn parse_rejects_bad_payloads() {
    let v = ReceiptVerifier::new(None);
    let e = v.parse("v1.###.sig").unwrap_err();
    assert_eq!(e.0, "invalid_receipt_payload");
    let not_json = format!("v1.{}.sig", b64("not json at all"));
    let e = v.parse(&not_json).unwrap_err();
    assert_eq!(e.0, "invalid_receipt_payload");
}

#[test]
fn validate_never_fails_on_malformed_tokens() {
    let v = ReceiptVerifier::new(None);
    for bad in ["", "v2.a.b", "v1.a.b.c"] {
        let r = v.validate_offline(bad, "dev-1", Some(0), false);
        assert!(!r.valid);
        assert_eq!(r.reason.as_deref(), Some("invalid_receipt_format"));
        assert_eq!(r.expires_at, None);
        assert_eq!(r.grace_period_days, None);
    }
}

#[test]
fn device_binding_holds() {
    let v = ReceiptVerifier::new(None);
    let token = token_for("dev-1", None, None);
    let ok = v.validate_offline(&token, "dev-1", Some(0), false);
    assert!(ok.valid);
    assert_eq!(ok.reason, None);
    assert_eq!(ok.grace_period_days, Some(0));
    let bad = v.validate_offline(&token, "dev-2", Some(0), false);
    assert!(!bad.valid);
    assert_eq!(bad.reason.as_deref(), Some("device_mismatch"));
}

#[test]
fn expiry_boundary_is_exclusive() {
    let v = ReceiptVerifier::new(None);
    let exp = "2020-06-01T00:00:00Z";
    let t = ms_of(exp);
    let token = token_for("dev-1", Some(exp), Some(0));
    let at = v.validate_offline(&token, "dev-1", Some(t), false);
    assert!(at.valid);
    assert_eq!(at.reason, None);
    assert_eq!(at.expires_at.as_deref(), Some(exp));
    assert_eq!(at.grace_period_days, Some(0));
    let after = v.validate_offline(&token, "dev-1", Some(t + 1000), false);
    assert!(!after.valid);
    assert_eq!(after.reason.as_deref(), Some("expired"));
    assert_eq!(after.expires_at.as_deref(), Some(exp));
    assert_eq!(after.grace_period_days, Some(0));
}

#[test]
fn grace_period_is_valid_but_flagged() {
    let v = ReceiptVerifier::new(None);
    let exp = "2020-06-01T00:00:00Z";
    let t = ms_of(exp);
    let day = 86_400_000;
    let token = token_for("dev-1", Some(exp), Some(5));
    let within = v.validate_offline(&token, "dev-1", Some(t + 3 * day), false);
    assert!(within.valid);
    assert_eq!(within.reason.as_deref(), Some("grace_period"));
    assert_eq!(within.grace_period_days, Some(5));
    let past = v.validate_offline(&token, "dev-1", Some(t + 6 * day), false);
    assert!(!past.valid);
    assert_eq!(past.reason.as_deref(), Some("expired"));
    assert_eq!(past.expires_at.as_deref(), Some(exp));
    assert_eq!(past.grace_period_days, Some(5));
}

#[test]
fn unparsable_expiry_means_no_expiry() {
    let v = ReceiptVerifier::new(None);
    let token = token_for("dev-1", Some("not a timestamp"), Some(1));
    let r = v.validate_offline(&token, "dev-1", Some(0), false);
    assert!(r.valid);
    assert_eq!(r.reason, None);
    assert_eq!(r.expires_at.as_deref(), Some("not a timestamp"));
    assert_eq!(r.grace_period_days, Some(1));
}

#[test]
fn missing_key_is_a_verdict_not_a_failure() {
    let v = ReceiptVerifier::new(None);
    let token = token_for("dev-1", None, None);
    let r = v.validate_offline(&token, "dev-1", Some(0), true);
    assert!(!r.valid);
    assert_eq!(r.reason.as_deref(), Some("public_key_required"));
    let e = v.verify_signature(&token).unwrap_err();
    assert_eq!(e.0, "public_key_required");
}

#[test]
fn signature_errors_carry_their_codes() {
    let v = ReceiptVerifier::new(Some("not a pem".to_string()));
    assert!(!v.verify_signature("not.a.token.at.all").unwrap());
    let bad_b64 = "v1.cGF5bG9hZA.###";
    let e = v.verify_signature(bad_b64).unwrap_err();
    assert_eq!(e.0, "invalid_signature");
    let short_sig = format!("v1.cGF5bG9hZA.{}", URL_SAFE_NO_PAD.encode([1u8, 2, 3]));
    let e = v.verify_signature(&short_sig).unwrap_err();
    assert_eq!(e.0, "invalid_signature");
    let sig64 = URL_SAFE_NO_PAD.encode([0u8; 64]);
    let bad_key = format!("v1.cGF5bG9hZA.{}", sig64);
    let e = v.verify_signature(&bad_key).unwrap_err();
    assert_eq!(e.0, "invalid_public_key");
}

#[test]
fn real_signature_round_trip() {
    let signing = ed25519_dalek::SigningKey::from_bytes(&[7u8; 32]);
    let pem = signing
        .verifying_key()
        .to_public_key_pem(Default::default())
        .unwrap();
    let payload = format!("{{\"device_id_hash\":\"{}\"}}", sha_hex("dev-1"));
    let seg = b64(&payload);
    let sig = signing.sign(seg.as_bytes());
    let token = format!("v1.{}.{}", seg, URL_SAFE_NO_PAD.encode(sig.to_bytes()));
    let v = ReceiptVerifier::new(Some(pem));
    assert!(v.verify_signature(&token).unwrap());
    let r = v.validate_offline(&token, "dev-1", Some(0), true);
    assert!(r.valid);
    assert_eq!(r.reason, None);
    // a different payload under the same signature must not verify
    let other = format!("v1.{}.{}", b64("{}"), URL_SAFE_NO_PAD.encode(sig.to_bytes()));
    assert!(!v.verify_signature(&other).unwrap());
    let bad = v.validate_offline(&other, "dev-1", Some(0), true);
    assert!(!bad.valid);
    assert_eq!(bad.reason.as_deref(), Some("invalid_signature"));
}

#[test]
fn end_to_end_expired_scenario() {
    let payload = format!(
        "{{\"device_id_hash\":\"{}\",\"expires_at\":\"2020-01-01T00:00:00Z\",\"grace_period_days\":0}}",
        sha_hex("dev-1")
    );
    let token = format!("v1.{}.sig", b64(&payload));
    let v = ReceiptVerifier::new(None);
    let reference = ms_of("2021-01-01T00:00:00Z");
    let r = v.validate_offline(&token, "dev-1", Some(reference), false);
    assert!(!r.valid);
    assert_eq!(r.reason.as_deref(), Some("expired"));
    assert_eq!(r.expires_at.as_deref(), Some("2020-01-01T00:00:00Z"));
    assert_eq!(r.grace_period_days, Some(0));
}
