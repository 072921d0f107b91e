//! Receipt tokens: parsing, signature verification, offline validation.
//!
//! A token has the wire form `v1.<payload>.<signature>`: exactly two dots,
//! the literal version tag first, and both segments unpadded URL-safe
//! base64. The decoded payload is a JSON document; the fields this library
//! interprets are modelled by [`ReceiptPayload`]. Validation is a pure
//! function of the token, the device identity, the reference time and the
//! configured key; it never fails, it classifies.

use vstd::prelude::*;

use crate::errors::ReceiptError;
use crate::outside::b64url_decode;
use crate::outside::b64url_decoded;
use crate::outside::chars_of;
use crate::outside::ed25519_check;
use crate::outside::ed25519_verifies;
use crate::outside::now_unix_ms;
use crate::outside::parse_rfc3339_ms;
use crate::outside::pem_is_ed25519_key;
use crate::outside::rfc3339_ms_of;
use crate::outside::sha256_hex;
use crate::outside::sha256_hex_of;
use crate::outside::string_of;
use crate::outside::SignatureCheck;
use crate::version_tag;
use vstd::slice::slice_subrange;

verus! {

broadcast use vstd::string::group_string_axioms;

/// How many milliseconds one grace day adds past `expires_at`.
pub const MS_PER_DAY: i64 = 86400000;

/// View of an optional string as an optional character sequence.
pub open spec fn opt_view(o: Option<String>) -> Option<Seq<char>> {
    match o {
        Some(s) => Some(s@),
        None => None,
    }
}

/// The payload fields of a receipt that this library interprets. Everything
/// else the server put in the payload stays in the token itself, which is
/// never mutated.
#[derive(Debug, Clone)]
pub struct ReceiptPayload {
    /// Lowercase hex SHA-256 digest of the device id the receipt was issued
    /// for.
    pub device_id_hash: Option<String>,
    /// RFC-3339 expiry timestamp; absence means the receipt never expires.
    pub expires_at: Option<String>,
    /// Days past `expires_at` during which the receipt is still usable.
    pub grace_period_days: Option<i64>,
    /// The licensed project, purely informational.
    pub project_id: Option<String>,
}

/// Mathematical view of [`ReceiptPayload`].
#[verifier::ext_equal]
pub struct ReceiptPayloadView {
    pub device_id_hash: Option<Seq<char>>,
    pub expires_at: Option<Seq<char>>,
    pub grace_period_days: Option<int>,
    pub project_id: Option<Seq<char>>,
}

impl View for ReceiptPayload {
    type V = ReceiptPayloadView;

    open spec fn view(&self) -> ReceiptPayloadView {
        ReceiptPayloadView {
            device_id_hash: opt_view(self.device_id_hash),
            expires_at: opt_view(self.expires_at),
            grace_period_days: match self.grace_period_days {
                Some(g) => Some(g as int),
                None => None,
            },
            project_id: opt_view(self.project_id),
        }
    }
}

/// The interpreted fields serde_json reads out of a JSON document: `None`
/// exactly where the bytes are not a valid JSON document; a field is `Some`
/// exactly where the document is an object carrying that key with a value of
/// the matching type.
pub uninterp spec fn json_payload_of(bytes: Seq<u8>) -> Option<ReceiptPayloadView>;

/// Relies on serde_json::from_slice and Value::{get, as_str, as_i64}: the
/// parse and the field reads are functions of the document bytes alone.
#[verifier::external_body]
fn decode_payload(bytes: &[u8]) -> (r: Option<ReceiptPayload>)
    ensures
        r is Some <==> json_payload_of(bytes@) is Some,
        r is Some ==> r.unwrap()@ == json_payload_of(bytes@).unwrap(),
{
    let value: serde_json::Value = serde_json::from_slice(bytes).ok()?;
    Some(ReceiptPayload {
        device_id_hash: value.get("device_id_hash").and_then(|v| v.as_str()).map(str::to_string),
        expires_at: value.get("expires_at").and_then(|v| v.as_str()).map(str::to_string),
        grace_period_days: value.get("grace_period_days").and_then(|v| v.as_i64()),
        project_id: value.get("project_id").and_then(|v| v.as_str()).map(str::to_string),
    })
}

/// Verdict of an offline validation. `valid` with `reason` of
/// `grace_period` is a degraded but usable state; `valid` with no reason is
/// fully current.
#[derive(Debug, Clone)]
pub struct ReceiptValidationResult {
    pub valid: bool,
    pub reason: Option<String>,
    pub expires_at: Option<String>,
    pub grace_period_days: Option<i64>,
}

/// Mathematical view of [`ReceiptValidationResult`].
#[verifier::ext_equal]
pub struct VerdictView {
    pub valid: bool,
    pub reason: Option<Seq<char>>,
    pub expires_at: Option<Seq<char>>,
    pub grace_period_days: Option<int>,
}

impl View for ReceiptValidationResult {
    type V = VerdictView;

    open spec fn view(&self) -> VerdictView {
        VerdictView {
            valid: self.valid,
            reason: opt_view(self.reason),
            expires_at: opt_view(self.expires_at),
            grace_period_days: match self.grace_period_days {
                Some(g) => Some(g as int),
                None => None,
            },
        }
    }
}

/// Index of the first `.` at or after `i`, or the length where there is
/// none.
pub open spec fn find_dot(s: Seq<char>, i: int) -> int
    decreases s.len() - i,
{
    if i < 0 || i >= s.len() {
        s.len() as int
    } else if s[i] == '.' {
        i
    } else {
        find_dot(s, i + 1)
    }
}

pub proof fn lemma_find_dot_bounds(s: Seq<char>, i: int)
    requires
        0 <= i <= s.len(),
    ensures
        i <= find_dot(s, i) <= s.len(),
    decreases s.len() - i,
{
    if i < s.len() && s[i] != '.' {
        lemma_find_dot_bounds(s, i + 1);
    }
}

/// Index of the dot ending the version tag.
pub open spec fn token_dot1(t: Seq<char>) -> int {
    find_dot(t, 0)
}

/// Index of the dot ending the payload segment.
pub open spec fn token_dot2(t: Seq<char>) -> int {
    find_dot(t, token_dot1(t) + 1)
}

/// Whether the token has the wire form `v1.<payload>.<signature>`: exactly
/// two dots, and the version tag before the first.
pub open spec fn token_shape_ok(t: Seq<char>) -> bool {
    let d1 = token_dot1(t);
    let d2 = token_dot2(t);
    &&& d1 < t.len()
    &&& d2 < t.len()
    &&& find_dot(t, d2 + 1) == t.len()
    &&& t.subrange(0, d1) == version_tag()
}

/// The payload segment: between the two dots, still base64.
pub open spec fn token_payload_seg(t: Seq<char>) -> Seq<char> {
    t.subrange(token_dot1(t) + 1, token_dot2(t))
}

/// The signature segment: after the second dot, still base64.
pub open spec fn token_signature_seg(t: Seq<char>) -> Seq<char> {
    t.subrange(token_dot2(t) + 1, t.len() as int)
}

/// What `parse` returns: the interpreted payload, or the stable code of the
/// failure. A malformed shape is `invalid_receipt_format`; a payload segment
/// that does not decode as base64, or whose bytes are not a JSON document,
/// is `invalid_receipt_payload`.
pub open spec fn spec_parse(t: Seq<char>) -> Result<ReceiptPayloadView, Seq<char>> {
    if !token_shape_ok(t) {
        Err("invalid_receipt_format"@)
    } else {
        match b64url_decoded(token_payload_seg(t)) {
            None => Err("invalid_receipt_payload"@),
            Some(bytes) => match json_payload_of(bytes) {
                None => Err("invalid_receipt_payload"@),
                Some(p) => Ok(p),
            },
        }
    }
}

/// What `verify_signature` returns, as a function of the configured key and
/// the token. A missing key is an error; a malformed token shape is merely
/// an unverified signature; a signature segment that does not decode to 64
/// bytes is `invalid_signature`; a key that does not parse is
/// `invalid_public_key`; otherwise the Ed25519 verdict over the raw payload
/// segment text.
pub open spec fn spec_verify_signature(pem: Option<Seq<char>>, t: Seq<char>) -> Result<
    bool,
    Seq<char>,
> {
    match pem {
        None => Err("public_key_required"@),
        Some(pem) => {
            if !token_shape_ok(t) {
                Ok(false)
            } else {
                match b64url_decoded(token_signature_seg(t)) {
                    None => Err("invalid_signature"@),
                    Some(sig) => {
                        if sig.len() != 64 {
                            Err("invalid_signature"@)
                        } else if !pem_is_ed25519_key(pem) {
                            Err("invalid_public_key"@)
                        } else {
                            Ok(ed25519_verifies(pem, token_payload_seg(t), sig))
                        }
                    },
                }
            }
        },
    }
}

/// An invalid verdict carrying only its reason code.
pub open spec fn invalid_verdict(code: Seq<char>) -> VerdictView {
    VerdictView { valid: false, reason: Some(code), expires_at: None, grace_period_days: None }
}

/// A valid, fully current verdict echoing expiry and grace period.
pub open spec fn current_verdict(expires_at: Option<Seq<char>>, grace: int) -> VerdictView {
    VerdictView { valid: true, reason: None, expires_at, grace_period_days: Some(grace) }
}

/// The time rule, applied after parsing, signature and device binding have
/// passed. Past expiry but within `grace_period_days` whole days of it is
/// the degraded `grace_period` state; further past is `expired`; a missing
/// or unparsable expiry never expires.
pub open spec fn expiry_verdict(p: ReceiptPayloadView, now_ms: int) -> VerdictView {
    let grace = match p.grace_period_days {
        Some(g) => g,
        None => 0,
    };
    match p.expires_at {
        Some(e) => match rfc3339_ms_of(e) {
            Some(exp) => if now_ms > exp {
                if now_ms > exp + grace * (MS_PER_DAY as int) {
                    VerdictView {
                        valid: false,
                        reason: Some("expired"@),
                        expires_at: Some(e),
                        grace_period_days: Some(grace),
                    }
                } else {
                    VerdictView {
                        valid: true,
                        reason: Some("grace_period"@),
                        expires_at: Some(e),
                        grace_period_days: Some(grace),
                    }
                }
            } else {
                current_verdict(Some(e), grace)
            },
            None => current_verdict(Some(e), grace),
        },
        None => current_verdict(None, grace),
    }
}

/// What `validate_offline` returns, step by step: parse, then (if required)
/// the signature, then device binding, then the time rule. Every failure is
/// a verdict, never an error.
pub open spec fn spec_validate(
    pem: Option<Seq<char>>,
    t: Seq<char>,
    device_id: Seq<char>,
    now_ms: int,
    require_sig: bool,
) -> VerdictView {
    match spec_parse(t) {
        Err(code) => invalid_verdict(code),
        Ok(p) => if require_sig && spec_verify_signature(pem, t) != Ok::<bool, Seq<char>>(true) {
            match spec_verify_signature(pem, t) {
                Ok(_) => invalid_verdict("invalid_signature"@),
                Err(code) => invalid_verdict(code),
            }
        } else if p.device_id_hash != Some(sha256_hex_of(device_id)) {
            invalid_verdict("device_mismatch"@)
        } else {
            expiry_verdict(p, now_ms)
        },
    }
}

/// Stateless validator of receipt tokens, configured with at most a
/// PEM-encoded Ed25519 public key.
#[derive(Debug, Clone)]
pub struct ReceiptVerifier {
    public_key_pem: Option<String>,
}

impl ReceiptVerifier {
    /// The configured key material.
    pub closed spec fn spec_pem(&self) -> Option<Seq<char>> {
        opt_view(self.public_key_pem)
    }

    pub fn new(public_key_pem: Option<String>) -> (r: Self)
        ensures
            r.spec_pem() == opt_view(public_key_pem),
    {
        ReceiptVerifier { public_key_pem }
    }

    /// Splits and decodes the token. The sole parsing entry point: every
    /// other operation goes through it first.
    pub fn parse(&self, token: &str) -> (r: Result<ReceiptPayload, ReceiptError>)
        ensures
            match spec_parse(token@) {
                Ok(p) => r is Ok && r.unwrap()@ == p,
                Err(code) => r is Err && r.unwrap_err().0@ == code,
            },
    {
        let chars = chars_of(token);
        if !token_shape_check(&chars) {
            return Err(ReceiptError::new("invalid_receipt_format"));
        }
        let payload_seg = payload_segment(&chars);
        let bytes = match b64url_decode(payload_seg.as_str()) {
            Some(bytes) => bytes,
            None => {
                return Err(ReceiptError::new("invalid_receipt_payload"));
            },
        };
        match decode_payload(bytes.as_slice()) {
            Some(p) => Ok(p),
            None => Err(ReceiptError::new("invalid_receipt_payload")),
        }
    }

    /// Verifies the Ed25519 signature over the raw text of the payload
    /// segment, with the configured key.
    pub fn verify_signature(&self, token: &str) -> (r: Result<bool, ReceiptError>)
        ensures
            match spec_verify_signature(self.spec_pem(), token@) {
                Ok(b) => r is Ok && r.unwrap() == b,
                Err(code) => r is Err && r.unwrap_err().0@ == code,
            },
    {
        let pem = match &self.public_key_pem {
            Some(pem) => pem,
            None => {
                return Err(ReceiptError::new("public_key_required"));
            },
        };
        let chars = chars_of(token);
        if !token_shape_check(&chars) {
            return Ok(false);
        }
        let sig_seg = signature_segment(&chars);
        let sig = match b64url_decode(sig_seg.as_str()) {
            Some(sig) => sig,
            None => {
                return Err(ReceiptError::new("invalid_signature"));
            },
        };
        let payload_seg = payload_segment(&chars);
        match ed25519_check(pem.as_str(), payload_seg.as_str(), sig.as_slice()) {
            SignatureCheck::BadSignatureLength => Err(ReceiptError::new("invalid_signature")),
            SignatureCheck::BadPublicKey => Err(ReceiptError::new("invalid_public_key")),
            SignatureCheck::Checked(ok) => Ok(ok),
        }
    }

    /// Classifies the token against the device identity and the reference
    /// time (wall clock where none is injected). Never fails: every failure
    /// mode is a verdict with a stable reason code.
    pub fn validate_offline(
        &self,
        token: &str,
        device_id: &str,
        now: Option<i64>,
        verify_signature: bool,
    ) -> (r: ReceiptValidationResult)
        ensures
            now matches Some(t) ==> r@ == spec_validate(
                self.spec_pem(),
                token@,
                device_id@,
                t as int,
                verify_signature,
            ),
            now is None ==> exists|t: int|
                r@ == spec_validate(self.spec_pem(), token@, device_id@, t, verify_signature),
    {
        let now_ms: i64 = match now {
            Some(t) => t,
            None => now_unix_ms(),
        };
        let r = self.validate_at(token, device_id, now_ms, verify_signature);
        proof {
            assert(r@ == spec_validate(
                self.spec_pem(),
                token@,
                device_id@,
                now_ms as int,
                verify_signature,
            ));
        }
        r
    }

    /// The validation rule at one concrete reference time.
    fn validate_at(
        &self,
        token: &str,
        device_id: &str,
        now_ms: i64,
        verify_signature: bool,
    ) -> (r: ReceiptValidationResult)
        ensures
            r@ == spec_validate(
                self.spec_pem(),
                token@,
                device_id@,
                now_ms as int,
                verify_signature,
            ),
    {
        let payload = match self.parse(token) {
            Ok(payload) => payload,
            Err(err) => {
                return ReceiptValidationResult {
                    valid: false,
                    reason: Some(err.0),
                    expires_at: None,
                    grace_period_days: None,
                };
            },
        };
        if verify_signature {
            match self.verify_signature(token) {
                Ok(true) => {},
                Ok(false) => {
                    return ReceiptValidationResult {
                        valid: false,
                        reason: Some("invalid_signature".to_owned()),
                        expires_at: None,
                        grace_period_days: None,
                    };
                },
                Err(err) => {
                    return ReceiptValidationResult {
                        valid: false,
                        reason: Some(err.0),
                        expires_at: None,
                        grace_period_days: None,
                    };
                },
            }
        }
        let device_hash = sha256_hex(device_id);
        let hash_matches = match &payload.device_id_hash {
            Some(h) => *h == device_hash,
            None => false,
        };
        if !hash_matches {
            return ReceiptValidationResult {
                valid: false,
                reason: Some("device_mismatch".to_owned()),
                expires_at: None,
                grace_period_days: None,
            };
        }
        let grace: i64 = match payload.grace_period_days {
            Some(g) => g,
            None => 0,
        };
        match payload.expires_at {
            Some(expires) => match parse_rfc3339_ms(expires.as_str()) {
                Some(exp) => {
                    if now_ms > exp {
                        let limit: i128 = (exp as i128) + (grace as i128) * (MS_PER_DAY as i128);
                        if (now_ms as i128) > limit {
                            ReceiptValidationResult {
                                valid: false,
                                reason: Some("expired".to_owned()),
                                expires_at: Some(expires),
                                grace_period_days: Some(grace),
                            }
                        } else {
                            ReceiptValidationResult {
                                valid: true,
                                reason: Some("grace_period".to_owned()),
                                expires_at: Some(expires),
                                grace_period_days: Some(grace),
                            }
                        }
                    } else {
                        ReceiptValidationResult {
                            valid: true,
                            reason: None,
                            expires_at: Some(expires),
                            grace_period_days: Some(grace),
                        }
                    }
                },
                None => ReceiptValidationResult {
                    valid: true,
                    reason: None,
                    expires_at: Some(expires),
                    grace_period_days: Some(grace),
                },
            },
            None => ReceiptValidationResult {
                valid: true,
                reason: None,
                expires_at: None,
                grace_period_days: Some(grace),
            },
        }
    }
}

/// Parsing is deterministic and idempotent: any two results that meet
/// `parse`'s contract on the same token — and so the results of any two
/// calls of it — are equal.
pub proof fn lemma_parse_deterministic(
    t: Seq<char>,
    r1: Result<ReceiptPayloadView, Seq<char>>,
    r2: Result<ReceiptPayloadView, Seq<char>>,
)
    requires
        r1 == spec_parse(t),
        r2 == spec_parse(t),
    ensures
        r1 == r2,
{
}

/// A token without the `v1.<b64>.<b64>` shape never parses and never
/// validates: `parse` fails with the format code, and offline validation at
/// any time, for any device, key and signature demand, returns an invalid
/// verdict carrying that code — never a failure.
pub proof fn lemma_malformed_token_rejected(
    pem: Option<Seq<char>>,
    t: Seq<char>,
    device_id: Seq<char>,
    now_ms: int,
    require_sig: bool,
)
    requires
        !token_shape_ok(t),
    ensures
        spec_parse(t) == Err::<ReceiptPayloadView, Seq<char>>("invalid_receipt_format"@),
        spec_validate(pem, t, device_id, now_ms, require_sig) == invalid_verdict(
            "invalid_receipt_format"@,
        ),
{
}

/// Device binding: a parsed receipt carrying the hash of device `d1` never
/// reports a device mismatch when validated for `d1`; validated for a device
/// `d2` whose hash differs (and with no signature demanded, which would be
/// judged first), it always does.
pub proof fn lemma_device_binding(
    pem: Option<Seq<char>>,
    t: Seq<char>,
    d1: Seq<char>,
    d2: Seq<char>,
    now_ms: int,
    require_sig: bool,
)
    requires
        spec_parse(t) is Ok,
        spec_parse(t)->Ok_0.device_id_hash == Some(sha256_hex_of(d1)),
    ensures
        spec_validate(pem, t, d1, now_ms, require_sig).reason != Some("device_mismatch"@),
        sha256_hex_of(d2) != sha256_hex_of(d1) ==> spec_validate(pem, t, d2, now_ms, false)
            == invalid_verdict("device_mismatch"@),
        sha256_hex_of(d2) != sha256_hex_of(d1) && spec_verify_signature(pem, t) == Ok::<
            bool,
            Seq<char>,
        >(true) ==> spec_validate(pem, t, d2, now_ms, require_sig) == invalid_verdict(
            "device_mismatch"@,
        ),
{
    reveal_strlit("device_mismatch");
    reveal_strlit("invalid_signature");
    reveal_strlit("invalid_public_key");
    reveal_strlit("public_key_required");
    reveal_strlit("grace_period");
    reveal_strlit("expired");
    assert("device_mismatch"@.len() == 15);
    assert("invalid_signature"@.len() == 17);
    assert("invalid_public_key"@.len() == 18);
    assert("public_key_required"@.len() == 19);
    assert("grace_period"@.len() == 12);
    assert("expired"@.len() == 7);
    let p = spec_parse(t)->Ok_0;
    if require_sig && spec_verify_signature(pem, t) != Ok::<bool, Seq<char>>(true) {
        match spec_verify_signature(pem, t) {
            Ok(_) => {
                assert("invalid_signature"@ != "device_mismatch"@);
            },
            Err(code) => {
                assert(code == "public_key_required"@ || code == "invalid_signature"@ || code
                    == "invalid_public_key"@);
                assert(code != "device_mismatch"@);
            },
        }
    } else {
        assert(expiry_verdict(p, now_ms).reason != Some("device_mismatch"@));
    }
}

/// The time rule, for a receipt whose other checks pass: not yet past
/// expiry is fully current; past expiry but within the grace window is the
/// degraded `grace_period` state; past the grace window is `expired`.
pub proof fn lemma_time_rule(
    pem: Option<Seq<char>>,
    t: Seq<char>,
    device_id: Seq<char>,
    e: Seq<char>,
    exp: int,
    g: int,
    now_ms: int,
)
    requires
        spec_parse(t) is Ok,
        spec_parse(t)->Ok_0.device_id_hash == Some(sha256_hex_of(device_id)),
        spec_parse(t)->Ok_0.expires_at == Some(e),
        spec_parse(t)->Ok_0.grace_period_days == Some(g),
        rfc3339_ms_of(e) == Some(exp),
    ensures
        now_ms <= exp ==> spec_validate(pem, t, device_id, now_ms, false) == current_verdict(
            Some(e),
            g,
        ),
        exp < now_ms <= exp + g * (MS_PER_DAY as int) ==> spec_validate(
            pem,
            t,
            device_id,
            now_ms,
            false,
        ) == (VerdictView {
            valid: true,
            reason: Some("grace_period"@),
            expires_at: Some(e),
            grace_period_days: Some(g),
        }),
        now_ms > exp && now_ms > exp + g * (MS_PER_DAY as int) ==> spec_validate(
            pem,
            t,
            device_id,
            now_ms,
            false,
        ) == (VerdictView {
            valid: false,
            reason: Some("expired"@),
            expires_at: Some(e),
            grace_period_days: Some(g),
        }),
{
}

/// Demanding a signature with no configured key yields the missing-key
/// verdict on any parseable token — a verdict, never a failure.
pub proof fn lemma_signature_requires_key(t: Seq<char>, device_id: Seq<char>, now_ms: int)
    requires
        spec_parse(t) is Ok,
    ensures
        spec_validate(None, t, device_id, now_ms, true) == invalid_verdict(
            "public_key_required"@,
        ),
{
}

/// Index of the first `.` at or after `from`.
fn find_dot_from(v: &Vec<char>, from: usize) -> (r: usize)
    requires
        from <= v@.len(),
    ensures
        r == find_dot(v@, from as int),
        from <= r <= v@.len(),
{
    let mut i = from;
    while i < v.len()
        invariant
            from <= i <= v@.len(),
            find_dot(v@, from as int) == find_dot(v@, i as int),
        decreases v@.len() - i,
    {
        if v[i] == '.' {
            return i;
        }
        i = i + 1;
    }
    i
}

/// Whether the characters have the `v1.<payload>.<signature>` shape.
fn token_shape_check(v: &Vec<char>) -> (b: bool)
    ensures
        b == token_shape_ok(v@),
{
    let d1 = find_dot_from(v, 0);
    if d1 >= v.len() {
        return false;
    }
    let d2 = find_dot_from(v, d1 + 1);
    if d2 >= v.len() {
        return false;
    }
    let d3 = find_dot_from(v, d2 + 1);
    if d3 < v.len() {
        return false;
    }
    let tag_ok = d1 == 2 && v[0] == 'v' && v[1] == '1';
    proof {
        reveal_strlit("v1");
        if tag_ok {
            assert(v@.subrange(0, d1 as int) =~= version_tag());
        } else if d1 == 2 {
            assert(v@.subrange(0, 2)[0] == v@[0]);
            assert(v@.subrange(0, 2)[1] == v@[1]);
            assert(v@.subrange(0, d1 as int) != version_tag());
        } else {
            assert(v@.subrange(0, d1 as int).len() != version_tag().len());
            assert(v@.subrange(0, d1 as int) != version_tag());
        }
    }
    tag_ok
}

/// The payload segment of a well-shaped token, as a string.
fn payload_segment(v: &Vec<char>) -> (r: String)
    requires
        token_shape_ok(v@),
    ensures
        r@ == token_payload_seg(v@),
{
    let n = v.len();
    let d1 = find_dot_from(v, 0);
    proof {
        assert(d1 == token_dot1(v@));
        assert(d1 < n);
        lemma_find_dot_bounds(v@, d1 + 1);
    }
    let d2 = find_dot_from(v, d1 + 1);
    let seg = slice_subrange(v.as_slice(), d1 + 1, d2);
    string_of(seg)
}

/// The signature segment of a well-shaped token, as a string.
fn signature_segment(v: &Vec<char>) -> (r: String)
    requires
        token_shape_ok(v@),
    ensures
        r@ == token_signature_seg(v@),
{
    let n = v.len();
    let d1 = find_dot_from(v, 0);
    proof {
        assert(d1 == token_dot1(v@));
        assert(d1 < n);
        lemma_find_dot_bounds(v@, d1 + 1);
    }
    let d2 = find_dot_from(v, d1 + 1);
    proof {
        assert(d2 == token_dot2(v@));
        assert(d2 < n);
    }
    let seg = slice_subrange(v.as_slice(), d2 + 1, v.len());
    string_of(seg)
}

} // verus!
