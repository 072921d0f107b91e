//! Contracts for the outside functions the receipt logic calls.
//!
//! Each executable function here has an opaque body that makes one call into
//! an outside crate (or into a part of std that vstd does not specify) and
//! converts between its values and plain ones; the contract is what the rest
//! of the library builds on. A result that is a function of the arguments
//! alone but too long to state is given a name by a bodyless spec function.

use vstd::prelude::*;

use ed25519_dalek::pkcs8::DecodePublicKey;

verus! {

/// Relies on str::chars of std: the characters of the string, in order.
#[verifier::external_body]
pub(crate) fn chars_of(s: &str) -> (r: Vec<char>)
    ensures
        r@ == s@,
{
    s.chars().collect()
}

/// Relies on String's FromIterator impl of std: the string of exactly these
/// characters.
#[verifier::external_body]
pub(crate) fn string_of(v: &[char]) -> (r: String)
    ensures
        r@ == v@,
{
    v.iter().collect()
}

/// What decoding a string as unpadded URL-safe base64 yields: `None` exactly
/// where the string is not valid unpadded URL-safe base64.
pub uninterp spec fn b64url_decoded(s: Seq<char>) -> Option<Seq<u8>>;

/// Relies on base64's URL_SAFE_NO_PAD engine: decoding is a function of the
/// input characters alone, and fails exactly on input that is not valid
/// unpadded URL-safe base64.
#[verifier::external_body]
pub(crate) fn b64url_decode(s: &str) -> (r: Option<Vec<u8>>)
    ensures
        r is Some <==> b64url_decoded(s@) is Some,
        r is Some ==> r.unwrap()@ == b64url_decoded(s@).unwrap(),
{
    base64::Engine::decode(&base64::engine::general_purpose::URL_SAFE_NO_PAD, s).ok()
}

/// The lowercase-hex SHA-256 digest of a string's UTF-8 bytes; a function of
/// the characters alone.
pub uninterp spec fn sha256_hex_of(s: Seq<char>) -> Seq<char>;

/// Relies on sha2's Sha256 digest and std's lowercase-hex formatting: the
/// digest is a function of the input bytes alone.
#[verifier::external_body]
pub(crate) fn sha256_hex(s: &str) -> (r: String)
    ensures
        r@ == sha256_hex_of(s@),
{
    let digest = <sha2::Sha256 as sha2::Digest>::digest(s.as_bytes());
    format!("{:x}", digest)
}

/// The instant an RFC-3339 timestamp denotes, in milliseconds since the Unix
/// epoch; `None` exactly where the string is not a valid RFC-3339 timestamp.
pub uninterp spec fn rfc3339_ms_of(s: Seq<char>) -> Option<int>;

/// Relies on chrono's DateTime::parse_from_rfc3339 and timestamp_millis:
/// parsing is a function of the characters alone; on success the result is
/// the denoted absolute instant in Unix milliseconds.
#[verifier::external_body]
pub(crate) fn parse_rfc3339_ms(s: &str) -> (r: Option<i64>)
    ensures
        r is Some <==> rfc3339_ms_of(s@) is Some,
        r is Some ==> rfc3339_ms_of(s@) == Some(r.unwrap() as int),
{
    chrono::DateTime::parse_from_rfc3339(s).ok().map(|t| t.timestamp_millis())
}

/// Relies on chrono's Utc::now: the current wall-clock time in Unix
/// milliseconds. Nothing is assumed of its value.
#[verifier::external_body]
pub(crate) fn now_unix_ms() -> i64 {
    chrono::Utc::now().timestamp_millis()
}

/// Outcome of an Ed25519 signature check, over plain values.
pub(crate) enum SignatureCheck {
    /// The signature bytes do not have the length of an Ed25519 signature.
    BadSignatureLength,
    /// The PEM text does not parse as an Ed25519 public key.
    BadPublicKey,
    /// Key and signature were well-formed; the payload says whether the
    /// signature verifies.
    Checked(bool),
}

/// Whether a PEM document parses as an Ed25519 public key.
pub uninterp spec fn pem_is_ed25519_key(pem: Seq<char>) -> bool;

/// Whether `sig` is a valid Ed25519 signature by the key held in `pem` over
/// the UTF-8 bytes of `msg`; a function of the three arguments alone.
pub uninterp spec fn ed25519_verifies(pem: Seq<char>, msg: Seq<char>, sig: Seq<u8>) -> bool;

/// Relies on ed25519_dalek: Signature::from_slice fails exactly on slices
/// whose length is not 64 bytes; VerifyingKey::from_public_key_pem (through
/// pkcs8::DecodePublicKey) succeeds or fails as a function of the PEM text;
/// Verifier::verify is a function of key, message and signature alone.
#[verifier::external_body]
pub(crate) fn ed25519_check(pem: &str, msg: &str, sig: &[u8]) -> (r: SignatureCheck)
    ensures
        r is BadSignatureLength <==> sig@.len() != 64,
        sig@.len() == 64 ==> ((r is BadPublicKey) <==> !pem_is_ed25519_key(pem@)),
        sig@.len() == 64 && pem_is_ed25519_key(pem@) ==> r == SignatureCheck::Checked(
            ed25519_verifies(pem@, msg@, sig@),
        ),
{
    let signature = match ed25519_dalek::Signature::from_slice(sig) {
        Ok(signature) => signature,
        Err(_) => return SignatureCheck::BadSignatureLength,
    };
    let key = match ed25519_dalek::VerifyingKey::from_public_key_pem(pem) {
        Ok(key) => key,
        Err(_) => return SignatureCheck::BadPublicKey,
    };
    let ok = ed25519_dalek::Verifier::verify(&key, msg.as_bytes(), &signature).is_ok();
    SignatureCheck::Checked(ok)
}

/// A Unicode scalar value: what a `char` may hold.
pub open spec fn valid_scalar(v: int) -> bool {
    (0 <= v < 0xD800) || (0xE000 <= v <= 0x10FFFF)
}

/// Relies on char::from_u32 of std: `Some` of the denoted character exactly
/// on Unicode scalar values.
#[verifier::external_body]
pub(crate) fn char_from_code(v: u32) -> (r: Option<char>)
    ensures
        r == (if valid_scalar(v as int) {
            Some((v as int) as char)
        } else {
            None::<char>
        }),
{
    char::from_u32(v)
}

/// Relies on dirs::home_dir: the current user's home directory, where the
/// platform reports one. Nothing is assumed of its value.
#[verifier::external_body]
pub(crate) fn home_dir_string() -> Option<String> {
    dirs::home_dir().map(|p| p.to_string_lossy().into_owned())
}

} // verus!
