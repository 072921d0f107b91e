//! Offline license-receipt verification and a single-record receipt store.
//!
//! A receipt is a signed token of the form `v1.<payload>.<signature>`, where
//! both segments are unpadded URL-safe base64. The verifier parses the
//! payload, optionally checks its Ed25519 signature, and evaluates expiry,
//! grace period and device binding against an injectable reference time.
//! The store renders and reads back the one persisted receipt record.

use vstd::prelude::*;

mod client;
mod errors;
mod outside;
mod receipt;
mod record_doc;
mod storage;

pub use client::extract_filename;
pub use client::ActivateResponse;
pub use client::AlureClient;
pub use errors::ReceiptError;
pub use errors::StorageError;
pub use errors::HttpError;
pub use errors::AlureError;
pub use receipt::ReceiptPayload;
pub use receipt::ReceiptPayloadView;
pub use receipt::ReceiptValidationResult;
pub use receipt::ReceiptVerifier;
pub use receipt::VerdictView;
pub use record_doc::encode_record;
pub use storage::load_from_content;
pub use storage::FileStorage;
pub use storage::ReceiptRecord;
pub use storage::RecordView;

verus! {

/// The wire-format version tag that every receipt token must start with.
pub open spec fn version_tag() -> Seq<char> {
    "v1"@
}

} // verus!
