//! Error values of the library.
//!
//! `ReceiptError` and `StorageError` carry a stable machine-readable code
//! (possibly followed by detail text) rather than implementing a display
//! trait; callers read the `0` field or call `message`.

use vstd::prelude::*;

verus! {

/// Failure of receipt parsing or signature verification; the payload is a
/// stable reason code such as `invalid_receipt_format`.
#[derive(Debug, Clone)]
pub struct ReceiptError(pub String);

impl ReceiptError {
    pub fn new(code: &str) -> (r: ReceiptError)
        ensures
            r.0@ == code@,
    {
        ReceiptError(code.to_owned())
    }

    pub fn message(&self) -> (r: &str)
        ensures
            r@ == self.0@,
    {
        self.0.as_str()
    }
}

/// Failure of the receipt store; the payload is a stable reason code such as
/// `parse_failed`, possibly followed by detail text.
#[derive(Debug, Clone)]
pub struct StorageError(pub String);

impl StorageError {
    pub fn new(code: &str) -> (r: StorageError)
        ensures
            r.0@ == code@,
    {
        StorageError(code.to_owned())
    }

    pub fn message(&self) -> (r: &str)
        ensures
            r@ == self.0@,
    {
        self.0.as_str()
    }
}

/// An HTTP failure reported by the remote service.
#[derive(Debug, Clone)]
pub struct HttpError {
    pub status: u16,
    pub message: String,
}

/// Any failure a client operation can report.
#[derive(Debug, Clone)]
pub enum AlureError {
    Http { status: u16, message: String },
    Storage(StorageError),
    Receipt(ReceiptError),
}

} // verus!
