use vstd::prelude::*;

verus! {

/// The error type of the QR encoder.
#[verifier::external_type_specification]
#[verifier::external_body]
pub struct ExQrError(qrcode::types::QrError);

} // verus!

verus! {

/// Why an operation of this library failed.
pub enum ErrorKind {
    /// A plain message.
    Msg(String),
    /// A lock was poisoned.
    SyncPoisonError(String),
    /// Reading or writing failed.
    Io(String),
    /// A decimal number could not be read.
    ParseInt(String),
    /// The terminal refused an operation.
    Term(String),
    /// Bytes were not UTF-8.
    StrFromUtf8(String),
    /// The QR encoder refused its input.
    Qr(qrcode::types::QrError),
    /// The QR encoder gave a matrix whose size does not match its width.
    MalformedMatrix,
    /// A `Content-Disposition` line holds no double quote.
    MissingQuote,
    /// The stream ended before the blank line that closes the headers.
    UnterminatedHeaders,
    /// The declared body length is shorter than the headers and the trailer.
    LengthMismatch,
}

} // verus!
