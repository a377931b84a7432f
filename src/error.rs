use vstd::prelude::*;

verus! {

/// std's I/O error, carried opaquely by [`RsdError::Io`].
#[verifier::external_type_specification]
#[verifier::external_body]
pub struct ExIoError(std::io::Error);

/// Errors of the decoder and of the byte source that feeds it.
#[derive(Debug)]
pub enum RsdError {
    /// Opening or reading the file failed; this ends the whole parse.
    Io(std::io::Error),
    /// No record-start marker at a position where one was expected.
    InvalidFormat { offset: u64, reason: String },
    /// Reserved for a checksum validation that the decoder does not perform yet.
    CrcValidationFailed,
    /// Too few bytes remain to read a record-start marker.
    CorruptedRecord,
}

} // verus!
