//! Errors from processing credentials and the COSE header maps they come with.

use vstd::prelude::*;

verus! {

/// Classification of a [`CredentialError`].
#[derive(Debug, Clone, Copy, PartialEq, Eq, Structural)]
pub enum CredentialErrorDetail {
    /// Input data contains items that violate a protocol.
    ProtocolViolation,
    /// Input data contains items that are understood in principle, but not supported.
    UnsupportedExtension,
    /// Input data uses a COSE algorithm that is not supported.
    UnsupportedAlgorithm,
    /// The data exceeds the capacity of the implementation.
    ConstraintExceeded,
    /// Input data is understood, but self-contradictory.
    InconsistentDetails,
    /// The peer expects to use key material which is not known to this system.
    KeyNotPresent,
    /// Cryptographic verification was unsuccessful.
    VerifyFailed,
}

/// Error returned from functions that ingest input to an authentication or authorization step.
#[derive(Debug, Clone, Copy)]
pub struct CredentialError {
    /// What went wrong.
    pub detail: CredentialErrorDetail,
    /// Position in the input where it went wrong, if known.
    pub position: Option<usize>,
}

#[verifier::external_type_specification]
#[verifier::external_body]
pub struct ExDecodeError(minicbor::decode::Error);

impl CredentialError {
    /// An error of the given kind, at no particular position.
    pub fn from_detail(value: CredentialErrorDetail) -> (r: Self)
        ensures
            r.detail == value,
            r.position is None,
    {
        CredentialError { detail: value, position: None }
    }

    /// A CBOR decoding error: the input contains items not supported here.
    pub fn from_decode_error(value: minicbor::decode::Error) -> (r: Self)
        ensures
            r.detail == CredentialErrorDetail::UnsupportedExtension,
            r.position is None,
    {
        CredentialError { detail: CredentialErrorDetail::UnsupportedExtension, position: None }
    }

    /// A CBOR encoding error for lack of space: a capacity was exceeded.
    pub fn from_encode_out_of_space() -> (r: Self)
        ensures
            r.detail == CredentialErrorDetail::ConstraintExceeded,
            r.position is None,
    {
        CredentialError { detail: CredentialErrorDetail::ConstraintExceeded, position: None }
    }
}

} // verus!
