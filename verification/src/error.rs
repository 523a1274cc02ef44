//! Failure categories of the service.

use vstd::prelude::*;

verus! {

/// Why an operation of the service failed. The two storage failures arise
/// where the key directory is read and written, outside this library, which
/// only names them.
#[derive(Clone, Copy, Debug, PartialEq, Eq, Structural)]
pub enum ServiceError {
    /// The key directory cannot be created or read.
    StorageUnavailable,
    /// A key file was not written; the store in memory may be ahead of disk.
    PersistenceFailure,
    /// The requested scheme name is not one of the supported schemes.
    UnsupportedScheme,
    /// The key resolved for signing was not taken by the scheme's signer.
    KeyResolutionError,
    /// The peer's key-encapsulation public key does not decode.
    InvalidPeerKey,
    /// A request field is not valid base64.
    InvalidEncoding,
    /// The store holds no record under the identifier.
    KeyNotFound,
    /// The store holds a record under the identifier and keeps no public
    /// key for it.
    PublicKeyUnknown,
}

/// The HTTP status with which a failure is answered: 400 where the request
/// itself is at fault, 500 otherwise.
pub open spec fn status_of(error: ServiceError) -> u16 {
    match error {
        ServiceError::UnsupportedScheme | ServiceError::InvalidEncoding => 400,
        _ => 500,
    }
}

impl ServiceError {
    /// The HTTP status with which this failure is answered.
    pub fn status_code(self) -> (code: u16)
        ensures
            code == status_of(self),
    {
        match self {
            ServiceError::UnsupportedScheme | ServiceError::InvalidEncoding => 400,
            _ => 500,
        }
    }
}

} // verus!
