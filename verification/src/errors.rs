use vstd::prelude::*;

verus! {

/// The error kinds of the gateway core.
///
/// `NoHealthyInstance` reports a scheduler selection failure (recoverable via
/// the write-behind cache and the fallback instance), `BackendCallFailure` a
/// transport or HTTP-level failure (recoverable via the cache),
/// `CipherFailure` a wrong password or corrupt ciphertext (surfaced to the
/// caller), `CacheWriteFailure` a disk failure while persisting a cache
/// record (logged, never escalated), `ConfigInvalid` a configuration that
/// fails validation at startup, and `RoleNotPermitted` a request that the
/// configured service role does not allow.
#[derive(Debug, Clone, Copy, PartialEq, Eq, Structural)]
pub enum ServiceError {
    NoHealthyInstance,
    BackendCallFailure,
    CipherFailure,
    CacheWriteFailure,
    ConfigInvalid,
    RoleNotPermitted,
}

impl ServiceError {
    /// A short description, for the boundary layer's response envelope.
    pub fn message(&self) -> (r: String)
        ensures
            r@.len() > 0,
    {
        let r = match self {
            ServiceError::NoHealthyInstance => "no healthy backend instance available",
            ServiceError::BackendCallFailure => "backend call failed",
            ServiceError::CipherFailure => "encryption or decryption failed",
            ServiceError::CacheWriteFailure => "cache write failed",
            ServiceError::ConfigInvalid => "configuration is invalid",
            ServiceError::RoleNotPermitted => "operation not permitted for the configured service role",
        };
        proof {
            reveal_strlit("no healthy backend instance available");
            reveal_strlit("backend call failed");
            reveal_strlit("encryption or decryption failed");
            reveal_strlit("cache write failed");
            reveal_strlit("configuration is invalid");
            reveal_strlit("operation not permitted for the configured service role");
        }
        String::from_str(r)
    }
}

} // verus!
