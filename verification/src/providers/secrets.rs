//! The rules around provider API keys kept in the OS keyring.
//!
//! Keys live under service `roleplayer`, username = provider id. Reads never
//! fail: a missing or unreachable keyring reads as "no key". Writes and
//! deletes do fail, with typed config errors, because the caller asked for
//! them explicitly; deleting a key that is already absent succeeds.

use vstd::prelude::*;
use vstd::string::*;

use crate::errors::{AppError, Result};
use crate::text::{trim, trim_str};

verus! {

/// Keyring service name; keys are keyed by username = provider id.
pub const KEYRING_SERVICE: &'static str = "roleplayer";

/// How a keyring call failed, with the failure's description.
#[derive(Debug)]
pub enum KeyringFailure {
    /// No credential is stored under that entry.
    NoEntry(String),
    /// Any other backend failure.
    Other(String),
}

/// The description of a keyring failure.
pub open spec fn failure_text(f: KeyringFailure) -> Seq<char> {
    match f {
        KeyringFailure::NoEntry(d) => d@,
        KeyringFailure::Other(d) => d@,
    }
}

/// The facade through which keys are read and written.
pub struct Secrets;

impl Secrets {
    /// A key to store must not be blank: an empty write would overwrite a
    /// real key with junk.
    pub fn check_value(value: &str) -> (r: Result<()>)
        ensures
            r is Ok <==> trim(value@).len() > 0,
            r matches Err(e) ==> e is Config && e.detail() == "api key must not be empty"@,
    {
        if trim_str(value).unicode_len() == 0 {
            return Err(AppError::Config(String::from_str("api key must not be empty")));
        }
        Ok(())
    }

    /// What a keyring read gives: the stored key, or nothing on any failure.
    pub fn read_outcome(outcome: core::result::Result<String, KeyringFailure>) -> (r: Option<String>)
        ensures
            match outcome {
                Ok(k) => r matches Some(v) && v@ == k@,
                Err(_) => r is None,
            },
    {
        match outcome {
            Ok(k) => Some(k),
            Err(_) => None,
        }
    }

    /// The error for a keyring that could not be opened.
    pub fn init_failure(detail: &str) -> (e: AppError)
        ensures
            e is Config,
            e.detail() == "keyring init failed: "@ + detail@,
    {
        AppError::Config(String::from_str("keyring init failed: ").concat(detail))
    }

    /// What a keyring write gives.
    pub fn write_outcome(outcome: core::result::Result<(), KeyringFailure>) -> (r: Result<()>)
        ensures
            match outcome {
                Ok(()) => r is Ok,
                Err(f) => r matches Err(e) && e is Config && e.detail() == "keyring write failed: "@ + failure_text(f),
            },
    {
        match outcome {
            Ok(()) => Ok(()),
            Err(KeyringFailure::NoEntry(d)) => Err(
                AppError::Config(String::from_str("keyring write failed: ").concat(d.as_str())),
            ),
            Err(KeyringFailure::Other(d)) => Err(
                AppError::Config(String::from_str("keyring write failed: ").concat(d.as_str())),
            ),
        }
    }

    /// What a keyring delete gives: an absent entry counts as deleted.
    pub fn delete_outcome(outcome: core::result::Result<(), KeyringFailure>) -> (r: Result<()>)
        ensures
            match outcome {
                Ok(()) => r is Ok,
                Err(KeyringFailure::NoEntry(_)) => r is Ok,
                Err(KeyringFailure::Other(d)) => r matches Err(e) && e is Config && e.detail()
                    == "keyring delete failed: "@ + d@,
            },
    {
        match outcome {
            Ok(()) => Ok(()),
            Err(KeyringFailure::NoEntry(_)) => Ok(()),
            Err(KeyringFailure::Other(d)) => Err(
                AppError::Config(String::from_str("keyring delete failed: ").concat(d.as_str())),
            ),
        }
    }
}

} // verus!
