//! The error taxonomy shared by the command layer and the storage backends.

use vstd::prelude::*;

verus! {

/// The category of an underlying I/O failure, as far as the vault's logic
/// reads it. A backend that performs real I/O translates the failure it
/// observed into one of these categories.
#[derive(Clone, Copy, Debug, PartialEq, Eq, Structural)]
pub enum ErrorKind {
    NotFound,
    PermissionDenied,
    AlreadyExists,
    InvalidInput,
    Other,
}

/// Library-wide error type capturing domain-specific and underlying I/O
/// failures.
#[derive(Debug)]
pub enum KpvError {
    /// A lower-level I/O failure, keeping its category.
    Io(ErrorKind),
    /// The home directory needed to place the storage root is not configured.
    HomeNotConfigured,
    /// Save's source is missing or not a regular file.
    EnvFileNotFound,
    /// Link's key has no stored entry; carries the key that was asked for.
    KeyNotFound(String),
    /// Link's destination is already occupied.
    EnvAlreadyExists,
}

impl KpvError {
    /// The category a caller expecting I/O-style error kinds sees.
    pub open spec fn kind_spec(&self) -> ErrorKind {
        match self {
            KpvError::Io(k) => *k,
            KpvError::HomeNotConfigured => ErrorKind::NotFound,
            KpvError::EnvFileNotFound => ErrorKind::NotFound,
            KpvError::KeyNotFound(_) => ErrorKind::NotFound,
            KpvError::EnvAlreadyExists => ErrorKind::AlreadyExists,
        }
    }

    /// The human-readable message for this error.
    pub open spec fn message_spec(&self) -> Seq<char> {
        match self {
            KpvError::Io(ErrorKind::NotFound) => "I/O error: not found"@,
            KpvError::Io(ErrorKind::PermissionDenied) => "I/O error: permission denied"@,
            KpvError::Io(ErrorKind::AlreadyExists) => "I/O error: already exists"@,
            KpvError::Io(ErrorKind::InvalidInput) => "I/O error: invalid input"@,
            KpvError::Io(ErrorKind::Other) => "I/O error"@,
            KpvError::HomeNotConfigured => "HOME environment variable not set"@,
            KpvError::EnvFileNotFound => "No .env file found in the current directory"@,
            KpvError::KeyNotFound(key) => "No .env file found for key '"@ + key@ + "'"@,
            KpvError::EnvAlreadyExists => ".env file already exists in the current directory"@,
        }
    }

    /// Wrap a key that has no stored entry.
    pub fn key_not_found(key: &str) -> (r: Self)
        ensures
            r matches KpvError::KeyNotFound(k) && k@ == key@,
    {
        KpvError::KeyNotFound(key.to_owned())
    }

    /// Provide an I/O-style error-kind view for callers expecting it.
    pub fn kind(&self) -> (r: ErrorKind)
        ensures
            r == self.kind_spec(),
    {
        match self {
            KpvError::Io(k) => *k,
            KpvError::HomeNotConfigured => ErrorKind::NotFound,
            KpvError::EnvFileNotFound => ErrorKind::NotFound,
            KpvError::KeyNotFound(_) => ErrorKind::NotFound,
            KpvError::EnvAlreadyExists => ErrorKind::AlreadyExists,
        }
    }

    /// The human-readable message, for a front end to print.
    pub fn message(&self) -> (r: String)
        ensures
            r@ == self.message_spec(),
    {
        match self {
            KpvError::Io(ErrorKind::NotFound) => String::from_str("I/O error: not found"),
            KpvError::Io(ErrorKind::PermissionDenied) => String::from_str(
                "I/O error: permission denied",
            ),
            KpvError::Io(ErrorKind::AlreadyExists) => String::from_str(
                "I/O error: already exists",
            ),
            KpvError::Io(ErrorKind::InvalidInput) => String::from_str("I/O error: invalid input"),
            KpvError::Io(ErrorKind::Other) => String::from_str("I/O error"),
            KpvError::HomeNotConfigured => String::from_str("HOME environment variable not set"),
            KpvError::EnvFileNotFound => String::from_str(
                "No .env file found in the current directory",
            ),
            KpvError::KeyNotFound(key) => {
                let mut s = String::from_str("No .env file found for key '");
                s.append(key.as_str());
                s.append("'");
                s
            },
            KpvError::EnvAlreadyExists => String::from_str(
                ".env file already exists in the current directory",
            ),
        }
    }
}

} // verus!
