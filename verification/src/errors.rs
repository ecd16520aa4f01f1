use vstd::prelude::*;

verus! {

/// The caller-visible failure outcomes of the store.
///
/// `NotFound`, `AlreadyExists` and `InvalidInput` are expected outcomes that
/// the transport layer translates into user-facing responses;
/// `StorageUnavailable` reports a genuine storage fault (the durable store
/// could not be reached, or returned a corrupt row).
#[derive(Clone, Copy, Debug, PartialEq, Eq, Structural)]
pub enum AuthError {
    /// The operation requires an existing account or ban and none exists.
    NotFound,
    /// Creation was requested for a username that is already present.
    AlreadyExists,
    /// A structurally invalid argument, such as an expiration that does not
    /// lie strictly after the start of the ban.
    InvalidInput,
    /// The durable backing store could not be reached or is corrupt.
    StorageUnavailable,
}

/// The short name of each error, in spec form.
pub open spec fn error_name_spec(e: AuthError) -> Seq<char> {
    match e {
        AuthError::NotFound => "not found"@,
        AuthError::AlreadyExists => "already exists"@,
        AuthError::InvalidInput => "invalid input"@,
        AuthError::StorageUnavailable => "storage unavailable"@,
    }
}

impl AuthError {
    /// A short, stable name for the error, for the transport layer's logs.
    pub fn describe(&self) -> (r: &'static str)
        ensures
            r@ == error_name_spec(*self),
    {
        match self {
            AuthError::NotFound => "not found",
            AuthError::AlreadyExists => "already exists",
            AuthError::InvalidInput => "invalid input",
            AuthError::StorageUnavailable => "storage unavailable",
        }
    }
}

} // verus!
