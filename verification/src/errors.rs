use vstd::prelude::*;

verus! {

/// The error taxonomy of the settlement engine.
///
/// Every fallible operation of the crate reports one of these kinds; the
/// host turns them into a single `ERROR:`-prefixed notification line.
#[derive(Clone, Copy, Debug, PartialEq, Eq, Structural)]
pub enum Error {
    /// Malformed input: unparseable hex, missing field, bad address.
    BadRequest,
    /// A network, wallet, user, transaction or network binding is missing.
    NotFound,
    /// A duplicate add.
    AlreadyExists,
    /// The caller does not own the wallet the operation requires.
    Unauthorized,
    /// The state machine does not accept the operation in its current state.
    WrongState,
    /// Supplied leg parameters disagree with the stored transaction.
    Mismatch,
    /// A balance operation would make `free` or `locked` negative.
    Underflow,
    /// A balance operation would exceed the 256-bit range.
    Overflow,
    /// A host or remote facility failed (RNG, ledger, RPC).
    Upstream,
    /// A broken internal invariant.
    Internal,
}

impl Error {
    /// A short stable description, used by the host when notifying callers.
    pub fn message(&self) -> (r: &'static str)
        ensures
            match self {
                Error::BadRequest => r@ == "bad request"@,
                Error::NotFound => r@ == "not found"@,
                Error::AlreadyExists => r@ == "already exists"@,
                Error::Unauthorized => r@ == "unauthorized"@,
                Error::WrongState => r@ == "wrong state"@,
                Error::Mismatch => r@ == "mismatch"@,
                Error::Underflow => r@ == "underflow"@,
                Error::Overflow => r@ == "overflow"@,
                Error::Upstream => r@ == "upstream failure"@,
                Error::Internal => r@ == "internal error"@,
            },
    {
        match self {
            Error::BadRequest => "bad request",
            Error::NotFound => "not found",
            Error::AlreadyExists => "already exists",
            Error::Unauthorized => "unauthorized",
            Error::WrongState => "wrong state",
            Error::Mismatch => "mismatch",
            Error::Underflow => "underflow",
            Error::Overflow => "overflow",
            Error::Upstream => "upstream failure",
            Error::Internal => "internal error",
        }
    }
}

} // verus!
