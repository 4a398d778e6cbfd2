//! The exit codes with which actor operations fail.

use vstd::prelude::*;

verus! {

/// Exit code for an argument that the rules reject.
pub const USR_ILLEGAL_ARGUMENT: u32 = 16;
/// Exit code for an entry that is not present.
pub const USR_NOT_FOUND: u32 = 17;
/// Exit code for an operation that the rules forbid.
pub const USR_FORBIDDEN: u32 = 18;
/// Exit code for a balance too small for the operation.
pub const USR_INSUFFICIENT_FUNDS: u32 = 19;
/// Exit code for state that breaks its own invariants.
pub const USR_ILLEGAL_STATE: u32 = 20;
/// Exit code for a value that cannot be encoded or decoded.
pub const USR_SERIALIZATION: u32 = 21;

/// An actor failure, identified by its exit code.
#[derive(Clone, Copy, Debug, PartialEq, Eq, Structural)]
pub struct ActorError {
    pub exit_code: u32,
}

impl ActorError {
    pub open spec fn illegal_argument_spec() -> ActorError {
        ActorError { exit_code: USR_ILLEGAL_ARGUMENT }
    }

    pub open spec fn insufficient_funds_spec() -> ActorError {
        ActorError { exit_code: USR_INSUFFICIENT_FUNDS }
    }

    pub fn illegal_argument() -> (res: ActorError)
        ensures
            res.exit_code == USR_ILLEGAL_ARGUMENT,
    {
        ActorError { exit_code: USR_ILLEGAL_ARGUMENT }
    }

    pub fn forbidden() -> (res: ActorError)
        ensures
            res.exit_code == USR_FORBIDDEN,
    {
        ActorError { exit_code: USR_FORBIDDEN }
    }

    pub fn insufficient_funds() -> (res: ActorError)
        ensures
            res.exit_code == USR_INSUFFICIENT_FUNDS,
    {
        ActorError { exit_code: USR_INSUFFICIENT_FUNDS }
    }

    pub fn illegal_state() -> (res: ActorError)
        ensures
            res.exit_code == USR_ILLEGAL_STATE,
    {
        ActorError { exit_code: USR_ILLEGAL_STATE }
    }

    pub fn serialization() -> (res: ActorError)
        ensures
            res.exit_code == USR_SERIALIZATION,
    {
        ActorError { exit_code: USR_SERIALIZATION }
    }
}

} // verus!
