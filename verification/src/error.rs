//! Fatal errors of the resolution routines. `Missing` and `Pending` outcomes
//! are not errors; everything here aborts the round and is surfaced to the
//! caller, with no retry by the routine itself.

use vstd::prelude::*;

verus! {

/// Why a resolution round failed.
#[derive(Clone, Copy, Debug, PartialEq, Eq, Structural)]
pub enum MyError {
    /// The supplied account count matches none of the defined phases.
    InvalidAccounts,
    /// An account was present but its content failed to decode.
    MalformedData,
    /// A record's type tag does not match the expected discriminator.
    IdentityMismatch,
    /// The side-channel record account was not supplied writable.
    RecordNotWritable,
    /// No viable derived address exists for a required seed combination.
    KeyDerivation,
}

} // verus!
