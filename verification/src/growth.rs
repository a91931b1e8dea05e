//! Arithmetic for growing the side-channel record.
//!
//! Each round may grow the record by at most a fixed per-round ceiling and
//! never past a fixed absolute maximum, and must top the record's funding up
//! so it stays storage-exempt at the new size.

use vstd::prelude::*;

verus! {

/// Largest permitted size increase of the record in one round, in bytes.
pub const MAX_PERMITTED_DATA_INCREASE: u64 = 10240;

/// Absolute maximum size of the record, in bytes.
pub const MAX_PERMITTED_DATA_LENGTH: u64 = 10485760;

/// The size a record of `old_size` bytes is grown to in one round:
/// `min(old_size + growth_ceiling, absolute_max)`, for every combination of
/// the three arguments, including the boundary where `old_size` already
/// exceeds `absolute_max - growth_ceiling`.
pub fn grown_size(old_size: u64, growth_ceiling: u64, absolute_max: u64) -> (new_size: u64)
    ensures
        new_size == if old_size + growth_ceiling <= absolute_max {
            old_size + growth_ceiling
        } else {
            absolute_max as int
        },
{
    match old_size.checked_add(growth_ceiling) {
        Some(sum) => {
            if sum <= absolute_max {
                sum
            } else {
                absolute_max
            }
        },
        None => absolute_max,
    }
}

/// The size the side-channel record is grown to in one round, under the
/// fixed per-round ceiling and absolute maximum.
pub fn grown_record_size(old_size: u64) -> (new_size: u64)
    ensures
        new_size == if old_size + MAX_PERMITTED_DATA_INCREASE <= MAX_PERMITTED_DATA_LENGTH {
            old_size + MAX_PERMITTED_DATA_INCREASE
        } else {
            MAX_PERMITTED_DATA_LENGTH as int
        },
{
    grown_size(old_size, MAX_PERMITTED_DATA_INCREASE, MAX_PERMITTED_DATA_LENGTH)
}

/// The funding shortfall `max(0, required_balance - current_balance)` that
/// must be transferred to the record so it remains storage-exempt.
pub fn funding_shortfall(required_balance: u64, current_balance: u64) -> (shortfall: u64)
    ensures
        shortfall == if required_balance > current_balance {
            required_balance - current_balance
        } else {
            0int
        },
{
    if required_balance > current_balance {
        required_balance - current_balance
    } else {
        0
    }
}

} // verus!
