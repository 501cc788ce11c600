use vstd::prelude::*;
use crate::order::{at_most, value_le};

verus! {

/// The bits of `0.0`.
pub const ZERO_BITS: u64 = 0;

/// The bits of `100.0`.
pub const HUNDRED_BITS: u64 = 0x4059_0000_0000_0000;

/// The fewest bootstrap iterations, in thousands.
pub const MIN_THOUSANDS: i32 = 1;

/// The most bootstrap iterations, in thousands.
pub const MAX_THOUSANDS: i32 = 9999;

/// Why a comparison request is refused before any computation.
#[derive(Clone, Copy, Debug, PartialEq, Eq, Structural)]
pub enum RequestError {
    /// A sample holds no number.
    EmptySample,
    /// The iteration count is not between 1000 and 9 999 000.
    IterationCount,
    /// The confidence level is not a number between 0 and 100.
    ConfidenceLevel,
    /// Paired samples of different lengths.
    LengthMismatch,
}

/// The outcome of checking a request, in the order the checks are made.
pub open spec fn request_outcome(
    thousands: i32,
    confidence_bits: u64,
    paired: bool,
    len_a: nat,
    len_b: nat,
) -> Result<u32, RequestError> {
    if len_a == 0 || len_b == 0 {
        Err(RequestError::EmptySample)
    } else if !(MIN_THOUSANDS <= thousands <= MAX_THOUSANDS) {
        Err(RequestError::IterationCount)
    } else if !(value_le(ZERO_BITS, confidence_bits) && value_le(confidence_bits, HUNDRED_BITS)) {
        Err(RequestError::ConfidenceLevel)
    } else if paired && len_a != len_b {
        Err(RequestError::LengthMismatch)
    } else {
        Ok((thousands * 1000) as u32)
    }
}

/// Checks a comparison request: both samples must hold a number; the
/// iteration count, given in thousands,
/// must lie in `1..=9999`; the confidence level (the bits of a binary64
/// percentage) in `[0, 100]`; paired samples must have equal lengths. On
/// success, the number of bootstrap iterations.
pub fn check_request(
    thousands: i32,
    confidence_bits: u64,
    paired: bool,
    len_a: usize,
    len_b: usize,
) -> (r: Result<u32, RequestError>)
    ensures
        r == request_outcome(thousands, confidence_bits, paired, len_a as nat, len_b as nat),
        r matches Ok(n) ==> 1000 <= n <= 9_999_000 && n % 1000 == 0,
{
    if len_a == 0 || len_b == 0 {
        Err(RequestError::EmptySample)
    } else if thousands < MIN_THOUSANDS || thousands > MAX_THOUSANDS {
        Err(RequestError::IterationCount)
    } else if !(at_most(ZERO_BITS, confidence_bits) && at_most(confidence_bits, HUNDRED_BITS)) {
        Err(RequestError::ConfidenceLevel)
    } else if paired && len_a != len_b {
        Err(RequestError::LengthMismatch)
    } else {
        Ok((thousands * 1000) as u32)
    }
}

} // verus!
