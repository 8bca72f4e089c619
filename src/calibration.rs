//! The calibration store: one baseline Aggregate Score, kept as the decimal
//! text of a signed 64-bit integer. The caller reads and writes the bytes.

use vstd::prelude::*;
use crate::decimal::{decoded, encode_i64, parse_i64, spelled};

verus! {

/// Why no baseline could be had from the store.
#[derive(Clone, Copy, Debug, PartialEq, Eq, Structural)]
pub enum CalibrationError {
    /// The store holds nothing: no calibration run has been made yet.
    NotCalibrated,
    /// The store exists but does not hold a signed 64-bit decimal integer.
    Corrupt,
}

/// The baseline that a store holding `stored` (or none, for `None`) yields.
pub open spec fn stored_baseline(stored: Option<Seq<u8>>) -> Result<i64, CalibrationError> {
    match stored {
        None => Err(CalibrationError::NotCalibrated),
        Some(text) => match decoded(text) {
            Some(v) => Ok(v),
            None => Err(CalibrationError::Corrupt),
        },
    }
}

/// The bytes of a store as the caller hands them over: `None` when it does
/// not exist.
pub open spec fn store_view(stored: Option<&[u8]>) -> Option<Seq<u8>> {
    match stored {
        None => None,
        Some(text) => Some(text@),
    }
}

/// Reads a baseline out of the store's bytes: `Corrupt` unless they are
/// exactly a signed decimal integer in the range of `i64`.
pub fn decode_baseline(text: &[u8]) -> (r: Result<i64, CalibrationError>)
    ensures
        r == stored_baseline(Some(text@)),
{
    match parse_i64(text) {
        Some(v) => Ok(v),
        None => Err(CalibrationError::Corrupt),
    }
}

/// What a run in measurement mode gets from the store: `stored` is `None`
/// when the store does not exist, else its bytes.
pub fn load_baseline(stored: Option<&[u8]>) -> (r: Result<i64, CalibrationError>)
    ensures
        r == stored_baseline(store_view(stored)),
{
    match stored {
        None => Err(CalibrationError::NotCalibrated),
        Some(text) => decode_baseline(text),
    }
}

/// The bytes that store the baseline `v`, overwriting whatever was there.
pub fn encode_baseline(v: i64) -> (r: Vec<u8>)
    ensures
        r@ == spelled(v as int),
        stored_baseline(Some(r@)) == Ok::<i64, CalibrationError>(v),
{
    encode_i64(v)
}

} // verus!
