//! Validation of zbase32 symbols.

use vstd::prelude::*;
use vstd::string::StringSliceAdditionalSpecFns;
use crate::alphabet::{all_digits, is_digit, value_of_digit};

verus! {

/// Check if `data` is valid zbase32 encoded bytes: whether every byte of it
/// is a symbol of the alphabet. Whitespace is none, and the empty input is
/// valid.
pub fn validate(data: &[u8]) -> (res: bool)
    ensures
        res == all_digits(data@),
{
    let mut i: usize = 0;
    while i < data.len()
        invariant
            i <= data@.len(),
            forall|j: int| 0 <= j < i ==> is_digit(#[trigger] data@[j]),
        decreases data@.len() - i,
    {
        if value_of_digit(data[i]).is_err() {
            return false;
        }
        i += 1;
    }
    true
}

/// Check if `data` is a valid zbase32 encoded string: whether every byte of
/// it is a symbol of the alphabet.
#[inline(always)]
pub fn validate_str(data: &str) -> (res: bool)
    ensures
        res == all_digits(data.spec_bytes()),
{
    validate(data.as_bytes())
}

} // verus!
