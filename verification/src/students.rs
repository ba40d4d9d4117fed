//! Student registration numbers: the year-prefixed suggestion built
//! from the highest sequence already taken.

use vstd::prelude::*;
use crate::digits::{dec_digits, dec_digits4, push_dec, push_dec4};

verus! {

/// A suggested registration number.
pub struct RegistrationSuggestionResponse {
    pub registration: String,
}

/// Suggests the next registration number: the year followed by the
/// next free sequence, zero-padded to four digits.
pub fn registration_suggestion(year: i32, max_seq: i32) -> (r: RegistrationSuggestionResponse)
    requires
        0 <= year <= 9999,
        0 <= max_seq < 0x7fff_ffff,
    ensures
        r.registration@ == dec_digits(year as int) + dec_digits4(max_seq + 1),
{
    let mut out = String::new();
    push_dec(&mut out, year as u64);
    push_dec4(&mut out, (max_seq + 1) as u64);
    RegistrationSuggestionResponse { registration: out }
}

} // verus!
