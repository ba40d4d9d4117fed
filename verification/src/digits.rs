//! Verified decimal and hexadecimal rendering of integers, used by the
//! date stamps, the payment-instrument encoders and the registration
//! numbers.

use vstd::prelude::*;
use crate::text::push_char;

verus! {

/// The decimal digit character for `d`.
pub open spec fn digit_char(d: int) -> char
    recommends
        0 <= d < 10,
{
    if d == 0 {
        '0'
    } else if d == 1 {
        '1'
    } else if d == 2 {
        '2'
    } else if d == 3 {
        '3'
    } else if d == 4 {
        '4'
    } else if d == 5 {
        '5'
    } else if d == 6 {
        '6'
    } else if d == 7 {
        '7'
    } else if d == 8 {
        '8'
    } else {
        '9'
    }
}

/// The lowercase hexadecimal digit character for `d`.
pub open spec fn hex_char_lower(d: int) -> char
    recommends
        0 <= d < 16,
{
    if d < 10 {
        digit_char(d)
    } else if d == 10 {
        'a'
    } else if d == 11 {
        'b'
    } else if d == 12 {
        'c'
    } else if d == 13 {
        'd'
    } else if d == 14 {
        'e'
    } else {
        'f'
    }
}

/// The uppercase hexadecimal digit character for `d`.
pub open spec fn hex_char_upper(d: int) -> char
    recommends
        0 <= d < 16,
{
    if d < 10 {
        digit_char(d)
    } else if d == 10 {
        'A'
    } else if d == 11 {
        'B'
    } else if d == 12 {
        'C'
    } else if d == 13 {
        'D'
    } else if d == 14 {
        'E'
    } else {
        'F'
    }
}

/// The decimal digits of a non-negative number, most significant first.
pub open spec fn dec_digits(n: int) -> Seq<char>
    recommends
        n >= 0,
    decreases n,
{
    if n < 10 {
        seq![digit_char(n)]
    } else {
        dec_digits(n / 10).push(digit_char(n % 10))
    }
}

/// The decimal digits of `n`, zero-padded on the left to at least two
/// characters.
pub open spec fn dec_digits2(n: int) -> Seq<char>
    recommends
        n >= 0,
{
    if n < 10 {
        seq!['0', digit_char(n)]
    } else {
        dec_digits(n)
    }
}

/// The decimal digits of `n`, zero-padded on the left to at least four
/// characters.
pub open spec fn dec_digits4(n: int) -> Seq<char>
    recommends
        n >= 0,
{
    if n < 10 {
        seq!['0', '0', '0', digit_char(n)]
    } else if n < 100 {
        seq!['0', '0'] + dec_digits(n)
    } else if n < 1000 {
        seq!['0'] + dec_digits(n)
    } else {
        dec_digits(n)
    }
}

/// The `i`-th hexadecimal digit (0 = most significant of 32) of `v`.
pub open spec fn nibble(v: u128, i: int) -> int
    recommends
        0 <= i < 32,
{
    (v >> (((31 - i) * 4) as u128)) as int % 16
}

/// The first `k` of the 32 lowercase hexadecimal digits of `v`.
pub open spec fn hex_prefix_lower(v: u128, k: int) -> Seq<char>
    recommends
        0 <= k <= 32,
{
    Seq::new(k as nat, |i: int| hex_char_lower(nibble(v, i)))
}

/// The first `k` of the 32 uppercase hexadecimal digits of `v`.
pub open spec fn hex_prefix_upper(v: u128, k: int) -> Seq<char>
    recommends
        0 <= k <= 32,
{
    Seq::new(k as nat, |i: int| hex_char_upper(nibble(v, i)))
}

/// The four uppercase hexadecimal digits of a 16-bit value.
pub open spec fn hex4_upper(v: u16) -> Seq<char> {
    seq![
        hex_char_upper((v >> 12) as int % 16),
        hex_char_upper((v >> 8) as int % 16),
        hex_char_upper((v >> 4) as int % 16),
        hex_char_upper(v as int % 16),
    ]
}

/// The executable counterpart of [`digit_char`].
pub fn digit_char_of(d: u64) -> (c: char)
    requires
        d < 10,
    ensures
        c == digit_char(d as int),
{
    if d == 0 {
        '0'
    } else if d == 1 {
        '1'
    } else if d == 2 {
        '2'
    } else if d == 3 {
        '3'
    } else if d == 4 {
        '4'
    } else if d == 5 {
        '5'
    } else if d == 6 {
        '6'
    } else if d == 7 {
        '7'
    } else if d == 8 {
        '8'
    } else {
        '9'
    }
}

/// The executable counterpart of [`hex_char_lower`].
pub fn hex_char_lower_of(d: u64) -> (c: char)
    requires
        d < 16,
    ensures
        c == hex_char_lower(d as int),
{
    if d < 10 {
        digit_char_of(d)
    } else if d == 10 {
        'a'
    } else if d == 11 {
        'b'
    } else if d == 12 {
        'c'
    } else if d == 13 {
        'd'
    } else if d == 14 {
        'e'
    } else {
        'f'
    }
}

/// The executable counterpart of [`hex_char_upper`].
pub fn hex_char_upper_of(d: u64) -> (c: char)
    requires
        d < 16,
    ensures
        c == hex_char_upper(d as int),
{
    if d < 10 {
        digit_char_of(d)
    } else if d == 10 {
        'A'
    } else if d == 11 {
        'B'
    } else if d == 12 {
        'C'
    } else if d == 13 {
        'D'
    } else if d == 14 {
        'E'
    } else {
        'F'
    }
}

/// Appends the decimal digits of `n` to `out`.
pub fn push_dec(out: &mut String, n: u64)
    ensures
        final(out)@ == old(out)@ + dec_digits(n as int),
    decreases n,
{
    if n < 10 {
        push_char(out, digit_char_of(n));
        assert(out@ =~= old(out)@ + dec_digits(n as int));
    } else {
        push_dec(out, n / 10);
        push_char(out, digit_char_of(n % 10));
        assert(out@ =~= old(out)@ + dec_digits(n as int));
    }
}

/// Appends the decimal digits of `n`, zero-padded to at least two
/// characters.
pub fn push_dec2(out: &mut String, n: u64)
    ensures
        final(out)@ == old(out)@ + dec_digits2(n as int),
{
    if n < 10 {
        push_char(out, '0');
        push_char(out, digit_char_of(n));
        assert(out@ =~= old(out)@ + dec_digits2(n as int));
    } else {
        push_dec(out, n);
    }
}

/// Appends the decimal digits of `n`, zero-padded to at least four
/// characters.
pub fn push_dec4(out: &mut String, n: u64)
    ensures
        final(out)@ == old(out)@ + dec_digits4(n as int),
{
    if n < 10 {
        push_char(out, '0');
        push_char(out, '0');
        push_char(out, '0');
        push_char(out, digit_char_of(n));
        assert(out@ =~= old(out)@ + dec_digits4(n as int));
    } else if n < 100 {
        push_char(out, '0');
        push_char(out, '0');
        push_dec(out, n);
        assert(out@ =~= old(out)@ + dec_digits4(n as int));
    } else if n < 1000 {
        push_char(out, '0');
        push_dec(out, n);
        assert(out@ =~= old(out)@ + dec_digits4(n as int));
    } else {
        push_dec(out, n);
    }
}

/// Appends the first `k` of the 32 lowercase hexadecimal digits of `v`.
pub fn push_hex_prefix_lower(out: &mut String, v: u128, k: usize)
    requires
        k <= 32,
    ensures
        final(out)@ == old(out)@ + hex_prefix_lower(v, k as int),
{
    let mut i: usize = 0;
    while i < k
        invariant
            0 <= i <= k <= 32,
            out@ == old(out)@ + hex_prefix_lower(v, i as int),
        decreases k - i,
    {
        let shift: u32 = ((31 - i) as u32) * 4;
        let d: u64 = ((v >> shift) % 16) as u64;
        assert(d == nibble(v, i as int));
        push_char(out, hex_char_lower_of(d));
        i = i + 1;
        assert(out@ =~= old(out)@ + hex_prefix_lower(v, i as int));
    }
    assert(out@ =~= old(out)@ + hex_prefix_lower(v, k as int));
}

/// Appends the first `k` of the 32 uppercase hexadecimal digits of `v`.
pub fn push_hex_prefix_upper(out: &mut String, v: u128, k: usize)
    requires
        k <= 32,
    ensures
        final(out)@ == old(out)@ + hex_prefix_upper(v, k as int),
{
    let mut i: usize = 0;
    while i < k
        invariant
            0 <= i <= k <= 32,
            out@ == old(out)@ + hex_prefix_upper(v, i as int),
        decreases k - i,
    {
        let shift: u32 = ((31 - i) as u32) * 4;
        let d: u64 = ((v >> shift) % 16) as u64;
        assert(d == nibble(v, i as int));
        push_char(out, hex_char_upper_of(d));
        i = i + 1;
        assert(out@ =~= old(out)@ + hex_prefix_upper(v, i as int));
    }
    assert(out@ =~= old(out)@ + hex_prefix_upper(v, k as int));
}

/// Appends the four uppercase hexadecimal digits of `v`.
pub fn push_hex4_upper(out: &mut String, v: u16)
    ensures
        final(out)@ == old(out)@ + hex4_upper(v),
{
    push_char(out, hex_char_upper_of(((v >> 12) % 16) as u64));
    push_char(out, hex_char_upper_of(((v >> 8) % 16) as u64));
    push_char(out, hex_char_upper_of(((v >> 4) % 16) as u64));
    push_char(out, hex_char_upper_of((v % 16) as u64));
    assert(out@ =~= old(out)@ + hex4_upper(v));
}

} // verus!
