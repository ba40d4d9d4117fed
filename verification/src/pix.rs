//! Payment-instrument encoding: the EMV-style tag-length-value payload
//! for a static PIX charge, its CRC16/CCITT-FALSE checksum, and the
//! sanitizers for the merchant fields.

use vstd::prelude::*;
use vstd::string::*;
use vstd::utf8::encode_utf8;
use crate::digits::{
    dec_digits, dec_digits2, hex4_upper, hex_prefix_upper, push_dec, push_dec2, push_hex4_upper,
    push_hex_prefix_upper,
};
use crate::money::MAX_AMOUNT_CENTS;
use crate::text::{push_char, trim_of, trimmed, upper_of, uppercased};

verus! {

// ---------------------------------------------------------------------
// CRC16/CCITT-FALSE
// ---------------------------------------------------------------------
/// One shift step of the CRC register: shift left, and fold in the
/// polynomial 0x1021 when the top bit was set.
pub open spec fn crc16_step(c: u16) -> u16 {
    if c & 0x8000 != 0 {
        (c << 1) ^ 0x1021
    } else {
        c << 1
    }
}

/// `k` shift steps applied to the register.
pub open spec fn crc16_steps(c: u16, k: nat) -> u16
    decreases k,
{
    if k == 0 {
        c
    } else {
        crc16_step(crc16_steps(c, (k - 1) as nat))
    }
}

/// Folds one input byte into the register: XOR into the high byte,
/// then eight shift steps.
pub open spec fn crc16_push_byte(c: u16, b: u8) -> u16 {
    crc16_steps(c ^ ((b as u16) << 8), 8)
}

/// CRC16/CCITT-FALSE over a byte sequence: register initialised to
/// 0xFFFF, polynomial 0x1021, no reflection, no final XOR.
pub open spec fn crc16_of(bytes: Seq<u8>) -> u16
    decreases bytes.len(),
{
    if bytes.len() == 0 {
        0xFFFF
    } else {
        crc16_push_byte(crc16_of(bytes.drop_last()), bytes.last())
    }
}

/// Computes CRC16/CCITT-FALSE over the UTF-8 bytes of `input`.
pub fn crc16_ccitt_false(input: &str) -> (r: u16)
    ensures
        r == crc16_of(encode_utf8(input@)),
{
    let bytes = input.as_bytes();
    let n = bytes.len();
    let mut crc: u16 = 0xFFFF;
    let mut i: usize = 0;
    while i < n
        invariant
            n == bytes@.len(),
            bytes@ == encode_utf8(input@),
            0 <= i <= n,
            crc == crc16_of(bytes@.take(i as int)),
        decreases n - i,
    {
        let b = bytes[i];
        let start: u16 = crc ^ ((b as u16) << 8);
        let mut k: usize = 0;
        let mut reg: u16 = start;
        while k < 8
            invariant
                0 <= k <= 8,
                reg == crc16_steps(start, k as nat),
            decreases 8 - k,
        {
            if reg & 0x8000 != 0 {
                reg = (reg << 1) ^ 0x1021;
            } else {
                reg = reg << 1;
            }
            k = k + 1;
        }
        crc = reg;
        proof {
            assert(bytes@.take(i + 1).drop_last() =~= bytes@.take(i as int));
            assert(bytes@.take(i + 1).last() == b);
        }
        i = i + 1;
    }
    proof {
        assert(bytes@.take(n as int) =~= bytes@);
    }
    crc
}

// ---------------------------------------------------------------------
// Tag-length-value fields
// ---------------------------------------------------------------------
/// A TLV field: the tag, the value's character count zero-padded to at
/// least two digits, then the value itself.
pub open spec fn tlv_spec(id: Seq<char>, value: Seq<char>) -> Seq<char> {
    id + dec_digits2(value.len() as int) + value
}

/// Encodes one TLV field from a tag and a value.
pub fn tlv(id: &str, value: &str) -> (r: String)
    ensures
        r@ == tlv_spec(id@, value@),
{
    let mut out = String::from_str(id);
    let n = value.unicode_len();
    push_dec2(&mut out, n as u64);
    out.append(value);
    assert(out@ =~= tlv_spec(id@, value@));
    out
}

// ---------------------------------------------------------------------
// Field sanitizers
// ---------------------------------------------------------------------
/// Whether `c` is an ASCII decimal digit.
pub open spec fn is_digit_char(c: char) -> bool {
    48 <= c as int <= 57
}

/// Whether `c` is an ASCII uppercase letter.
pub open spec fn is_upper_char(c: char) -> bool {
    65 <= c as int <= 90
}

/// Whether `c` is an ASCII lowercase letter.
pub open spec fn is_lower_char(c: char) -> bool {
    97 <= c as int <= 122
}

/// Uppercases an ASCII lowercase letter and leaves anything else alone.
pub open spec fn ascii_upper_char(c: char) -> char {
    if is_lower_char(c) {
        ((c as u8) - 32) as char
    } else {
        c
    }
}

/// Whether the merchant-field sanitizer keeps `c`: ASCII alphanumeric
/// or space.
pub open spec fn keep_field_char(c: char) -> bool {
    is_digit_char(c) || is_upper_char(c) || is_lower_char(c) || c == ' '
}

/// Whether the description sanitizer keeps `c`: ASCII alphanumeric,
/// space, `.`, `-` or `/`.
pub open spec fn keep_desc_char(c: char) -> bool {
    keep_field_char(c) || c == '.' || c == '-' || c == '/'
}

/// Keeps the characters satisfying `keep_field_char`, uppercasing
/// ASCII letters on the way.
pub open spec fn field_filter(s: Seq<char>) -> Seq<char>
    decreases s.len(),
{
    if s.len() == 0 {
        Seq::empty()
    } else {
        let rest = field_filter(s.drop_last());
        if keep_field_char(s.last()) {
            rest.push(ascii_upper_char(s.last()))
        } else {
            rest
        }
    }
}

/// Keeps the characters satisfying `keep_desc_char`, uppercasing
/// ASCII letters on the way.
pub open spec fn desc_filter(s: Seq<char>) -> Seq<char>
    decreases s.len(),
{
    if s.len() == 0 {
        Seq::empty()
    } else {
        let rest = desc_filter(s.drop_last());
        if keep_desc_char(s.last()) {
            rest.push(ascii_upper_char(s.last()))
        } else {
            rest
        }
    }
}

/// Collapses runs of spaces to single separators, dropping leading and
/// trailing ones; `in_word` and `started` carry whether the previous
/// character belonged to a word and whether any word was emitted yet.
pub open spec fn collapse_from(s: Seq<char>, i: int, in_word: bool, started: bool) -> Seq<char>
    decreases s.len() - i,
{
    if i < 0 || i >= s.len() {
        Seq::empty()
    } else {
        let c = s[i];
        if c == ' ' {
            collapse_from(s, i + 1, false, started)
        } else if in_word || !started {
            seq![c] + collapse_from(s, i + 1, true, true)
        } else {
            seq![' ', c] + collapse_from(s, i + 1, true, true)
        }
    }
}

/// The whitespace-collapsed form of `s`: words joined by single spaces.
pub open spec fn collapse_spaces(s: Seq<char>) -> Seq<char> {
    collapse_from(s, 0, false, false)
}

/// The first `max` characters of `s`.
pub open spec fn truncate_chars(s: Seq<char>, max: int) -> Seq<char> {
    if s.len() <= max {
        s
    } else {
        s.take(max)
    }
}

/// The merchant-field sanitizer on an already uppercased sequence:
/// filter, collapse whitespace, truncate, and fall back when empty.
pub open spec fn sanitize_field_spec(u: Seq<char>, max: int, fallback: Seq<char>) -> Seq<char> {
    let t = truncate_chars(collapse_spaces(field_filter(u)), max);
    if t.len() == 0 {
        fallback
    } else {
        t
    }
}

/// The description sanitizer on an already uppercased sequence: filter,
/// collapse whitespace and truncate; an empty result stays empty.
pub open spec fn sanitize_desc_spec(u: Seq<char>, max: int) -> Seq<char> {
    truncate_chars(collapse_spaces(desc_filter(u)), max)
}

/// Appends the collapsed form of `s` to `out`.
fn push_collapsed(out: &mut String, s: &Vec<char>)
    ensures
        final(out)@ == old(out)@ + collapse_spaces(s@),
{
    let n = s.len();
    let mut i: usize = 0;
    let mut in_word = false;
    let mut started = false;
    while i < n
        invariant
            n == s@.len(),
            0 <= i <= n,
            old(out)@ + collapse_spaces(s@) == out@ + collapse_from(
                s@,
                i as int,
                in_word,
                started,
            ),
        decreases n - i,
    {
        let c = s[i];
        if c == ' ' {
            in_word = false;
        } else {
            if !in_word && started {
                push_char(out, ' ');
            }
            push_char(out, c);
            in_word = true;
            started = true;
        }
        i = i + 1;
        assert(old(out)@ + collapse_spaces(s@) =~= out@ + collapse_from(
            s@,
            i as int,
            in_word,
            started,
        ));
    }
}

/// Filters and uppercases the characters of `u` for a merchant field.
fn filter_field_chars(u: &str) -> (kept: Vec<char>)
    ensures
        kept@ == field_filter(u@),
{
    let n = u.unicode_len();
    let mut kept: Vec<char> = Vec::new();
    let mut i: usize = 0;
    while i < n
        invariant
            n == u@.len(),
            0 <= i <= n,
            kept@ == field_filter(u@.take(i as int)),
        decreases n - i,
    {
        let c = u.get_char(i);
        let keep = (c >= '0' && c <= '9') || (c >= 'A' && c <= 'Z') || (c >= 'a' && c <= 'z') || c
            == ' ';
        assert(keep == keep_field_char(c));
        if keep {
            let mapped: char = if c >= 'a' && c <= 'z' {
                ((c as u8) - 32) as char
            } else {
                c
            };
            assert(mapped == ascii_upper_char(c));
            kept.push(mapped);
        }
        proof {
            assert(u@.take(i + 1).drop_last() =~= u@.take(i as int));
            assert(u@.take(i + 1).last() == c);
        }
        i = i + 1;
    }
    proof {
        assert(u@.take(n as int) =~= u@);
    }
    kept
}

/// Filters and uppercases the characters of `u` for the description.
fn filter_desc_chars(u: &str) -> (kept: Vec<char>)
    ensures
        kept@ == desc_filter(u@),
{
    let n = u.unicode_len();
    let mut kept: Vec<char> = Vec::new();
    let mut i: usize = 0;
    while i < n
        invariant
            n == u@.len(),
            0 <= i <= n,
            kept@ == desc_filter(u@.take(i as int)),
        decreases n - i,
    {
        let c = u.get_char(i);
        let keep = (c >= '0' && c <= '9') || (c >= 'A' && c <= 'Z') || (c >= 'a' && c <= 'z') || c
            == ' ' || c == '.' || c == '-' || c == '/';
        assert(keep == keep_desc_char(c));
        if keep {
            let mapped: char = if c >= 'a' && c <= 'z' {
                ((c as u8) - 32) as char
            } else {
                c
            };
            assert(mapped == ascii_upper_char(c));
            kept.push(mapped);
        }
        proof {
            assert(u@.take(i + 1).drop_last() =~= u@.take(i as int));
            assert(u@.take(i + 1).last() == c);
        }
        i = i + 1;
    }
    proof {
        assert(u@.take(n as int) =~= u@);
    }
    kept
}

/// Takes at most `max` leading characters of an already collapsed
/// string.
fn truncate_string(s: &String, max: usize) -> (r: String)
    ensures
        r@ == truncate_chars(s@, max as int),
{
    let n = s.as_str().unicode_len();
    if n <= max {
        s.clone()
    } else {
        let mut out = String::new();
        let mut i: usize = 0;
        while i < max
            invariant
                max < n == s@.len(),
                0 <= i <= max,
                out@ == s@.take(i as int),
            decreases max - i,
        {
            push_char(&mut out, s.as_str().get_char(i));
            assert(out@ =~= s@.take(i + 1));
            i = i + 1;
        }
        out
    }
}

/// Sanitizes a merchant name or city for the PIX payload: uppercase,
/// ASCII alphanumerics and spaces only, whitespace collapsed, at most
/// `max_len` characters, with `fallback` replacing an empty result.
pub fn sanitize_pix_field(value: &str, max_len: usize, fallback: &str) -> (r: String)
    ensures
        r@ == sanitize_field_spec(upper_of(trim_of(value@)), max_len as int, fallback@),
{
    let upper = uppercased(trimmed(value));
    let kept = filter_field_chars(upper.as_str());
    let mut collapsed = String::new();
    push_collapsed(&mut collapsed, &kept);
    let out = truncate_string(&collapsed, max_len);
    if out.as_str().is_empty() {
        String::from_str(fallback)
    } else {
        out
    }
}

/// Sanitizes a PIX charge description: uppercase, ASCII alphanumerics
/// plus space, `.`, `-`, `/`, whitespace collapsed, at most `max_len`
/// characters.
pub fn sanitize_pix_description(value: &str, max_len: usize) -> (r: String)
    ensures
        r@ == sanitize_desc_spec(upper_of(trim_of(value@)), max_len as int),
{
    let upper = uppercased(trimmed(value));
    let kept = filter_desc_chars(upper.as_str());
    let mut collapsed = String::new();
    push_collapsed(&mut collapsed, &kept);
    truncate_string(&collapsed, max_len)
}

// ---------------------------------------------------------------------
// Sanitizer shape laws
// ---------------------------------------------------------------------
/// Every character that the field filter emits is an ASCII digit, an
/// ASCII uppercase letter or a space.
pub proof fn lemma_field_filter_chars(s: Seq<char>)
    ensures
        forall|j: int|
            0 <= j < field_filter(s).len() ==> is_digit_char(#[trigger] field_filter(s)[j])
                || is_upper_char(field_filter(s)[j]) || field_filter(s)[j] == ' ',
    decreases s.len(),
{
    if s.len() > 0 {
        lemma_field_filter_chars(s.drop_last());
        let c = s.last();
        let rest = field_filter(s.drop_last());
        if keep_field_char(c) {
            let m = ascii_upper_char(c);
            if is_lower_char(c) {
                assert((c as u8) as int == c as int);
                assert(((c as u8) - 32) as char as int == c as int - 32);
                assert(is_upper_char(m));
            }
            assert(field_filter(s) == rest.push(m));
            assert(forall|j: int|
                0 <= j < rest.len() ==> #[trigger] field_filter(s)[j] == rest[j]);
            assert(field_filter(s)[rest.len() as int] == m);
        }
    }
}

/// Characters survive whitespace collapsing: any predicate holding of
/// the source characters and of the space also holds of the result.
pub proof fn lemma_collapse_chars(
    s: Seq<char>,
    i: int,
    in_word: bool,
    started: bool,
    p: spec_fn(char) -> bool,
)
    requires
        forall|k: int| i <= k < s.len() ==> p(#[trigger] s[k]),
        p(' '),
    ensures
        forall|j: int|
            0 <= j < collapse_from(s, i, in_word, started).len() ==> p(
                #[trigger] collapse_from(s, i, in_word, started)[j],
            ),
    decreases s.len() - i,
{
    let r = collapse_from(s, i, in_word, started);
    if 0 <= i < s.len() {
        let c = s[i];
        if c == ' ' {
            lemma_collapse_chars(s, i + 1, false, started, p);
            let rest = collapse_from(s, i + 1, false, started);
            assert(r == rest);
            assert forall|j: int| 0 <= j < r.len() implies p(r[j]) by {
                assert(p(rest[j]));
            }
        } else if in_word || !started {
            lemma_collapse_chars(s, i + 1, true, true, p);
            let rest = collapse_from(s, i + 1, true, true);
            assert(r == seq![c] + rest);
            assert forall|j: int| 0 <= j < r.len() implies p(r[j]) by {
                if j == 0 {
                    assert(r[j] == c);
                    assert(p(s[i]));
                } else {
                    assert(r[j] == rest[j - 1]);
                    assert(p(rest[j - 1]));
                }
            }
        } else {
            lemma_collapse_chars(s, i + 1, true, true, p);
            let rest = collapse_from(s, i + 1, true, true);
            assert(r == seq![' ', c] + rest);
            assert forall|j: int| 0 <= j < r.len() implies p(r[j]) by {
                if j == 0 {
                    assert(r[j] == ' ');
                } else if j == 1 {
                    assert(r[j] == c);
                    assert(p(s[i]));
                } else {
                    assert(r[j] == rest[j - 2]);
                    assert(p(rest[j - 2]));
                }
            }
        }
    }
}

/// Every space that whitespace collapsing emits is followed by a
/// non-space character, and with no word emitted yet the result cannot
/// open with a space.
pub proof fn lemma_collapse_spacing(s: Seq<char>, i: int, in_word: bool, started: bool)
    ensures
        ({
            let r = collapse_from(s, i, in_word, started);
            &&& forall|j: int|
                0 <= j < r.len() && #[trigger] r[j] == ' ' ==> j + 1 < r.len() && r[j + 1] != ' '
            &&& !started ==> (r.len() > 0 ==> r[0] != ' ')
        }),
    decreases s.len() - i,
{
    let r = collapse_from(s, i, in_word, started);
    if 0 <= i < s.len() {
        let c = s[i];
        if c == ' ' {
            lemma_collapse_spacing(s, i + 1, false, started);
            let rest = collapse_from(s, i + 1, false, started);
            assert(r == rest);
            assert forall|j: int|
                0 <= j < r.len() && #[trigger] r[j] == ' ' implies j + 1 < r.len() && r[j + 1]
                != ' ' by {
                assert(rest[j] == ' ');
            }
        } else if in_word || !started {
            lemma_collapse_spacing(s, i + 1, true, true);
            let rest = collapse_from(s, i + 1, true, true);
            assert(r == seq![c] + rest);
            assert forall|j: int|
                0 <= j < r.len() && #[trigger] r[j] == ' ' implies j + 1 < r.len() && r[j + 1] != ' ' by {
                assert(r[0] == c && c != ' ');
                assert(j >= 1);
                assert(r[j] == rest[j - 1]);
                assert(rest[j - 1] == ' ');
                assert(j - 1 + 1 < rest.len() && rest[j] != ' ');
                assert(r[j + 1] == rest[j]);
            }
        } else {
            lemma_collapse_spacing(s, i + 1, true, true);
            let rest = collapse_from(s, i + 1, true, true);
            assert(r == seq![' ', c] + rest);
            assert forall|j: int|
                0 <= j < r.len() && #[trigger] r[j] == ' ' implies j + 1 < r.len() && r[j + 1] != ' ' by {
                assert(r[0] == ' ' && r[1] == c && c != ' ');
                if j >= 2 {
                    assert(r[j] == rest[j - 2]);
                    assert(rest[j - 2] == ' ');
                    assert(j - 2 + 1 < rest.len() && rest[j - 1] != ' ');
                    assert(r[j + 1] == rest[j - 1]);
                }
            }
        }
    }
}

/// Law: a sanitized merchant field, before the empty-input fallback,
/// holds at most `max` characters, each an uppercase ASCII letter, a
/// digit or a space; it never opens with a space nor holds two spaces
/// in a row, and when nothing was truncated away it does not end with
/// a space either.
pub proof fn lemma_sanitize_field_shape(u: Seq<char>, max: int)
    requires
        max >= 0,
    ensures
        ({
            let t = truncate_chars(collapse_spaces(field_filter(u)), max);
            &&& t.len() <= max
            &&& forall|j: int|
                0 <= j < t.len() ==> is_digit_char(#[trigger] t[j]) || is_upper_char(t[j]) || t[j]
                    == ' '
            &&& (t.len() > 0 ==> t[0] != ' ')
            &&& forall|j: int| 0 <= j < t.len() - 1 ==> !(#[trigger] t[j] == ' ' && t[j + 1] == ' ')
            &&& (collapse_spaces(field_filter(u)).len() <= max && t.len() > 0 ==> t[t.len() - 1]
                != ' ')
        }),
{
    let f = field_filter(u);
    let c = collapse_spaces(f);
    let t = truncate_chars(c, max);
    lemma_field_filter_chars(u);
    lemma_collapse_chars(
        f,
        0,
        false,
        false,
        |ch: char| is_digit_char(ch) || is_upper_char(ch) || ch == ' ',
    );
    lemma_collapse_spacing(f, 0, false, false);
    assert(forall|j: int| 0 <= j < t.len() ==> #[trigger] t[j] == c[j]);
    if c.len() <= max && t.len() > 0 {
        assert(t[t.len() - 1] != ' ');
    }
}

// ---------------------------------------------------------------------
// Payload assembly
// ---------------------------------------------------------------------
/// The amount rendered with exactly two decimal digits, cents being the
/// scaled-integer representation.
pub open spec fn amount_chars(cents: int) -> Seq<char> {
    let mag = if cents < 0 {
        -cents
    } else {
        cents
    };
    let digits = dec_digits(mag / 100) + seq!['.'] + dec_digits2(mag % 100);
    if cents < 0 {
        seq!['-'] + digits
    } else {
        digits
    }
}

/// Appends the two-decimal rendering of a cent amount.
pub fn push_amount(out: &mut String, cents: i64)
    requires
        -MAX_AMOUNT_CENTS <= cents <= MAX_AMOUNT_CENTS,
    ensures
        final(out)@ == old(out)@ + amount_chars(cents as int),
{
    let mag: i64 = if cents < 0 {
        -cents
    } else {
        cents
    };
    if cents < 0 {
        push_char(out, '-');
    }
    push_dec(out, (mag / 100) as u64);
    push_char(out, '.');
    push_dec2(out, (mag % 100) as u64);
    assert(out@ =~= old(out)@ + amount_chars(cents as int));
}

/// The transaction id derived from an installment id: its first 25
/// uppercase hexadecimal digits.
pub open spec fn txid_chars(installment_id: u128) -> Seq<char> {
    hex_prefix_upper(installment_id, 25)
}

/// The payload up to and including the checksum tag-and-length marker
/// `6304`, from already sanitized parts.
pub open spec fn pix_prefix_spec(
    key: Seq<char>,
    cents: int,
    txid: Seq<char>,
    desc: Seq<char>,
    merchant_name: Seq<char>,
    merchant_city: Seq<char>,
) -> Seq<char> {
    let account_info = tlv_spec("00"@, "br.gov.bcb.pix"@) + tlv_spec("01"@, key) + (if desc.len()
        > 0 {
        tlv_spec("02"@, desc)
    } else {
        Seq::empty()
    });
    let additional = tlv_spec("05"@, txid);
    tlv_spec("00"@, "01"@) + tlv_spec("26"@, account_info) + tlv_spec("52"@, "0000"@) + tlv_spec(
        "53"@,
        "986"@,
    ) + tlv_spec("54"@, amount_chars(cents)) + tlv_spec("58"@, "BR"@) + tlv_spec(
        "59"@,
        merchant_name,
    ) + tlv_spec("60"@, merchant_city) + tlv_spec("62"@, additional) + "6304"@
}

/// A checksummed payload: the prefix followed by the four uppercase
/// hexadecimal digits of its own CRC16.
pub open spec fn with_crc(prefix: Seq<char>) -> Seq<char> {
    prefix + hex4_upper(crc16_of(encode_utf8(prefix)))
}

/// Builds the complete static PIX payload for one installment.
///
/// The merchant name and city are passed in raw and sanitized here with
/// their documented fallbacks; the description is sanitized to at most
/// 50 characters and dropped when nothing survives.
pub fn build_school_pix_payload(
    pix_key: &str,
    amount_cents: i64,
    installment_id: u128,
    description: &str,
    merchant_name: &str,
    merchant_city: &str,
) -> (r: String)
    requires
        -MAX_AMOUNT_CENTS <= amount_cents <= MAX_AMOUNT_CENTS,
    ensures
        r@ == with_crc(
            pix_prefix_spec(
                trim_of(pix_key@),
                amount_cents as int,
                txid_chars(installment_id),
                sanitize_desc_spec(upper_of(trim_of(description@)), 50),
                sanitize_field_spec(upper_of(trim_of(merchant_name@)), 25, "ESCOLA"@),
                sanitize_field_spec(upper_of(trim_of(merchant_city@)), 15, "CIDADE"@),
            ),
        ),
{
    let name = sanitize_pix_field(merchant_name, 25, "ESCOLA");
    let city = sanitize_pix_field(merchant_city, 15, "CIDADE");
    let desc = sanitize_pix_description(description, 50);
    let mut txid = String::new();
    push_hex_prefix_upper(&mut txid, installment_id, 25);

    let mut account_info = tlv("00", "br.gov.bcb.pix");
    let key_field = tlv("01", trimmed(pix_key));
    account_info.append(key_field.as_str());
    if !desc.as_str().is_empty() {
        let desc_field = tlv("02", desc.as_str());
        account_info.append(desc_field.as_str());
    }
    let additional = tlv("05", txid.as_str());

    let mut amount = String::new();
    push_amount(&mut amount, amount_cents);

    let mut prefix = tlv("00", "01");
    let part26 = tlv("26", account_info.as_str());
    prefix.append(part26.as_str());
    let part52 = tlv("52", "0000");
    prefix.append(part52.as_str());
    let part53 = tlv("53", "986");
    prefix.append(part53.as_str());
    let part54 = tlv("54", amount.as_str());
    prefix.append(part54.as_str());
    let part58 = tlv("58", "BR");
    prefix.append(part58.as_str());
    let part59 = tlv("59", name.as_str());
    prefix.append(part59.as_str());
    let part60 = tlv("60", city.as_str());
    prefix.append(part60.as_str());
    let part62 = tlv("62", additional.as_str());
    prefix.append(part62.as_str());
    prefix.append("6304");

    let ghost prefix_view = pix_prefix_spec(
        trim_of(pix_key@),
        amount_cents as int,
        txid_chars(installment_id),
        sanitize_desc_spec(upper_of(trim_of(description@)), 50),
        sanitize_field_spec(upper_of(trim_of(merchant_name@)), 25, "ESCOLA"@),
        sanitize_field_spec(upper_of(trim_of(merchant_city@)), 15, "CIDADE"@),
    );
    assert(prefix@ =~= prefix_view);

    let crc = crc16_ccitt_false(prefix.as_str());
    let mut payload = prefix;
    push_hex4_upper(&mut payload, crc);
    assert(payload@ =~= with_crc(prefix_view));
    payload
}

// ---------------------------------------------------------------------
// Checksum self-verification
// ---------------------------------------------------------------------
/// Whether `s` ends in the four uppercase hexadecimal digits of the
/// CRC16 of everything before them.
pub open spec fn pix_self_checked(s: Seq<char>) -> bool {
    s.len() >= 4 && s.skip(s.len() - 4) == hex4_upper(
        crc16_of(encode_utf8(s.take(s.len() - 4))),
    )
}

/// Law: recomputing the CRC16 over a checksummed payload minus its
/// trailing four characters reproduces exactly those four characters,
/// whatever the prefix holds.
pub proof fn lemma_with_crc_self_checked(prefix: Seq<char>)
    ensures
        pix_self_checked(with_crc(prefix)),
        with_crc(prefix).take(with_crc(prefix).len() - 4) == prefix,
{
    let full = with_crc(prefix);
    assert(full.take(full.len() - 4) =~= prefix);
    assert(full.skip(full.len() - 4) =~= hex4_upper(crc16_of(encode_utf8(prefix))));
}

/// Recomputes the checksum over a payload minus its trailing four
/// characters and compares it with those characters.
pub fn pix_crc_matches(payload: &str) -> (r: bool)
    ensures
        r == pix_self_checked(payload@),
{
    let n = payload.unicode_len();
    if n < 4 {
        return false;
    }
    let prefix = payload.substring_char(0, n - 4);
    let crc = crc16_ccitt_false(prefix);
    let mut expect = String::new();
    push_hex4_upper(&mut expect, crc);
    let mut i: usize = 0;
    while i < 4
        invariant
            n == payload@.len(),
            4 <= n,
            expect@ == hex4_upper(crc16_of(encode_utf8(payload@.take(n - 4)))),
            0 <= i <= 4,
            forall|j: int| 0 <= j < i ==> payload@[n - 4 + j] == expect@[j],
        decreases 4 - i,
    {
        if payload.get_char(n - 4 + i) != expect.as_str().get_char(i) {
            assert(payload@.skip(n - 4)[i as int] != expect@[i as int]);
            return false;
        }
        i = i + 1;
    }
    assert(payload@.skip(n - 4) =~= expect@);
    true
}

} // verus!
