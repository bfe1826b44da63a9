//! Hex and decimal string codecs used across the RPC client, the replay
//! engine and the tracker: quote stripping, hex parsing into `u64`,
//! and rendering of numbers as decimal or `0x`-prefixed hex strings.

use vstd::prelude::*;

verus! {

/// Error cases of parsing a numeric string.
#[derive(Debug, Clone, Copy, PartialEq, Eq, Structural)]
pub enum NumParseError {
    /// The digit region was empty.
    Empty,
    /// A character was not a digit of the expected base.
    InvalidDigit,
    /// The value does not fit in a `u64`.
    Overflow,
}

pub open spec fn is_hex_digit(c: char) -> bool {
    ('0' <= c && c <= '9') || ('a' <= c && c <= 'f') || ('A' <= c && c <= 'F')
}

pub open spec fn is_dec_digit(c: char) -> bool {
    '0' <= c && c <= '9'
}

pub open spec fn hex_digit_value(c: char) -> nat {
    if '0' <= c && c <= '9' {
        (c as nat - '0' as nat) as nat
    } else if 'a' <= c && c <= 'f' {
        (c as nat - 'a' as nat + 10) as nat
    } else if 'A' <= c && c <= 'F' {
        (c as nat - 'A' as nat + 10) as nat
    } else {
        0
    }
}

/// The `0x` prefix, removed if present.
pub open spec fn strip_hex_prefix(s: Seq<char>) -> Seq<char> {
    if s.len() >= 2 && s[0] == '0' && s[1] == 'x' {
        s.skip(2)
    } else {
        s
    }
}

/// Left-to-right hex parse of `s[i..]` with accumulator `acc`, mirroring
/// the order in which the executable scan meets its error cases.
pub open spec fn spec_parse_hex_digits(s: Seq<char>, i: int, acc: nat) -> Result<u64, NumParseError>
    decreases s.len() - i,
{
    if i < 0 || i >= s.len() {
        Ok(acc as u64)
    } else if !is_hex_digit(s[i]) {
        Err(NumParseError::InvalidDigit)
    } else if acc * 16 + hex_digit_value(s[i]) > u64::MAX {
        Err(NumParseError::Overflow)
    } else {
        spec_parse_hex_digits(s, i + 1, acc * 16 + hex_digit_value(s[i]))
    }
}

/// What parsing a hex string returns: the `0x` prefix is stripped first,
/// an empty digit region is rejected, digits are folded left to right.
pub open spec fn spec_parse_hex(s: Seq<char>) -> Result<u64, NumParseError> {
    let t = strip_hex_prefix(s);
    if t.len() == 0 {
        Err(NumParseError::Empty)
    } else {
        spec_parse_hex_digits(t, 0, 0)
    }
}

/// Left-to-right decimal parse of `s[i..]` with accumulator `acc`.
pub open spec fn spec_parse_dec_digits(s: Seq<char>, i: int, acc: nat) -> Result<u64, NumParseError>
    decreases s.len() - i,
{
    if i < 0 || i >= s.len() {
        Ok(acc as u64)
    } else if !is_dec_digit(s[i]) {
        Err(NumParseError::InvalidDigit)
    } else if acc * 10 + hex_digit_value(s[i]) > u64::MAX {
        Err(NumParseError::Overflow)
    } else {
        spec_parse_dec_digits(s, i + 1, acc * 10 + hex_digit_value(s[i]))
    }
}

/// What parsing a decimal string returns.
pub open spec fn spec_parse_dec(s: Seq<char>) -> Result<u64, NumParseError> {
    if s.len() == 0 {
        Err(NumParseError::Empty)
    } else {
        spec_parse_dec_digits(s, 0, 0)
    }
}

/// The character for digit value `d` (`0..=15`), lower case.
pub open spec fn digit_char(d: nat) -> char {
    if d == 0 { '0' }
    else if d == 1 { '1' }
    else if d == 2 { '2' }
    else if d == 3 { '3' }
    else if d == 4 { '4' }
    else if d == 5 { '5' }
    else if d == 6 { '6' }
    else if d == 7 { '7' }
    else if d == 8 { '8' }
    else if d == 9 { '9' }
    else if d == 10 { 'a' }
    else if d == 11 { 'b' }
    else if d == 12 { 'c' }
    else if d == 13 { 'd' }
    else if d == 14 { 'e' }
    else { 'f' }
}

/// The digits of `n` in base `base`, most significant first; empty for 0.
pub open spec fn spec_digits(n: nat, base: nat) -> Seq<char>
    decreases n,
    via spec_digits_decreases
{
    if n == 0 || base < 2 {
        Seq::empty()
    } else {
        spec_digits(n / base, base).push(digit_char(n % base))
    }
}

#[via_fn]
proof fn spec_digits_decreases(n: nat, base: nat) {
    if n > 0 && base >= 2 {
        vstd::arithmetic::div_mod::lemma_div_decreases(n as int, base as int);
    }
}

/// The base-`base` rendering of `n`; `"0"` for 0.
pub open spec fn spec_number_str(n: nat, base: nat) -> Seq<char> {
    if n == 0 {
        seq!['0']
    } else {
        spec_digits(n, base)
    }
}

/// The decimal rendering of `n`.
pub open spec fn spec_dec_str(n: nat) -> Seq<char> {
    spec_number_str(n, 10)
}

/// The lower-case hex rendering of `n`, without a prefix.
pub open spec fn spec_hex_str(n: nat) -> Seq<char> {
    spec_number_str(n, 16)
}

/// Quote stripping applied to RPC results: a leading `"` drops the first
/// and last characters, anything else is returned unchanged.
pub open spec fn spec_format_hex(s: Seq<char>) -> Seq<char> {
    if s.len() >= 1 && s[0] == '"' {
        s.subrange(1, s.len() - 1)
    } else {
        s
    }
}

/// Strips one layer of surrounding quotes, as found around string results
/// of a JSON-RPC response: `"\"0x8a\""` becomes `"0x8a"`.
pub fn format_hex<'a>(hex: &'a str) -> (r: &'a str)
    requires
        hex@.len() >= 1 && hex@[0] == '"' ==> hex@.len() >= 2,
    ensures
        r@ == spec_format_hex(hex@),
{
    let n = hex.unicode_len();
    if n >= 1 && hex.get_char(0) == '"' {
        hex.substring_char(1, n - 1)
    } else {
        hex
    }
}

/// One lower-case digit character for a value below 16, as a string slice.
pub fn digit_str(d: usize) -> (r: &'static str)
    requires
        d < 16,
    ensures
        r@ =~= seq![digit_char(d as nat)],
{
    let table = "0123456789abcdef";
    proof {
        reveal_strlit("0123456789abcdef");
    }
    let r = table.substring_ascii(d, d + 1);
    proof {
        assert(r@ =~= seq![digit_char(d as nat)]);
    }
    r
}

/// Parses a hex string into a `u64`, ignoring a `0x` prefix if present.
pub fn hex_to_decimal(hex_string: &str) -> (r: Result<u64, NumParseError>)
    ensures
        r == spec_parse_hex(hex_string@),
{
    let n = hex_string.unicode_len();
    let start: usize = if n >= 2 && hex_string.get_char(0) == '0' && hex_string.get_char(1) == 'x' {
        2
    } else {
        0
    };
    proof {
        assert(strip_hex_prefix(hex_string@) =~= hex_string@.skip(start as int));
    }
    if n - start == 0 {
        return Err(NumParseError::Empty);
    }
    let ghost t = hex_string@.skip(start as int);
    let mut acc: u64 = 0;
    let mut i: usize = start;
    while i < n
        invariant
            start <= i <= n,
            n == hex_string@.len(),
            n - start >= 1,
            t == hex_string@.skip(start as int),
            t == strip_hex_prefix(hex_string@),
            spec_parse_hex_digits(t, 0, 0) == spec_parse_hex_digits(t, i - start, acc as nat),
        decreases n - i,
    {
        let c = hex_string.get_char(i);
        assert(c == t[i - start]);
        let d: u64 = if '0' <= c && c <= '9' {
            (c as u32 - '0' as u32) as u64
        } else if 'a' <= c && c <= 'f' {
            (c as u32 - 'a' as u32 + 10) as u64
        } else if 'A' <= c && c <= 'F' {
            (c as u32 - 'A' as u32 + 10) as u64
        } else {
            return Err(NumParseError::InvalidDigit);
        };
        assert(d == hex_digit_value(c));
        if acc as u128 * 16 + d as u128 > u64::MAX as u128 {
            return Err(NumParseError::Overflow);
        }
        acc = acc * 16 + d;
        i = i + 1;
    }
    Ok(acc)
}

/// Parses a decimal string into a `u64`.
pub fn parse_decimal(s: &str) -> (r: Result<u64, NumParseError>)
    ensures
        r == spec_parse_dec(s@),
{
    let n = s.unicode_len();
    if n == 0 {
        return Err(NumParseError::Empty);
    }
    let mut acc: u64 = 0;
    let mut i: usize = 0;
    while i < n
        invariant
            i <= n,
            n == s@.len(),
            spec_parse_dec_digits(s@, 0, 0) == spec_parse_dec_digits(s@, i as int, acc as nat),
        decreases n - i,
    {
        let c = s.get_char(i);
        let d: u64 = if '0' <= c && c <= '9' {
            (c as u32 - '0' as u32) as u64
        } else {
            return Err(NumParseError::InvalidDigit);
        };
        assert(d == hex_digit_value(c));
        if acc as u128 * 10 + d as u128 > u64::MAX as u128 {
            return Err(NumParseError::Overflow);
        }
        acc = acc * 10 + d;
        i = i + 1;
    }
    Ok(acc)
}

/// Whether `s` carries the `0x` prefix.
pub open spec fn has_hex_prefix(s: Seq<char>) -> bool {
    s.len() >= 2 && s[0] == '0' && s[1] == 'x'
}

/// A 20-byte address rendering: `0x` followed by exactly 40 hex digits.
pub open spec fn spec_is_eth_address(s: Seq<char>) -> bool {
    s.len() == 42 && s[0] == '0' && s[1] == 'x' && (forall|i: int| 2 <= i < 42 ==> is_hex_digit(s[i]))
}

/// The digit values of `n` in `base`, least significant first.
spec fn rev_digit_chars(ds: Seq<usize>) -> Seq<char>
    decreases ds.len(),
{
    if ds.len() == 0 {
        Seq::empty()
    } else {
        seq![digit_char(ds.last() as nat)] + rev_digit_chars(ds.drop_last())
    }
}

/// Appends the base-`base` digits of `n` to `out` (nothing for 0).
fn push_digits(out: &mut String, n: u64, base: u64)
    requires
        base == 10 || base == 16,
    ensures
        final(out)@ == old(out)@ + spec_digits(n as nat, base as nat),
{
    let mut digits: Vec<usize> = Vec::new();
    let mut m = n;
    while m > 0
        invariant
            base == 10 || base == 16,
            forall|k: int| 0 <= k < digits@.len() ==> digits@[k] < 16,
            spec_digits(n as nat, base as nat) == spec_digits(m as nat, base as nat) + rev_digit_chars(digits@),
        decreases m,
    {
        let ghost m0 = m as nat;
        let ghost old_digits = digits@;
        let d = (m % base) as usize;
        digits.push(d);
        m = m / base;
        proof {
            assert(spec_digits(m0, base as nat) == spec_digits(m as nat, base as nat).push(digit_char(d as nat)));
            assert(digits@.last() == d && digits@.drop_last() =~= old_digits);
            assert(rev_digit_chars(digits@) =~= seq![digit_char(d as nat)] + rev_digit_chars(old_digits));
            assert(spec_digits(m as nat, base as nat) + rev_digit_chars(digits@)
                =~= (spec_digits(m as nat, base as nat).push(digit_char(d as nat))) + rev_digit_chars(old_digits));
        }
    }
    proof {
        assert(spec_digits(0nat, base as nat) + rev_digit_chars(digits@) =~= rev_digit_chars(digits@));
        assert(digits@.take(digits@.len() as int) =~= digits@);
    }
    let mut i = digits.len();
    while i > 0
        invariant
            i <= digits@.len(),
            forall|k: int| 0 <= k < digits@.len() ==> digits@[k] < 16,
            spec_digits(n as nat, base as nat) == rev_digit_chars(digits@),
            old(out)@ + rev_digit_chars(digits@) == out@ + rev_digit_chars(digits@.take(i as int)),
        decreases i,
    {
        i = i - 1;
        let ghost pre = out@;
        out.append(digit_str(digits[i]));
        proof {
            let t = digits@.take(i + 1);
            assert(t.last() == digits@[i as int] && t.drop_last() =~= digits@.take(i as int));
            assert(rev_digit_chars(t) =~= seq![digit_char(digits@[i as int] as nat)] + rev_digit_chars(digits@.take(i as int)));
            assert(pre + rev_digit_chars(t) =~= out@ + rev_digit_chars(digits@.take(i as int)));
        }
    }
    proof {
        assert(rev_digit_chars(digits@.take(0)) =~= Seq::<char>::empty());
        assert(old(out)@ + rev_digit_chars(digits@) =~= out@);
    }
}

/// Renders `n` as a decimal string.
pub fn decimal_string(n: u64) -> (r: String)
    ensures
        r@ == spec_dec_str(n as nat),
{
    proof {
        reveal_strlit("0");
    }
    if n == 0 {
        return String::from_str("0");
    }
    let mut out = String::new();
    push_digits(&mut out, n, 10);
    proof {
        assert(Seq::<char>::empty() + spec_digits(n as nat, 10) =~= spec_digits(n as nat, 10));
    }
    out
}

/// Renders `n` as a `0x`-prefixed lower-case hex string.
pub fn decimal_to_hex(decimal: u64) -> (r: String)
    ensures
        r@ == seq!['0', 'x'] + spec_hex_str(decimal as nat),
{
    proof {
        reveal_strlit("0x");
        reveal_strlit("0x0");
    }
    if decimal == 0 {
        return String::from_str("0x0");
    }
    let mut out = String::from_str("0x");
    push_digits(&mut out, decimal, 16);
    out
}

/// Interprets an operator-supplied block argument: a `0x`-prefixed string
/// is kept as it stands, anything else is read as decimal and rendered as
/// `0x`-prefixed hex.
pub fn format_number_input(block: &str) -> (r: String)
    requires
        has_hex_prefix(block@) || spec_parse_dec(block@) is Ok,
    ensures
        has_hex_prefix(block@) ==> r@ == block@,
        !has_hex_prefix(block@) ==> r@ == seq!['0', 'x'] + spec_hex_str(spec_parse_dec(block@)->Ok_0 as nat),
{
    let n = block.unicode_len();
    if n >= 2 && block.get_char(0) == '0' && block.get_char(1) == 'x' {
        block.to_owned()
    } else {
        let value = match parse_decimal(block) {
            Ok(v) => v,
            Err(_) => {
                proof {
                    assert(false);
                }
                0
            },
        };
        decimal_to_hex(value)
    }
}

/// Whether two string slices hold the same characters.
pub fn str_equal(a: &str, b: &str) -> (r: bool)
    ensures
        r == (a@ == b@),
{
    let n = a.unicode_len();
    let m = b.unicode_len();
    if n != m {
        return false;
    }
    let mut i: usize = 0;
    while i < n
        invariant
            i <= n,
            n == a@.len() && n == b@.len(),
            forall|k: int| 0 <= k < i ==> a@[k] == b@[k],
        decreases n - i,
    {
        if a.get_char(i) != b.get_char(i) {
            return false;
        }
        i = i + 1;
    }
    proof {
        assert(a@ =~= b@);
    }
    true
}

/// Whether `hex_str` looks like a 20-byte address: `0x` plus 40 hex digits.
pub fn is_valid_eth_address(hex_str: &str) -> (r: bool)
    ensures
        r == spec_is_eth_address(hex_str@),
{
    let n = hex_str.unicode_len();
    if n != 42 {
        return false;
    }
    if !(hex_str.get_char(0) == '0' && hex_str.get_char(1) == 'x') {
        return false;
    }
    let mut i: usize = 2;
    while i < 42
        invariant
            2 <= i <= 42,
            hex_str@.len() == 42,
            forall|k: int| 2 <= k < i ==> is_hex_digit(hex_str@[k]),
        decreases 42 - i,
    {
        let c = hex_str.get_char(i);
        if !(('0' <= c && c <= '9') || ('a' <= c && c <= 'f') || ('A' <= c && c <= 'F')) {
            return false;
        }
        i = i + 1;
    }
    true
}

} // verus!
