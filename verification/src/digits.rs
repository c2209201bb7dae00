//! Decimal and hexadecimal numerals: the textual encodings of the integers
//! that appear on the wire (ring identifiers, address octets, address
//! groups), with exact round-trip guarantees.

use vstd::prelude::*;

verus! {

/// Why a numeral failed to parse.
#[derive(Clone, Copy, PartialEq, Eq, Structural, Debug)]
pub enum IntParseError {
    /// The input was empty.
    Empty,
    /// Some character was not a digit of the expected base.
    InvalidDigit,
    /// The value does not fit in the target integer type.
    Overflow,
}

/// The character for one decimal digit value.
pub open spec fn dec_digit_char(d: int) -> char {
    if d == 0 { '0' }
    else if d == 1 { '1' }
    else if d == 2 { '2' }
    else if d == 3 { '3' }
    else if d == 4 { '4' }
    else if d == 5 { '5' }
    else if d == 6 { '6' }
    else if d == 7 { '7' }
    else if d == 8 { '8' }
    else { '9' }
}

pub open spec fn is_dec_digit(c: char) -> bool {
    '0' as u32 <= c as u32 <= '9' as u32
}

/// The value of one decimal digit character.
pub open spec fn dec_digit_value(c: char) -> int {
    c as u32 - '0' as u32
}

/// The decimal numeral of `n`: most significant digit first, no leading
/// zeros, a single `'0'` for zero.
pub open spec fn u64_dec(n: nat) -> Seq<char>
    decreases n,
{
    if n < 10 {
        seq![dec_digit_char(n as int)]
    } else {
        u64_dec(n / 10) + seq![dec_digit_char((n % 10) as int)]
    }
}

pub open spec fn all_dec_digits(s: Seq<char>) -> bool {
    forall|i: int| 0 <= i < s.len() ==> is_dec_digit(#[trigger] s[i])
}

/// The value denoted by a sequence of decimal digit characters.
pub open spec fn dec_seq_value(s: Seq<char>) -> int
    decreases s.len(),
{
    if s.len() == 0 {
        0
    } else {
        dec_seq_value(s.drop_last()) * 10 + dec_digit_value(s.last())
    }
}

/// The decimal numeral of `n` is made of digits and parses back to `n`.
pub proof fn lemma_u64_dec_round_trip(n: nat)
    ensures
        u64_dec(n).len() >= 1,
        all_dec_digits(u64_dec(n)),
        dec_seq_value(u64_dec(n)) == n,
    decreases n,
{
    if n < 10 {
        reveal_with_fuel(dec_seq_value, 2);
        assert(u64_dec(n).drop_last() =~= Seq::<char>::empty());
    } else {
        lemma_u64_dec_round_trip(n / 10);
        assert(u64_dec(n).drop_last() =~= u64_dec(n / 10));
        assert(dec_seq_value(u64_dec(n)) == n / 10 * 10 + n % 10);
    }
}

/// A decimal numeral never starts with a leading zero: only zero itself
/// starts with `'0'`, and its numeral is that single digit.
pub proof fn lemma_u64_dec_no_leading_zero(n: nat)
    requires
        n >= 1,
    ensures
        u64_dec(n)[0] != '0',
    decreases n,
{
    if n >= 10 {
        lemma_u64_dec_round_trip(n / 10);
        lemma_u64_dec_no_leading_zero(n / 10);
        assert(u64_dec(n)[0] == u64_dec(n / 10)[0]);
    }
}

/// Extending a digit string to the right never decreases its value.
pub proof fn lemma_dec_prefix_value_le(s: Seq<char>, i: int)
    requires
        all_dec_digits(s),
        0 <= i <= s.len(),
    ensures
        dec_seq_value(s.take(i)) <= dec_seq_value(s),
    decreases s.len(),
{
    if i == s.len() {
        assert(s.take(i) =~= s);
    } else {
        assert(s.take(i) =~= s.drop_last().take(i));
        lemma_dec_prefix_value_le(s.drop_last(), i);
        lemma_dec_value_nonneg(s.drop_last());
        assert(dec_seq_value(s) == dec_seq_value(s.drop_last()) * 10 + dec_digit_value(s.last()));
        assert(dec_seq_value(s.drop_last()) * 10 >= dec_seq_value(s.drop_last()))
            by (nonlinear_arith)
            requires
                dec_seq_value(s.drop_last()) >= 0,
        ;
        assert(dec_digit_value(s.last()) >= 0);
    }
}

/// A string of decimal digits denotes a non-negative value.
pub proof fn lemma_dec_value_nonneg(s: Seq<char>)
    requires
        all_dec_digits(s),
    ensures
        dec_seq_value(s) >= 0,
    decreases s.len(),
{
    if s.len() > 0 {
        lemma_dec_value_nonneg(s.drop_last());
        assert(dec_digit_value(s.last()) >= 0);
        assert(dec_seq_value(s.drop_last()) * 10 >= 0) by (nonlinear_arith)
            requires
                dec_seq_value(s.drop_last()) >= 0,
        ;
    }
}

/// The str holding one decimal digit.
fn dec_digit_str(d: u64) -> (r: &'static str)
    requires
        d < 10,
    ensures
        r@ == seq![dec_digit_char(d as int)],
{
    let r: &'static str = match d {
        0 => "0",
        1 => "1",
        2 => "2",
        3 => "3",
        4 => "4",
        5 => "5",
        6 => "6",
        7 => "7",
        8 => "8",
        _ => "9",
    };
    proof {
        reveal_strlit("0");
        reveal_strlit("1");
        reveal_strlit("2");
        reveal_strlit("3");
        reveal_strlit("4");
        reveal_strlit("5");
        reveal_strlit("6");
        reveal_strlit("7");
        reveal_strlit("8");
        reveal_strlit("9");
        assert(r@ =~= seq![dec_digit_char(d as int)]);
    }
    r
}

/// Append the decimal numeral of `n` to `out`.
pub fn push_u64_dec(n: u64, out: &mut String)
    ensures
        final(out)@ == old(out)@ + u64_dec(n as nat),
    decreases n,
{
    if n < 10 {
        out.append(dec_digit_str(n));
    } else {
        push_u64_dec(n / 10, out);
        out.append(dec_digit_str(n % 10));
        assert(out@ =~= old(out)@ + u64_dec(n as nat));
    }
}

/// The decimal numeral of `n` as a fresh string.
pub fn u64_to_dec_string(n: u64) -> (s: String)
    ensures
        s@ == u64_dec(n as nat),
{
    let mut s = String::new();
    push_u64_dec(n, &mut s);
    proof {
        assert(s@ =~= u64_dec(n as nat));
    }
    s
}

/// Parse a decimal numeral into a `u64`.
///
/// Succeeds exactly on non-empty all-digit strings whose value fits; each
/// error names the first failing condition in the order empty, non-digit,
/// overflow.
pub fn parse_u64_dec(s: &str) -> (r: Result<u64, IntParseError>)
    ensures
        match r {
            Ok(v) => s@.len() > 0 && all_dec_digits(s@) && dec_seq_value(s@) == v as int,
            Err(IntParseError::Empty) => s@.len() == 0,
            Err(IntParseError::InvalidDigit) => s@.len() > 0 && !all_dec_digits(s@),
            Err(IntParseError::Overflow) => s@.len() > 0 && all_dec_digits(s@) && dec_seq_value(s@)
                > u64::MAX,
        },
{
    let len = s.unicode_len();
    if len == 0 {
        return Err(IntParseError::Empty);
    }
    let mut i: usize = 0;
    while i < len
        invariant
            0 <= i <= len,
            len == s@.len(),
            forall|j: int| 0 <= j < i ==> is_dec_digit(#[trigger] s@[j]),
        decreases len - i,
    {
        let c = s.get_char(i);
        let u = c as u32;
        if u < '0' as u32 || u > '9' as u32 {
            return Err(IntParseError::InvalidDigit);
        }
        i = i + 1;
    }
    let mut acc: u64 = 0;
    let mut i: usize = 0;
    while i < len
        invariant
            0 <= i <= len,
            len == s@.len(),
            all_dec_digits(s@),
            acc as int == dec_seq_value(s@.take(i as int)),
        decreases len - i,
    {
        let c = s.get_char(i);
        proof {
            assert(is_dec_digit(s@[i as int]));
        }
        let d = c as u32 - '0' as u32;
        let wide = (acc as u128) * 10 + (d as u128);
        proof {
            assert(s@.take(i + 1).drop_last() =~= s@.take(i as int));
            assert(s@.take(i + 1).last() == s@[i as int]);
            assert(dec_seq_value(s@.take(i + 1)) == acc as int * 10 + d as int);
        }
        if wide > u64::MAX as u128 {
            proof {
                lemma_dec_prefix_value_le(s@, i + 1);
            }
            return Err(IntParseError::Overflow);
        }
        acc = wide as u64;
        i = i + 1;
    }
    proof {
        assert(s@.take(len as int) =~= s@);
    }
    Ok(acc)
}

/// The text `s` is a decimal numeral denoting exactly `v`.
pub open spec fn dec_string_parses_to(s: Seq<char>, v: u64) -> bool {
    s.len() > 0 && all_dec_digits(s) && dec_seq_value(s) == v as int
}

/// The text `s` is a decimal numeral whose value fits a `u64`.
pub open spec fn dec_string_ok(s: Seq<char>) -> bool {
    s.len() > 0 && all_dec_digits(s) && dec_seq_value(s) <= u64::MAX
}

/// The text `s` fails to parse as a `u64` numeral with error `e`.
pub open spec fn dec_string_fails(s: Seq<char>, e: IntParseError) -> bool {
    match e {
        IntParseError::Empty => s.len() == 0,
        IntParseError::InvalidDigit => s.len() > 0 && !all_dec_digits(s),
        IntParseError::Overflow => all_dec_digits(s) && dec_seq_value(s) > u64::MAX,
    }
}

/// The character for one hexadecimal digit value, lower case.
pub open spec fn hex_digit_char(d: int) -> char {
    if d < 10 { dec_digit_char(d) }
    else if d == 10 { 'a' }
    else if d == 11 { 'b' }
    else if d == 12 { 'c' }
    else if d == 13 { 'd' }
    else if d == 14 { 'e' }
    else { 'f' }
}

/// A hexadecimal digit character, either case.
pub open spec fn is_hex_digit(c: char) -> bool {
    ('0' as u32 <= c as u32 <= '9' as u32) || ('a' as u32 <= c as u32 <= 'f' as u32) || (
    'A' as u32 <= c as u32 <= 'F' as u32)
}

/// The value of one hexadecimal digit character, either case.
pub open spec fn hex_digit_value(c: char) -> int {
    if '0' as u32 <= c as u32 <= '9' as u32 {
        c as u32 - '0' as u32
    } else if 'a' as u32 <= c as u32 <= 'f' as u32 {
        c as u32 - 'a' as u32 + 10
    } else {
        c as u32 - 'A' as u32 + 10
    }
}

/// The hexadecimal numeral of `n`, lower case, most significant digit
/// first, no leading zeros, a single `'0'` for zero.
pub open spec fn u16_hex(n: nat) -> Seq<char>
    decreases n,
{
    if n < 16 {
        seq![hex_digit_char(n as int)]
    } else {
        u16_hex(n / 16) + seq![hex_digit_char((n % 16) as int)]
    }
}

pub open spec fn all_hex_digits(s: Seq<char>) -> bool {
    forall|i: int| 0 <= i < s.len() ==> is_hex_digit(#[trigger] s[i])
}

/// The value denoted by a sequence of hexadecimal digit characters.
pub open spec fn hex_seq_value(s: Seq<char>) -> int
    decreases s.len(),
{
    if s.len() == 0 {
        0
    } else {
        hex_seq_value(s.drop_last()) * 16 + hex_digit_value(s.last())
    }
}

/// Each hexadecimal digit value maps to a digit character that maps back.
pub proof fn lemma_hex_digit_char_value(d: int)
    requires
        0 <= d < 16,
    ensures
        is_hex_digit(hex_digit_char(d)),
        hex_digit_value(hex_digit_char(d)) == d,
{
}

/// The hexadecimal numeral of `n` is made of digits and parses back to `n`.
pub proof fn lemma_u16_hex_round_trip(n: nat)
    ensures
        u16_hex(n).len() >= 1,
        all_hex_digits(u16_hex(n)),
        hex_seq_value(u16_hex(n)) == n,
    decreases n,
{
    if n < 16 {
        reveal_with_fuel(hex_seq_value, 2);
        lemma_hex_digit_char_value(n as int);
        assert(u16_hex(n).drop_last() =~= Seq::<char>::empty());
    } else {
        lemma_u16_hex_round_trip(n / 16);
        lemma_hex_digit_char_value((n % 16) as int);
        assert(u16_hex(n).drop_last() =~= u16_hex(n / 16));
        assert(hex_seq_value(u16_hex(n)) == n / 16 * 16 + n % 16);
    }
}

/// The str holding one lower-case hexadecimal digit.
fn hex_digit_str(d: u64) -> (r: &'static str)
    requires
        d < 16,
    ensures
        r@ == seq![hex_digit_char(d as int)],
{
    if d < 10 {
        dec_digit_str(d)
    } else {
        let r: &'static str = match d {
            10 => "a",
            11 => "b",
            12 => "c",
            13 => "d",
            14 => "e",
            _ => "f",
        };
        proof {
            reveal_strlit("a");
            reveal_strlit("b");
            reveal_strlit("c");
            reveal_strlit("d");
            reveal_strlit("e");
            reveal_strlit("f");
            assert(r@ =~= seq![hex_digit_char(d as int)]);
        }
        r
    }
}

/// Append the hexadecimal numeral of `n` to `out`.
pub fn push_u16_hex(n: u16, out: &mut String)
    ensures
        final(out)@ == old(out)@ + u16_hex(n as nat),
    decreases n,
{
    if n < 16 {
        out.append(hex_digit_str(n as u64));
    } else {
        push_u16_hex(n / 16, out);
        out.append(hex_digit_str((n % 16) as u64));
        assert(out@ =~= old(out)@ + u16_hex(n as nat));
    }
}

/// Parse the character range `[from, to)` of `s` as a hexadecimal group of
/// at most four digits, as used by textual network addresses.
///
/// Succeeds exactly on ranges of one to four hexadecimal digit characters;
/// such a group always fits in a `u16`.
pub fn parse_hex_group(s: &str, from: usize, to: usize) -> (r: Result<u16, IntParseError>)
    requires
        from <= to <= s@.len(),
    ensures
        match r {
            Ok(v) => {
                &&& 1 <= to - from <= 4
                &&& all_hex_digits(s@.subrange(from as int, to as int))
                &&& hex_seq_value(s@.subrange(from as int, to as int)) == v as int
            },
            Err(IntParseError::Empty) => from == to,
            Err(IntParseError::InvalidDigit) => from < to && !all_hex_digits(
                s@.subrange(from as int, to as int),
            ),
            Err(IntParseError::Overflow) => to - from > 4 && all_hex_digits(
                s@.subrange(from as int, to as int),
            ),
        },
{
    if from == to {
        return Err(IntParseError::Empty);
    }
    let mut i: usize = from;
    while i < to
        invariant
            from <= i <= to <= s@.len(),
            forall|j: int| from <= j < i ==> is_hex_digit(#[trigger] s@[j]),
        decreases to - i,
    {
        let c = s.get_char(i);
        let u = c as u32;
        let is_hex = (u >= '0' as u32 && u <= '9' as u32) || (u >= 'a' as u32 && u <= 'f' as u32)
            || (u >= 'A' as u32 && u <= 'F' as u32);
        if !is_hex {
            proof {
                assert(s@.subrange(from as int, to as int)[i - from] == s@[i as int]);
            }
            return Err(IntParseError::InvalidDigit);
        }
        i = i + 1;
    }
    proof {
        assert(all_hex_digits(s@.subrange(from as int, to as int))) by {
            assert(forall|j: int| 0 <= j < to - from ==> #[trigger] s@.subrange(
                from as int,
                to as int,
            )[j] == s@[from + j]);
        }
    }
    if to - from > 4 {
        return Err(IntParseError::Overflow);
    }
    let mut acc: u32 = 0;
    let mut i: usize = from;
    while i < to
        invariant
            from <= i <= to <= s@.len(),
            to - from <= 4,
            all_hex_digits(s@.subrange(from as int, to as int)),
            acc as int == hex_seq_value(s@.subrange(from as int, i as int)),
        decreases to - i,
    {
        let c = s.get_char(i);
        proof {
            assert(s@.subrange(from as int, to as int)[i - from] == s@[i as int]);
            assert(is_hex_digit(s@[i as int]));
            assert(forall|j: int| 0 <= j < i - from ==> #[trigger] s@.subrange(
                from as int,
                i as int,
            )[j] == s@.subrange(from as int, to as int)[j]);
            assert(all_hex_digits(s@.subrange(from as int, i as int)));
            lemma_hex_value_bound(s@.subrange(from as int, i as int));
            lemma_pow16_le(i - from, 3);
            assert(pow16(3) == 4096) by {
                reveal_with_fuel(pow16, 5);
            }
            assert(s@.subrange(from as int, i + 1).drop_last() =~= s@.subrange(
                from as int,
                i as int,
            ));
            assert(s@.subrange(from as int, i + 1).last() == s@[i as int]);
        }
        let u = c as u32;
        let d: u32 = if u >= '0' as u32 && u <= '9' as u32 {
            u - '0' as u32
        } else if u >= 'a' as u32 && u <= 'f' as u32 {
            u - 'a' as u32 + 10
        } else {
            u - 'A' as u32 + 10
        };
        acc = acc * 16 + d;
        i = i + 1;
    }
    proof {
        assert(s@.subrange(from as int, i as int) =~= s@.subrange(from as int, to as int));
        lemma_hex_value_bound(s@.subrange(from as int, to as int));
        lemma_pow16_le(to - from, 4);
        assert(pow16(4) == 0x10000) by {
            reveal_with_fuel(pow16, 6);
        }
    }
    Ok(acc as u16)
}

/// Sixteen to the power `k`.
pub open spec fn pow16(k: int) -> nat
    decreases k,
{
    if k <= 0 {
        1
    } else {
        16 * pow16(k - 1)
    }
}

proof fn lemma_pow16_le(j: int, k: int)
    requires
        j <= k,
    ensures
        pow16(j) <= pow16(k),
    decreases k,
{
    if j < k && k > 0 {
        lemma_pow16_le(j, k - 1);
    }
}

/// Ten to the power `k`.
pub open spec fn pow10(k: int) -> nat
    decreases k,
{
    if k <= 0 {
        1
    } else {
        10 * pow10(k - 1)
    }
}

/// A string of decimal digits denotes a value below ten to its length.
pub proof fn lemma_dec_value_bound(s: Seq<char>)
    requires
        all_dec_digits(s),
    ensures
        dec_seq_value(s) < pow10(s.len() as int),
    decreases s.len(),
{
    if s.len() > 0 {
        lemma_dec_value_bound(s.drop_last());
        assert(dec_digit_value(s.last()) <= 9);
        assert(dec_seq_value(s.drop_last()) * 10 + 10 <= pow10(s.len() as int)) by {
            assert(dec_seq_value(s.drop_last()) + 1 <= pow10(s.len() - 1));
            assert((dec_seq_value(s.drop_last()) + 1) * 10 <= pow10(s.len() - 1) * 10)
                by (nonlinear_arith)
                requires
                    dec_seq_value(s.drop_last()) + 1 <= pow10(s.len() - 1),
            ;
        }
    }
}

/// A value below ten to the `k` has a decimal numeral of at most `k`
/// digits.
pub proof fn lemma_u64_dec_len_le(n: nat, k: int)
    requires
        k >= 1,
        n < pow10(k),
    ensures
        u64_dec(n).len() <= k,
    decreases n,
{
    if n >= 10 {
        assert(pow10(k) == 10 * pow10(k - 1));
        lemma_u64_dec_len_le(n / 10, k - 1);
    }
}

/// A value below sixteen to the `k` has a hexadecimal numeral of at most
/// `k` digits.
pub proof fn lemma_u16_hex_len_le(n: nat, k: int)
    requires
        k >= 1,
        n < pow16(k),
    ensures
        u16_hex(n).len() <= k,
    decreases n,
{
    if n >= 16 {
        assert(pow16(k) == 16 * pow16(k - 1));
        lemma_u16_hex_len_le(n / 16, k - 1);
    }
}

/// A string of hexadecimal digits denotes a value below sixteen to its
/// length.
pub proof fn lemma_hex_value_bound(s: Seq<char>)
    requires
        all_hex_digits(s),
    ensures
        hex_seq_value(s) < pow16(s.len() as int),
    decreases s.len(),
{
    if s.len() > 0 {
        lemma_hex_value_bound(s.drop_last());
        assert(hex_digit_value(s.last()) <= 15);
        assert(hex_seq_value(s.drop_last()) * 16 + 16 <= pow16(s.len() as int)) by {
            assert(hex_seq_value(s.drop_last()) + 1 <= pow16(s.len() - 1));
            assert((hex_seq_value(s.drop_last()) + 1) * 16 <= pow16(s.len() - 1) * 16)
                by (nonlinear_arith)
                requires
                    hex_seq_value(s.drop_last()) + 1 <= pow16(s.len() - 1),
            ;
        }
    }
}

} // verus!
