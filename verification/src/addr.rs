//! Network addresses of ring peers, held as plain integers, with their
//! textual forms.
//!
//! The wire protocol carries addresses as strings. A four-octet address
//! is written as dotted decimal octets; a sixteen-octet address as
//! colon-separated hexadecimal groups, emitted in full and accepted
//! either in full or with one zero-compressing double colon. (A dotted
//! four-octet tail inside sixteen-octet text is not part of the
//! grammar.) Parsing is specified exactly by `spec_parse_ip`, and
//! `lemma_ip_text_round_trip` proves that every address parses back from
//! its own text.

use crate::digits::{
    all_dec_digits, all_hex_digits, dec_seq_value, hex_seq_value, is_dec_digit, is_hex_digit,
    lemma_dec_value_bound, lemma_dec_value_nonneg, lemma_u16_hex_len_le, lemma_u16_hex_round_trip,
    lemma_u64_dec_len_le, lemma_u64_dec_no_leading_zero, lemma_u64_dec_round_trip,
    parse_hex_group, pow10, pow16, push_u16_hex,
    push_u64_dec, u16_hex, u64_dec,
};
use vstd::prelude::*;

verus! {

/// A peer's network address: four decimal octets or eight hexadecimal
/// groups, most significant first.
#[derive(Clone, Copy, PartialEq, Eq, Hash, Structural, Debug)]
pub enum IpAddress {
    V4(u8, u8, u8, u8),
    V6(u16, u16, u16, u16, u16, u16, u16, u16),
}

/// The dotted-decimal text of a four-octet address.
pub open spec fn v4_text(o0: u8, o1: u8, o2: u8, o3: u8) -> Seq<char> {
    u64_dec(o0 as nat) + seq!['.'] + u64_dec(o1 as nat) + seq!['.'] + u64_dec(o2 as nat)
        + seq!['.'] + u64_dec(o3 as nat)
}

/// The full colon-separated hexadecimal text of a sixteen-octet address.
pub open spec fn v6_text(
    g0: u16,
    g1: u16,
    g2: u16,
    g3: u16,
    g4: u16,
    g5: u16,
    g6: u16,
    g7: u16,
) -> Seq<char> {
    u16_hex(g0 as nat) + seq![':'] + u16_hex(g1 as nat) + seq![':'] + u16_hex(g2 as nat)
        + seq![':'] + u16_hex(g3 as nat) + seq![':'] + u16_hex(g4 as nat) + seq![':'] + u16_hex(
        g5 as nat,
    ) + seq![':'] + u16_hex(g6 as nat) + seq![':'] + u16_hex(g7 as nat)
}

/// The canonical text of an address.
pub open spec fn ip_text(ip: IpAddress) -> Seq<char> {
    match ip {
        IpAddress::V4(o0, o1, o2, o3) => v4_text(o0, o1, o2, o3),
        IpAddress::V6(g0, g1, g2, g3, g4, g5, g6, g7) => v6_text(g0, g1, g2, g3, g4, g5, g6, g7),
    }
}

/// The first index at or after `from` holding `c`, or the length of `s` if
/// there is none.
pub open spec fn find_from(s: Seq<char>, c: char, from: int) -> int
    decreases s.len() - from when 0 <= from <= s.len()
{
    if from >= s.len() {
        s.len() as int
    } else if s[from] == c {
        from
    } else {
        find_from(s, c, from + 1)
    }
}

/// `find_from` names the first occurrence: if nothing in `[from, k)` is
/// `c`, and `k` is the length or holds `c`, the search from `from` ends at
/// `k`.
pub proof fn lemma_find_from_is(s: Seq<char>, c: char, from: int, k: int)
    requires
        0 <= from <= k <= s.len(),
        forall|j: int| from <= j < k ==> s[j] != c,
        k == s.len() || s[k] == c,
    ensures
        find_from(s, c, from) == k,
    decreases k - from,
{
    if from < k {
        lemma_find_from_is(s, c, from + 1, k);
    }
}

/// Basic facts about `find_from`: it stays within `[from, len]`, nothing
/// before it is `c`, and it points at `c` when it is not the length.
pub proof fn lemma_find_from_spec(s: Seq<char>, c: char, from: int)
    requires
        0 <= from <= s.len(),
    ensures
        from <= find_from(s, c, from) <= s.len(),
        forall|j: int| from <= j < find_from(s, c, from) ==> s[j] != c,
        find_from(s, c, from) < s.len() ==> s[find_from(s, c, from)] == c,
    decreases s.len() - from,
{
    if from < s.len() && s[from] != c {
        lemma_find_from_spec(s, c, from + 1);
    }
}

/// A valid textual octet: one to three decimal digits denoting at most
/// 255, without leading zeros.
pub open spec fn valid_octet_text(p: Seq<char>) -> bool {
    &&& 1 <= p.len() <= 3
    &&& all_dec_digits(p)
    &&& dec_seq_value(p) <= 255
    &&& (p.len() == 1 || p[0] != '0')
}

/// A valid textual group: one to four hexadecimal digits.
pub open spec fn valid_group_text(p: Seq<char>) -> bool {
    1 <= p.len() <= 4 && all_hex_digits(p)
}

/// Parse dotted-decimal text: exactly four octet fields split at the
/// first three dots.
pub open spec fn spec_parse_v4(s: Seq<char>) -> Option<IpAddress> {
    let i1 = find_from(s, '.', 0);
    let i2 = find_from(s, '.', i1 + 1);
    let i3 = find_from(s, '.', i2 + 1);
    if i1 < s.len() && i2 < s.len() && i3 < s.len() {
        let p0 = s.subrange(0, i1);
        let p1 = s.subrange(i1 + 1, i2);
        let p2 = s.subrange(i2 + 1, i3);
        let p3 = s.subrange(i3 + 1, s.len() as int);
        if valid_octet_text(p0) && valid_octet_text(p1) && valid_octet_text(p2)
            && valid_octet_text(p3) {
            Some(
                IpAddress::V4(
                    dec_seq_value(p0) as u8,
                    dec_seq_value(p1) as u8,
                    dec_seq_value(p2) as u8,
                    dec_seq_value(p3) as u8,
                ),
            )
        } else {
            None
        }
    } else {
        None
    }
}

/// The first index at or after `from` where a double colon starts, or
/// `-1` if there is none.
pub open spec fn find_dc(s: Seq<char>, from: int) -> int
    decreases s.len() - from when 0 <= from <= s.len()
{
    if from + 1 >= s.len() {
        -1
    } else if s[from] == ':' && s[from + 1] == ':' {
        from
    } else {
        find_dc(s, from + 1)
    }
}

/// Split colon-separated text into its group values: every field must be
/// a valid group.
pub open spec fn split_groups(s: Seq<char>) -> Option<Seq<u16>>
    decreases s.len(),
    via split_groups_decreases
{
    let i = find_from(s, ':', 0);
    if i == s.len() {
        if valid_group_text(s) {
            Some(seq![hex_seq_value(s) as u16])
        } else {
            None
        }
    } else {
        if valid_group_text(s.subrange(0, i)) {
            match split_groups(s.subrange(i + 1, s.len() as int)) {
                Some(rest) => Some(seq![hex_seq_value(s.subrange(0, i)) as u16] + rest),
                None => None,
            }
        } else {
            None
        }
    }
}

#[via_fn]
proof fn split_groups_decreases(s: Seq<char>) {
    lemma_find_from_spec(s, ':', 0);
}

/// The two group values a dotted four-octet tail denotes.
pub open spec fn v4_tail_groups(ip: IpAddress) -> Seq<u16> {
    match ip {
        IpAddress::V4(o0, o1, o2, o3) => seq![
            (o0 as int * 256 + o1 as int) as u16,
            (o2 as int * 256 + o3 as int) as u16,
        ],
        IpAddress::V6(_, _, _, _, _, _, _, _) => Seq::empty(),
    }
}

/// Split colon-separated text into its group values, where the final
/// field may instead be a dotted four-octet tail standing for the last
/// two groups.
pub open spec fn split_groups_tail(s: Seq<char>) -> Option<Seq<u16>>
    decreases s.len(),
    via split_groups_tail_decreases
{
    let i = find_from(s, ':', 0);
    if i == s.len() {
        if valid_group_text(s) {
            Some(seq![hex_seq_value(s) as u16])
        } else {
            match spec_parse_v4(s) {
                Some(tail) => Some(v4_tail_groups(tail)),
                None => None,
            }
        }
    } else {
        if valid_group_text(s.subrange(0, i)) {
            match split_groups_tail(s.subrange(i + 1, s.len() as int)) {
                Some(rest) => Some(seq![hex_seq_value(s.subrange(0, i)) as u16] + rest),
                None => None,
            }
        } else {
            None
        }
    }
}

#[via_fn]
proof fn split_groups_tail_decreases(s: Seq<char>) {
    lemma_find_from_spec(s, ':', 0);
}

/// The address whose eight groups are `g`.
pub open spec fn groups_to_ip(g: Seq<u16>) -> IpAddress {
    IpAddress::V6(g[0], g[1], g[2], g[3], g[4], g[5], g[6], g[7])
}

/// Parse zero-compressed hexadecimal text: the double colon at `dc`
/// stands for the one or more zero groups that bring the explicit
/// groups on its two sides up to eight. Only the right side may end in
/// a dotted four-octet tail.
pub open spec fn spec_parse_v6_compressed(s: Seq<char>, dc: int) -> Option<IpAddress> {
    let left = s.subrange(0, dc);
    let right = s.subrange(dc + 2, s.len() as int);
    let left_groups = if left.len() == 0 {
        Some(Seq::<u16>::empty())
    } else {
        split_groups(left)
    };
    let right_groups = if right.len() == 0 {
        Some(Seq::<u16>::empty())
    } else {
        split_groups_tail(right)
    };
    match (left_groups, right_groups) {
        (Some(l), Some(r)) => if l.len() + r.len() <= 7 {
            Some(groups_to_ip(l + Seq::new((8 - l.len() - r.len()) as nat, |i: int| 0u16) + r))
        } else {
            None
        },
        _ => None,
    }
}

/// Parse sixteen-octet address text: the full eight-group form, or the
/// zero-compressed form split at its first double colon.
pub open spec fn spec_parse_v6(s: Seq<char>) -> Option<IpAddress> {
    let dc = find_dc(s, 0);
    if dc < 0 {
        spec_parse_v6_full(s)
    } else {
        spec_parse_v6_compressed(s, dc)
    }
}

/// Parse uncompressed sixteen-octet text: colon-separated fields
/// denoting exactly eight groups, the final field either a hexadecimal
/// group or a dotted four-octet tail worth two groups.
pub open spec fn spec_parse_v6_full(s: Seq<char>) -> Option<IpAddress> {
    match split_groups_tail(s) {
        Some(g) => if g.len() == 8 {
            Some(groups_to_ip(g))
        } else {
            None
        },
        None => None,
    }
}

/// Parse an address: text with a colon is read as a sixteen-octet
/// address, anything else as a four-octet one.
pub open spec fn spec_parse_ip(s: Seq<char>) -> Option<IpAddress> {
    if find_from(s, ':', 0) < s.len() {
        spec_parse_v6(s)
    } else {
        spec_parse_v4(s)
    }
}

/// The first index at or after `from` holding `c`, or the length of `s`.
fn find_char(s: &str, c: char, from: usize) -> (i: usize)
    requires
        from <= s@.len(),
    ensures
        i as int == find_from(s@, c, from as int),
        from <= i <= s@.len(),
{
    let len = s.unicode_len();
    let mut i = from;
    while i < len
        invariant
            from <= i <= len,
            len == s@.len(),
            find_from(s@, c, from as int) == find_from(s@, c, i as int),
        decreases len - i,
    {
        let ch = s.get_char(i);
        if ch == c {
            return i;
        }
        i = i + 1;
    }
    i
}

/// Parse the character range `[from, to)` of `s` as one dotted-decimal
/// octet field.
fn parse_dec_octet(s: &str, from: usize, to: usize) -> (r: Option<u8>)
    requires
        from <= to <= s@.len(),
    ensures
        match r {
            Some(v) => valid_octet_text(s@.subrange(from as int, to as int)) && dec_seq_value(
                s@.subrange(from as int, to as int),
            ) == v as int,
            None => !valid_octet_text(s@.subrange(from as int, to as int)),
        },
{
    if from == to || to - from > 3 {
        return None;
    }
    if to - from > 1 && s.get_char(from) == '0' {
        proof {
            assert(s@.subrange(from as int, to as int)[0] == s@[from as int]);
        }
        return None;
    }
    let mut i: usize = from;
    while i < to
        invariant
            from <= i <= to <= s@.len(),
            forall|j: int| from <= j < i ==> is_dec_digit(#[trigger] s@[j]),
        decreases to - i,
    {
        let c = s.get_char(i);
        let u = c as u32;
        if u < '0' as u32 || u > '9' as u32 {
            proof {
                assert(s@.subrange(from as int, to as int)[i - from] == s@[i as int]);
            }
            return None;
        }
        i = i + 1;
    }
    proof {
        assert(all_dec_digits(s@.subrange(from as int, to as int))) by {
            assert(forall|j: int| 0 <= j < to - from ==> #[trigger] s@.subrange(
                from as int,
                to as int,
            )[j] == s@[from + j]);
        }
    }
    let mut acc: u32 = 0;
    let mut i: usize = from;
    while i < to
        invariant
            from <= i <= to <= s@.len(),
            to - from <= 3,
            all_dec_digits(s@.subrange(from as int, to as int)),
            acc as int == dec_seq_value(s@.subrange(from as int, i as int)),
        decreases to - i,
    {
        let c = s.get_char(i);
        proof {
            assert(s@.subrange(from as int, to as int)[i - from] == s@[i as int]);
            assert(is_dec_digit(s@[i as int]));
            assert(forall|j: int| 0 <= j < i - from ==> #[trigger] s@.subrange(
                from as int,
                i as int,
            )[j] == s@.subrange(from as int, to as int)[j]);
            assert(all_dec_digits(s@.subrange(from as int, i as int)));
            lemma_dec_value_nonneg(s@.subrange(from as int, i as int));
            lemma_dec_value_bound(s@.subrange(from as int, i as int));
            assert(pow10(2) == 100 && pow10(1) == 10 && pow10(0) == 1) by {
                reveal_with_fuel(pow10, 4);
            }
            assert(s@.subrange(from as int, i + 1).drop_last() =~= s@.subrange(
                from as int,
                i as int,
            ));
            assert(s@.subrange(from as int, i + 1).last() == s@[i as int]);
        }
        let d = c as u32 - '0' as u32;
        acc = acc * 10 + d;
        i = i + 1;
    }
    proof {
        assert(s@.subrange(from as int, i as int) =~= s@.subrange(from as int, to as int));
    }
    if acc > 255 {
        return None;
    }
    Some(acc as u8)
}

/// Parse the character range `[from, to)` of `s` as dotted-decimal
/// address text.
fn parse_v4_range(s: &str, from: usize, to: usize) -> (r: Option<IpAddress>)
    requires
        from <= to <= s@.len(),
    ensures
        r == spec_parse_v4(s@.subrange(from as int, to as int)),
{
    let ghost sub = s@.subrange(from as int, to as int);
    let i1 = find_char_in(s, '.', from, from, to);
    if i1 == to {
        return None;
    }
    let i2 = find_char_in(s, '.', from, i1 + 1, to);
    if i2 == to {
        return None;
    }
    let i3 = find_char_in(s, '.', from, i2 + 1, to);
    if i3 == to {
        return None;
    }
    proof {
        assert(sub.subrange(0, i1 - from) =~= s@.subrange(from as int, i1 as int));
        assert(sub.subrange(i1 - from + 1, i2 - from) =~= s@.subrange(i1 + 1, i2 as int));
        assert(sub.subrange(i2 - from + 1, i3 - from) =~= s@.subrange(i2 + 1, i3 as int));
        assert(sub.subrange(i3 - from + 1, sub.len() as int) =~= s@.subrange(i3 + 1, to as int));
    }
    let o0 = match parse_dec_octet(s, from, i1) {
        Some(v) => v,
        None => {
            return None;
        },
    };
    let o1 = match parse_dec_octet(s, i1 + 1, i2) {
        Some(v) => v,
        None => {
            return None;
        },
    };
    let o2 = match parse_dec_octet(s, i2 + 1, i3) {
        Some(v) => v,
        None => {
            return None;
        },
    };
    let o3 = match parse_dec_octet(s, i3 + 1, to) {
        Some(v) => v,
        None => {
            return None;
        },
    };
    Some(IpAddress::V4(o0, o1, o2, o3))
}

/// Parse dotted-decimal address text.
fn parse_v4(s: &str) -> (r: Option<IpAddress>)
    ensures
        r == spec_parse_v4(s@),
{
    let len = s.unicode_len();
    let r = parse_v4_range(s, 0, len);
    proof {
        assert(s@.subrange(0, len as int) =~= s@);
    }
    r
}

/// The first index in `[from, len)` where a double colon starts, or the
/// length if there is none.
fn find_double_colon(s: &str) -> (r: Option<usize>)
    ensures
        match r {
            Some(i) => i as int == find_dc(s@, 0),
            None => find_dc(s@, 0) == -1,
        },
{
    let len = s.unicode_len();
    if len < 2 {
        return None;
    }
    let mut i: usize = 0;
    while i + 1 < len
        invariant
            0 <= i <= len - 1,
            len == s@.len(),
            len >= 2,
            find_dc(s@, 0) == find_dc(s@, i as int),
        decreases len - i,
    {
        if s.get_char(i) == ':' && s.get_char(i + 1) == ':' {
            return Some(i);
        }
        i = i + 1;
    }
    None
}

/// The first index in `[start, to)` holding `c`, as an index into `s`
/// whose offset from `from` names the position within the range
/// `[from, to)`, or the range's end.
fn find_char_in(s: &str, c: char, from: usize, start: usize, to: usize) -> (i: usize)
    requires
        from <= start <= to <= s@.len(),
    ensures
        start <= i <= to,
        i - from == find_from(s@.subrange(from as int, to as int), c, start - from),
{
    let ghost sub = s@.subrange(from as int, to as int);
    let mut i = start;
    while i < to
        invariant
            from <= start <= i <= to <= s@.len(),
            sub == s@.subrange(from as int, to as int),
            find_from(sub, c, start - from) == find_from(sub, c, i - from),
        decreases to - i,
    {
        proof {
            assert(sub[i - from] == s@[i as int]);
        }
        if s.get_char(i) == c {
            return i;
        }
        i = i + 1;
    }
    i
}

/// Split the character range `[from, to)` of `s` into its colon-separated
/// group values.
fn parse_groups_range(s: &str, from: usize, to: usize) -> (r: Option<Vec<u16>>)
    requires
        from < to <= s@.len(),
    ensures
        match r {
            Some(groups) => split_groups(s@.subrange(from as int, to as int)) == Some(groups@),
            None => split_groups(s@.subrange(from as int, to as int)) is None,
        },
    decreases to - from,
{
    let ghost sub = s@.subrange(from as int, to as int);
    let i = find_char_in(s, ':', from, from, to);
    if i == to {
        match parse_hex_group(s, from, to) {
            Ok(v) => {
                let mut groups: Vec<u16> = Vec::new();
                groups.push(v);
                proof {
                    assert(groups@ =~= seq![v]);
                }
                Some(groups)
            },
            Err(_) => None,
        }
    } else {
        let head = match parse_hex_group(s, from, i) {
            Ok(v) => v,
            Err(_) => {
                proof {
                    assert(sub.subrange(0, i - from) =~= s@.subrange(from as int, i as int));
                }
                return None;
            },
        };
        proof {
            assert(sub.subrange(0, i - from) =~= s@.subrange(from as int, i as int));
            assert(sub.subrange(i - from + 1, sub.len() as int) =~= s@.subrange(
                i + 1,
                to as int,
            ));
        }
        if i + 1 == to {
            // an empty trailing field is never a valid group
            proof {
                reveal_with_fuel(split_groups, 2);
                assert(s@.subrange(i + 1, to as int).len() == 0);
            }
            return None;
        }
        match parse_groups_range(s, i + 1, to) {
            Some(mut rest) => {
                rest.insert(0, head);
                proof {
                    assert(rest@ =~= seq![head] + rest@.subrange(1, rest@.len() as int));
                }
                Some(rest)
            },
            None => None,
        }
    }
}

/// Split the character range `[from, to)` of `s` into its group values,
/// allowing a dotted four-octet tail as the final field.
fn parse_groups_tail_range(s: &str, from: usize, to: usize) -> (r: Option<Vec<u16>>)
    requires
        from < to <= s@.len(),
    ensures
        match r {
            Some(groups) => split_groups_tail(s@.subrange(from as int, to as int)) == Some(
                groups@,
            ),
            None => split_groups_tail(s@.subrange(from as int, to as int)) is None,
        },
    decreases to - from,
{
    let ghost sub = s@.subrange(from as int, to as int);
    let i = find_char_in(s, ':', from, from, to);
    if i == to {
        match parse_hex_group(s, from, to) {
            Ok(v) => {
                let mut groups: Vec<u16> = Vec::new();
                groups.push(v);
                proof {
                    assert(groups@ =~= seq![v]);
                }
                Some(groups)
            },
            Err(_) => match parse_v4_range(s, from, to) {
                Some(IpAddress::V4(o0, o1, o2, o3)) => {
                    let mut groups: Vec<u16> = Vec::new();
                    groups.push((o0 as u16) * 256 + (o1 as u16));
                    groups.push((o2 as u16) * 256 + (o3 as u16));
                    proof {
                        assert(groups@ =~= v4_tail_groups(IpAddress::V4(o0, o1, o2, o3)));
                    }
                    Some(groups)
                },
                _ => None,
            },
        }
    } else {
        let head = match parse_hex_group(s, from, i) {
            Ok(v) => v,
            Err(_) => {
                proof {
                    assert(sub.subrange(0, i - from) =~= s@.subrange(from as int, i as int));
                }
                return None;
            },
        };
        proof {
            assert(sub.subrange(0, i - from) =~= s@.subrange(from as int, i as int));
            assert(sub.subrange(i - from + 1, sub.len() as int) =~= s@.subrange(
                i + 1,
                to as int,
            ));
        }
        if i + 1 == to {
            // an empty trailing field is neither a group nor a tail
            proof {
                reveal_with_fuel(split_groups_tail, 2);
                assert(s@.subrange(i + 1, to as int).len() == 0);
            }
            return None;
        }
        match parse_groups_tail_range(s, i + 1, to) {
            Some(mut rest) => {
                rest.insert(0, head);
                proof {
                    assert(rest@ =~= seq![head] + rest@.subrange(1, rest@.len() as int));
                }
                Some(rest)
            },
            None => None,
        }
    }
}

/// Parse zero-compressed hexadecimal address text, split at the double
/// colon starting at `dc`.
fn parse_v6_compressed(s: &str, dc: usize) -> (r: Option<IpAddress>)
    requires
        dc as int == find_dc(s@, 0),
        0 <= dc,
        dc + 2 <= s@.len(),
    ensures
        r == spec_parse_v6_compressed(s@, dc as int),
{
    let len = s.unicode_len();
    let left: Vec<u16> = if dc == 0 {
        Vec::new()
    } else {
        match parse_groups_range(s, 0, dc) {
            Some(groups) => groups,
            None => {
                return None;
            },
        }
    };
    let right: Vec<u16> = if dc + 2 == len {
        Vec::new()
    } else {
        match parse_groups_tail_range(s, dc + 2, len) {
            Some(groups) => groups,
            None => {
                return None;
            },
        }
    };
    if left.len() > 7 {
        return None;
    }
    if right.len() > 7 - left.len() {
        return None;
    }
    let mut groups: Vec<u16> = Vec::new();
    let mut i: usize = 0;
    while i < left.len()
        invariant
            0 <= i <= left@.len(),
            groups@ =~= left@.take(i as int),
        decreases left@.len() - i,
    {
        groups.push(left[i]);
        i = i + 1;
    }
    let zero_count = 8 - left.len() - right.len();
    let mut z: usize = 0;
    while z < zero_count
        invariant
            0 <= z <= zero_count,
            zero_count == 8 - left@.len() - right@.len(),
            left@.len() + right@.len() <= 7,
            groups@ =~= left@ + Seq::new(z as nat, |k: int| 0u16),
        decreases zero_count - z,
    {
        groups.push(0);
        z = z + 1;
    }
    let mut j: usize = 0;
    while j < right.len()
        invariant
            0 <= j <= right@.len(),
            left@.len() + right@.len() <= 7,
            groups@ =~= left@ + Seq::new((8 - left@.len() - right@.len()) as nat, |k: int| 0u16)
                + right@.take(j as int),
        decreases right@.len() - j,
    {
        groups.push(right[j]);
        j = j + 1;
    }
    proof {
        assert(groups@ =~= left@ + Seq::new((8 - left@.len() - right@.len()) as nat, |k: int| 0u16)
            + right@);
        assert(groups@.len() == 8);
    }
    Some(
        IpAddress::V6(
            groups[0],
            groups[1],
            groups[2],
            groups[3],
            groups[4],
            groups[5],
            groups[6],
            groups[7],
        ),
    )
}

/// Parse sixteen-octet address text, full or zero-compressed.
fn parse_v6(s: &str) -> (r: Option<IpAddress>)
    ensures
        r == spec_parse_v6(s@),
{
    match find_double_colon(s) {
        Some(dc) => {
            proof {
                lemma_find_dc_spec(s@, 0);
            }
            parse_v6_compressed(s, dc)
        },
        None => parse_v6_full(s),
    }
}

/// Text without adjacent colons has no double colon to find.
proof fn lemma_find_dc_none(s: Seq<char>, from: int)
    requires
        0 <= from <= s.len(),
        forall|i: int| from <= i < s.len() - 1 ==> !((#[trigger] s[i]) == ':' && s[i + 1] == ':'),
    ensures
        find_dc(s, from) == -1,
    decreases s.len() - from,
{
    if from + 1 < s.len() {
        lemma_find_dc_none(s, from + 1);
    }
}

/// Basic facts about `find_dc`: a found index is in range and starts a
/// double colon.
proof fn lemma_find_dc_spec(s: Seq<char>, from: int)
    requires
        0 <= from <= s.len(),
    ensures
        find_dc(s, from) == -1 || (from <= find_dc(s, from) && find_dc(s, from) + 2 <= s.len()),
    decreases s.len() - from,
{
    if from + 1 < s.len() && !(s[from] == ':' && s[from + 1] == ':') {
        lemma_find_dc_spec(s, from + 1);
    }
}

/// Parse uncompressed sixteen-octet address text.
fn parse_v6_full(s: &str) -> (r: Option<IpAddress>)
    ensures
        r == spec_parse_v6_full(s@),
{
    let len = s.unicode_len();
    if len == 0 {
        proof {
            reveal_with_fuel(split_groups_tail, 1);
        }
        return None;
    }
    proof {
        assert(s@.subrange(0, len as int) =~= s@);
    }
    match parse_groups_tail_range(s, 0, len) {
        Some(groups) => {
            if groups.len() == 8 {
                Some(
                    IpAddress::V6(
                        groups[0],
                        groups[1],
                        groups[2],
                        groups[3],
                        groups[4],
                        groups[5],
                        groups[6],
                        groups[7],
                    ),
                )
            } else {
                None
            }
        },
        None => None,
    }
}

/// Parse an address from its text.
pub fn parse_ip(s: &str) -> (r: Option<IpAddress>)
    ensures
        r == spec_parse_ip(s@),
{
    let len = s.unicode_len();
    let colon = find_char(s, ':', 0);
    if colon < len {
        parse_v6(s)
    } else {
        parse_v4(s)
    }
}

/// Append the canonical text of `ip` to `out`.
pub fn push_ip_text(ip: &IpAddress, out: &mut String)
    ensures
        final(out)@ == old(out)@ + ip_text(*ip),
{
    proof {
        reveal_strlit(".");
        reveal_strlit(":");
        assert("."@ =~= seq!['.']);
        assert(":"@ =~= seq![':']);
    }
    match *ip {
        IpAddress::V4(o0, o1, o2, o3) => {
            push_u64_dec(o0 as u64, out);
            out.append(".");
            push_u64_dec(o1 as u64, out);
            out.append(".");
            push_u64_dec(o2 as u64, out);
            out.append(".");
            push_u64_dec(o3 as u64, out);
            assert(out@ =~= old(out)@ + ip_text(*ip));
        },
        IpAddress::V6(g0, g1, g2, g3, g4, g5, g6, g7) => {
            push_u16_hex(g0, out);
            out.append(":");
            push_u16_hex(g1, out);
            out.append(":");
            push_u16_hex(g2, out);
            out.append(":");
            push_u16_hex(g3, out);
            out.append(":");
            push_u16_hex(g4, out);
            out.append(":");
            push_u16_hex(g5, out);
            out.append(":");
            push_u16_hex(g6, out);
            out.append(":");
            push_u16_hex(g7, out);
            assert(out@ =~= old(out)@ + ip_text(*ip));
        },
    }
}

/// The dotted-decimal text of a four-octet address parses back to it, and
/// holds no colon.
pub proof fn lemma_v4_text_parses(o0: u8, o1: u8, o2: u8, o3: u8)
    ensures
        spec_parse_v4(v4_text(o0, o1, o2, o3)) == Some(IpAddress::V4(o0, o1, o2, o3)),
        find_from(v4_text(o0, o1, o2, o3), ':', 0) == v4_text(o0, o1, o2, o3).len(),
{
    let s = v4_text(o0, o1, o2, o3);
    let d0 = u64_dec(o0 as nat);
    let d1 = u64_dec(o1 as nat);
    let d2 = u64_dec(o2 as nat);
    let d3 = u64_dec(o3 as nat);
    lemma_u64_dec_round_trip(o0 as nat);
    lemma_u64_dec_round_trip(o1 as nat);
    lemma_u64_dec_round_trip(o2 as nat);
    lemma_u64_dec_round_trip(o3 as nat);
    assert(pow10(3) == 1000) by {
        reveal_with_fuel(pow10, 5);
    }
    lemma_u64_dec_len_le(o0 as nat, 3);
    lemma_u64_dec_len_le(o1 as nat, 3);
    lemma_u64_dec_len_le(o2 as nat, 3);
    lemma_u64_dec_len_le(o3 as nat, 3);
    if o0 > 0 {
        lemma_u64_dec_no_leading_zero(o0 as nat);
    }
    if o1 > 0 {
        lemma_u64_dec_no_leading_zero(o1 as nat);
    }
    if o2 > 0 {
        lemma_u64_dec_no_leading_zero(o2 as nat);
    }
    if o3 > 0 {
        lemma_u64_dec_no_leading_zero(o3 as nat);
    }
    let k1 = d0.len() as int;
    let k2 = k1 + 1 + d1.len();
    let k3 = k2 + 1 + d2.len();
    let n = s.len() as int;
    assert(n == k3 + 1 + d3.len());
    assert(forall|j: int| 0 <= j < k1 ==> s[j] == d0[j]);
    assert(s[k1] == '.');
    assert(forall|j: int| k1 + 1 <= j < k2 ==> s[j] == d1[j - (k1 + 1)]);
    assert(s[k2] == '.');
    assert(forall|j: int| k2 + 1 <= j < k3 ==> s[j] == d2[j - (k2 + 1)]);
    assert(s[k3] == '.');
    assert(forall|j: int| k3 + 1 <= j < n ==> s[j] == d3[j - (k3 + 1)]);
    assert(forall|j: int| 0 <= j < n ==> is_dec_digit(#[trigger] s[j]) || s[j] == '.');
    lemma_find_from_is(s, '.', 0, k1);
    lemma_find_from_is(s, '.', k1 + 1, k2);
    lemma_find_from_is(s, '.', k2 + 1, k3);
    lemma_find_from_is(s, ':', 0, n);
    assert(s.subrange(0, k1) =~= d0);
    assert(s.subrange(k1 + 1, k2) =~= d1);
    assert(s.subrange(k2 + 1, k3) =~= d2);
    assert(s.subrange(k3 + 1, n) =~= d3);
    assert(valid_octet_text(d0) && valid_octet_text(d1) && valid_octet_text(d2)
        && valid_octet_text(d3));
}

/// A single valid group is split into its one value.
proof fn lemma_split_tail_last(h: Seq<char>, g: u16)
    requires
        valid_group_text(h),
        hex_seq_value(h) == g as int,
    ensures
        split_groups_tail(h) == Some(seq![g]),
{
    assert(forall|l: int| 0 <= l < h.len() ==> (#[trigger] h[l]) != ':');
    lemma_find_from_is(h, ':', 0, h.len() as int);
    assert(seq![hex_seq_value(h) as u16] =~= seq![g]);
}

/// Prepending one valid group and a colon prepends its value to the
/// split.
proof fn lemma_split_tail_step(t: Seq<char>, h: Seq<char>, rest: Seq<char>, g: u16, q: Seq<u16>)
    requires
        t == h + seq![':'] + rest,
        valid_group_text(h),
        hex_seq_value(h) == g as int,
        split_groups_tail(rest) == Some(q),
    ensures
        split_groups_tail(t) == Some(seq![g] + q),
{
    assert(forall|l: int| 0 <= l < h.len() ==> (#[trigger] t[l]) == h[l]);
    assert(forall|l: int| 0 <= l < h.len() ==> (#[trigger] t[l]) != ':');
    assert(t[h.len() as int] == ':');
    lemma_find_from_is(t, ':', 0, h.len() as int);
    assert(t.subrange(0, h.len() as int) =~= h);
    assert(t.subrange(h.len() as int + 1, t.len() as int) =~= rest);
    assert(seq![hex_seq_value(t.subrange(0, h.len() as int)) as u16] + q =~= seq![g] + q);
}

/// The canonical sixteen-octet text has no double colon, and its first
/// colon ends a nonempty first group.
#[verifier::spinoff_prover]
#[verifier::rlimit(100)]
proof fn lemma_v6_text_shape(g0: u16, g1: u16, g2: u16, g3: u16, g4: u16, g5: u16, g6: u16, g7: u16)
    ensures
        find_dc(v6_text(g0, g1, g2, g3, g4, g5, g6, g7), 0) == -1,
        0 < find_from(v6_text(g0, g1, g2, g3, g4, g5, g6, g7), ':', 0) < v6_text(
            g0,
            g1,
            g2,
            g3,
            g4,
            g5,
            g6,
            g7,
        ).len(),
{
    let s = v6_text(g0, g1, g2, g3, g4, g5, g6, g7);
    let h0 = u16_hex(g0 as nat);
    let h1 = u16_hex(g1 as nat);
    let h2 = u16_hex(g2 as nat);
    let h3 = u16_hex(g3 as nat);
    let h4 = u16_hex(g4 as nat);
    let h5 = u16_hex(g5 as nat);
    let h6 = u16_hex(g6 as nat);
    let h7 = u16_hex(g7 as nat);
    lemma_u16_hex_round_trip(g0 as nat);
    lemma_u16_hex_round_trip(g1 as nat);
    lemma_u16_hex_round_trip(g2 as nat);
    lemma_u16_hex_round_trip(g3 as nat);
    lemma_u16_hex_round_trip(g4 as nat);
    lemma_u16_hex_round_trip(g5 as nat);
    lemma_u16_hex_round_trip(g6 as nat);
    lemma_u16_hex_round_trip(g7 as nat);
    assert(pow16(4) == 0x10000) by {
        reveal_with_fuel(pow16, 6);
    }
    lemma_u16_hex_len_le(g0 as nat, 4);
    lemma_u16_hex_len_le(g1 as nat, 4);
    lemma_u16_hex_len_le(g2 as nat, 4);
    lemma_u16_hex_len_le(g3 as nat, 4);
    lemma_u16_hex_len_le(g4 as nat, 4);
    lemma_u16_hex_len_le(g5 as nat, 4);
    lemma_u16_hex_len_le(g6 as nat, 4);
    lemma_u16_hex_len_le(g7 as nat, 4);
    let k1 = h0.len() as int;
    let k2 = k1 + 1 + h1.len();
    let k3 = k2 + 1 + h2.len();
    let k4 = k3 + 1 + h3.len();
    let k5 = k4 + 1 + h4.len();
    let k6 = k5 + 1 + h5.len();
    let k7 = k6 + 1 + h6.len();
    let n = s.len() as int;
    assert(n == k7 + 1 + h7.len());
    assert(forall|j: int| 0 <= j < k1 ==> s[j] == h0[j]);
    assert(s[k1] == ':');
    assert(forall|j: int| k1 + 1 <= j < k2 ==> s[j] == h1[j - (k1 + 1)]);
    assert(s[k2] == ':');
    assert(forall|j: int| k2 + 1 <= j < k3 ==> s[j] == h2[j - (k2 + 1)]);
    assert(s[k3] == ':');
    assert(forall|j: int| k3 + 1 <= j < k4 ==> s[j] == h3[j - (k3 + 1)]);
    assert(s[k4] == ':');
    assert(forall|j: int| k4 + 1 <= j < k5 ==> s[j] == h4[j - (k4 + 1)]);
    assert(s[k5] == ':');
    assert(forall|j: int| k5 + 1 <= j < k6 ==> s[j] == h5[j - (k5 + 1)]);
    assert(s[k6] == ':');
    assert(forall|j: int| k6 + 1 <= j < k7 ==> s[j] == h6[j - (k6 + 1)]);
    assert(s[k7] == ':');
    assert(forall|j: int| k7 + 1 <= j < n ==> s[j] == h7[j - (k7 + 1)]);
    lemma_find_from_is(s, ':', 0, k1);
    assert(forall|i: int| 0 <= i < n - 1 ==> !((#[trigger] s[i]) == ':' && s[i + 1] == ':'));
    lemma_find_dc_none(s, 0);
}

/// The sixteen-octet text, reassociated into its first group, a colon,
/// and the text of the remaining groups.
#[verifier::spinoff_prover]
#[verifier::rlimit(100)]
proof fn lemma_v6_text_reassociates(
    g0: u16,
    g1: u16,
    g2: u16,
    g3: u16,
    g4: u16,
    g5: u16,
    g6: u16,
    g7: u16,
)
    ensures
        v6_text(g0, g1, g2, g3, g4, g5, g6, g7) == u16_hex(g0 as nat) + seq![':'] + (u16_hex(
            g1 as nat,
        ) + seq![':'] + (u16_hex(g2 as nat) + seq![':'] + (u16_hex(g3 as nat) + seq![':'] + (
        u16_hex(g4 as nat) + seq![':'] + (u16_hex(g5 as nat) + seq![':'] + (u16_hex(g6 as nat)
            + seq![':'] + u16_hex(g7 as nat))))))),
{
    assert(v6_text(g0, g1, g2, g3, g4, g5, g6, g7) =~= u16_hex(g0 as nat) + seq![':'] + (u16_hex(
        g1 as nat,
    ) + seq![':'] + (u16_hex(g2 as nat) + seq![':'] + (u16_hex(g3 as nat) + seq![':'] + (u16_hex(
        g4 as nat,
    ) + seq![':'] + (u16_hex(g5 as nat) + seq![':'] + (u16_hex(g6 as nat) + seq![':'] + u16_hex(
        g7 as nat,
    ))))))));
}

/// The canonical sixteen-octet text splits into exactly its eight group
/// values.
#[verifier::spinoff_prover]
#[verifier::rlimit(100)]
proof fn lemma_v6_text_splits(
    g0: u16,
    g1: u16,
    g2: u16,
    g3: u16,
    g4: u16,
    g5: u16,
    g6: u16,
    g7: u16,
)
    ensures
        split_groups_tail(v6_text(g0, g1, g2, g3, g4, g5, g6, g7)) == Some(
            seq![g0, g1, g2, g3, g4, g5, g6, g7],
        ),
{
    let s = v6_text(g0, g1, g2, g3, g4, g5, g6, g7);
    let h0 = u16_hex(g0 as nat);
    let h1 = u16_hex(g1 as nat);
    let h2 = u16_hex(g2 as nat);
    let h3 = u16_hex(g3 as nat);
    let h4 = u16_hex(g4 as nat);
    let h5 = u16_hex(g5 as nat);
    let h6 = u16_hex(g6 as nat);
    let h7 = u16_hex(g7 as nat);
    lemma_u16_hex_round_trip(g0 as nat);
    lemma_u16_hex_round_trip(g1 as nat);
    lemma_u16_hex_round_trip(g2 as nat);
    lemma_u16_hex_round_trip(g3 as nat);
    lemma_u16_hex_round_trip(g4 as nat);
    lemma_u16_hex_round_trip(g5 as nat);
    lemma_u16_hex_round_trip(g6 as nat);
    lemma_u16_hex_round_trip(g7 as nat);
    assert(pow16(4) == 0x10000) by {
        reveal_with_fuel(pow16, 6);
    }
    lemma_u16_hex_len_le(g0 as nat, 4);
    lemma_u16_hex_len_le(g1 as nat, 4);
    lemma_u16_hex_len_le(g2 as nat, 4);
    lemma_u16_hex_len_le(g3 as nat, 4);
    lemma_u16_hex_len_le(g4 as nat, 4);
    lemma_u16_hex_len_le(g5 as nat, 4);
    lemma_u16_hex_len_le(g6 as nat, 4);
    lemma_u16_hex_len_le(g7 as nat, 4);
    let t7 = h7;
    let t6 = h6 + seq![':'] + t7;
    let t5 = h5 + seq![':'] + t6;
    let t4 = h4 + seq![':'] + t5;
    let t3 = h3 + seq![':'] + t4;
    let t2 = h2 + seq![':'] + t3;
    let t1 = h1 + seq![':'] + t2;
    let t0 = h0 + seq![':'] + t1;
    lemma_v6_text_reassociates(g0, g1, g2, g3, g4, g5, g6, g7);
    assert(s == t0);
    lemma_split_tail_last(h7, g7);
    let q7 = seq![g7];
    lemma_split_tail_step(t6, h6, t7, g6, q7);
    let q6 = seq![g6] + q7;
    lemma_split_tail_step(t5, h5, t6, g5, q6);
    let q5 = seq![g5] + q6;
    lemma_split_tail_step(t4, h4, t5, g4, q5);
    let q4 = seq![g4] + q5;
    lemma_split_tail_step(t3, h3, t4, g3, q4);
    let q3 = seq![g3] + q4;
    lemma_split_tail_step(t2, h2, t3, g2, q3);
    let q2 = seq![g2] + q3;
    lemma_split_tail_step(t1, h1, t2, g1, q2);
    let q1 = seq![g1] + q2;
    lemma_split_tail_step(t0, h0, t1, g0, q1);
    let q0 = seq![g0] + q1;
    assert(q0 =~= seq![g0, g1, g2, g3, g4, g5, g6, g7]);
}

/// The full hexadecimal text of a sixteen-octet address parses back to
/// it, and its first colon ends the first group.
pub proof fn lemma_v6_text_parses(
    g0: u16,
    g1: u16,
    g2: u16,
    g3: u16,
    g4: u16,
    g5: u16,
    g6: u16,
    g7: u16,
)
    ensures
        spec_parse_v6(v6_text(g0, g1, g2, g3, g4, g5, g6, g7)) == Some(
            IpAddress::V6(g0, g1, g2, g3, g4, g5, g6, g7),
        ),
        find_from(v6_text(g0, g1, g2, g3, g4, g5, g6, g7), ':', 0) < v6_text(
            g0,
            g1,
            g2,
            g3,
            g4,
            g5,
            g6,
            g7,
        ).len(),
{
    lemma_v6_text_shape(g0, g1, g2, g3, g4, g5, g6, g7);
    lemma_v6_text_splits(g0, g1, g2, g3, g4, g5, g6, g7);
    let q = seq![g0, g1, g2, g3, g4, g5, g6, g7];
    assert(groups_to_ip(q) == IpAddress::V6(g0, g1, g2, g3, g4, g5, g6, g7));
}

/// Every address parses back from its canonical text.
pub proof fn lemma_ip_text_round_trip(ip: IpAddress)
    ensures
        spec_parse_ip(ip_text(ip)) == Some(ip),
{
    match ip {
        IpAddress::V4(o0, o1, o2, o3) => {
            lemma_v4_text_parses(o0, o1, o2, o3);
        },
        IpAddress::V6(g0, g1, g2, g3, g4, g5, g6, g7) => {
            lemma_v6_text_parses(g0, g1, g2, g3, g4, g5, g6, g7);
        },
    }
}

/// The canonical text of `ip` as a fresh string.
pub fn ip_to_string(ip: &IpAddress) -> (s: String)
    ensures
        s@ == ip_text(*ip),
{
    let mut s = String::new();
    push_ip_text(ip, &mut s);
    proof {
        assert(s@ =~= ip_text(*ip));
    }
    s
}

} // verus!
