//! The colon-separated form of an IPv6 address, with one optional `::` that
//! stands for a run of zero groups and an optional dotted quad in place of
//! the last two groups.

use vstd::prelude::*;
use vstd::slice::slice_subrange;
use crate::ipv4::{dotted_quad, lemma_dotted_quad_alphabet, parse_dotted_quad};
use crate::text::{
    fields, find_separator, hex_group, is_hex_digit, lemma_fields_cover, lemma_fields_nonempty,
    parse_hex_group, COLON, DOT,
};

verus! {

/// The bytes that a run of fields writes: each field is a hexadecimal group
/// of two bytes, most significant first. With `dotted_tail` the last field
/// may be a dotted quad of four bytes instead.
pub open spec fn group_bytes(parts: Seq<Seq<u8>>, dotted_tail: bool) -> Option<Seq<u8>>
    decreases parts.len(),
{
    if parts.len() == 0 {
        Some(Seq::empty())
    } else if parts.len() == 1 && dotted_tail && dotted_quad(parts[0]) is Some {
        dotted_quad(parts[0])
    } else {
        match (hex_group(parts[0]), group_bytes(parts.drop_first(), dotted_tail)) {
            (Some(group), Some(rest)) => Some(seq![(group / 256) as u8, (group % 256) as u8] + rest),
            _ => None,
        }
    }
}

/// The bytes that the colon-separated text `s` writes.
pub open spec fn section(s: Seq<u8>, dotted_tail: bool) -> Option<Seq<u8>> {
    group_bytes(fields(s, COLON), dotted_tail)
}

/// The position of the first `::` in `s` at or after `from`, or `s.len()`
/// where there is none.
pub open spec fn double_colon(s: Seq<u8>, from: int) -> int
    decreases s.len() - from,
{
    if from < 0 || from + 1 >= s.len() {
        s.len() as int
    } else if s[from] == COLON && s[from + 1] == COLON {
        from
    } else {
        double_colon(s, from + 1)
    }
}

/// `n` zero bytes.
pub open spec fn zeros(n: int) -> Seq<u8> {
    Seq::new(n as nat, |i: int| 0u8)
}

/// The sixteen octets that `s` writes as an IPv6 address.
///
/// Without `::` the text is eight groups, or six groups and a dotted quad.
/// With `::` the groups before it fill the front, the groups after it (which
/// may end in a dotted quad) fill the back, and at least one zero group
/// stands between them.
pub open spec fn ipv6_octets(s: Seq<u8>) -> Option<Seq<u8>> {
    let gap = double_colon(s, 0);
    if gap >= s.len() {
        match section(s, true) {
            Some(bytes) => if bytes.len() == 16 {
                Some(bytes)
            } else {
                None
            },
            None => None,
        }
    } else {
        let head = if gap == 0 {
            Some(Seq::empty())
        } else {
            section(s.take(gap), false)
        };
        let tail = if gap + 2 == s.len() {
            Some(Seq::empty())
        } else {
            section(s.skip(gap + 2), true)
        };
        match (head, tail) {
            (Some(front), Some(back)) => if front.len() + back.len() <= 14 {
                Some(front + zeros(16 - front.len() - back.len()) + back)
            } else {
                None
            },
            _ => None,
        }
    }
}

/// `front` followed by `back`, where there is a `back`.
pub open spec fn prefixed(front: Seq<u8>, back: Option<Seq<u8>>) -> Option<Seq<u8>> {
    match back {
        Some(bytes) => Some(front + bytes),
        None => None,
    }
}

/// A `::` found by `double_colon` lies in range and is one.
pub proof fn lemma_double_colon(s: Seq<u8>, from: int)
    requires
        0 <= from <= s.len(),
    ensures
        from <= double_colon(s, from) <= s.len(),
        double_colon(s, from) < s.len() ==> double_colon(s, from) + 2 <= s.len()
            && s[double_colon(s, from)] == COLON && s[double_colon(s, from) + 1] == COLON,
    decreases s.len() - from,
{
    if from + 1 < s.len() && !(s[from] == COLON && s[from + 1] == COLON) {
        lemma_double_colon(s, from + 1);
    }
}

/// `b` is a byte that an address is written with: a hexadecimal digit, a
/// dot or a colon.
pub open spec fn is_address_byte(b: u8) -> bool {
    is_hex_digit(b) || b == DOT || b == COLON
}

/// The fields of a run of groups are written with hexadecimal digits and
/// dots alone.
pub proof fn lemma_group_bytes_alphabet(parts: Seq<Seq<u8>>, dotted_tail: bool)
    requires
        group_bytes(parts, dotted_tail) is Some,
    ensures
        forall|k: int, j: int|
            0 <= k < parts.len() && 0 <= j < parts[k].len() ==> is_hex_digit(
                #[trigger] parts[k][j],
            ) || parts[k][j] == DOT,
    decreases parts.len(),
{
    if parts.len() == 0 {
    } else if parts.len() == 1 && dotted_tail && dotted_quad(parts[0]) is Some {
        lemma_dotted_quad_alphabet(parts[0]);
    } else {
        let rest = parts.drop_first();
        lemma_group_bytes_alphabet(rest, dotted_tail);
        assert forall|k: int, j: int| 0 <= k < parts.len() && 0 <= j < parts[k].len() implies (
        is_hex_digit(#[trigger] parts[k][j]) || parts[k][j] == DOT) by {
            if k > 0 {
                assert(parts[k] == rest[k - 1]);
            }
        }
    }
}

/// A run of groups is written with the bytes of an address alone.
pub proof fn lemma_section_alphabet(s: Seq<u8>, dotted_tail: bool)
    requires
        section(s, dotted_tail) is Some,
    ensures
        forall|i: int| 0 <= i < s.len() ==> is_address_byte(#[trigger] s[i]),
{
    let parts = fields(s, COLON);
    let ok = |b: u8| is_hex_digit(b) || b == DOT;
    lemma_group_bytes_alphabet(parts, dotted_tail);
    assert forall|k: int, j: int| 0 <= k < parts.len() && 0 <= j < parts[k].len() implies ok(
        #[trigger] parts[k][j],
    ) by {
        assert(is_hex_digit(parts[k][j]) || parts[k][j] == DOT);
    }
    lemma_fields_cover(s, COLON, ok);
}

/// An IPv6 address is written with the bytes of an address alone.
pub proof fn lemma_ipv6_alphabet(s: Seq<u8>)
    requires
        ipv6_octets(s) is Some,
    ensures
        forall|i: int| 0 <= i < s.len() ==> is_address_byte(#[trigger] s[i]),
{
    let gap = double_colon(s, 0);
    lemma_double_colon(s, 0);
    if gap >= s.len() {
        lemma_section_alphabet(s, true);
    } else {
        let head = s.take(gap);
        let tail = s.skip(gap + 2);
        if gap > 0 {
            lemma_section_alphabet(head, false);
        }
        if gap + 2 < s.len() {
            lemma_section_alphabet(tail, true);
        }
        assert forall|i: int| 0 <= i < s.len() implies is_address_byte(#[trigger] s[i]) by {
            if i < gap {
                assert(head[i] == s[i]);
            } else if i >= gap + 2 {
                assert(tail[i - gap - 2] == s[i]);
            }
        }
    }
}

/// Finds the first `::` in `s`; `s.len()` where there is none.
pub fn find_double_colon(s: &[u8]) -> (gap: usize)
    ensures
        gap == double_colon(s@, 0),
        gap <= s@.len(),
        gap < s@.len() ==> gap + 2 <= s@.len(),
{
    let n = s.len();
    let mut i: usize = 0;
    while n - i >= 2 && !(s[i] == COLON && s[i + 1] == COLON)
        invariant
            n == s@.len(),
            i <= n,
            double_colon(s@, 0) == double_colon(s@, i as int),
        decreases n - i,
    {
        i += 1;
    }
    proof {
        lemma_double_colon(s@, i as int);
    }
    if n - i >= 2 {
        i
    } else {
        n
    }
}

/// Reads a run of colon-separated groups; `None` where `s` is not one.
pub fn parse_section(s: &[u8], dotted_tail: bool) -> (r: Option<Vec<u8>>)
    ensures
        match r {
            Some(bytes) => section(s@, dotted_tail) == Some(bytes@),
            None => section(s@, dotted_tail) is None,
        },
{
    let mut out: Vec<u8> = Vec::new();
    let mut rest: &[u8] = s;
    loop
        invariant
            section(s@, dotted_tail) == prefixed(out@, section(rest@, dotted_tail)),
        decreases rest@.len(),
    {
        let cut = find_separator(rest, COLON);
        proof {
            lemma_fields_nonempty(rest@, COLON);
        }
        if cut == rest.len() {
            if dotted_tail {
                if let Some(quad) = parse_dotted_quad(rest) {
                    out.push(quad[0]);
                    out.push(quad[1]);
                    out.push(quad[2]);
                    out.push(quad[3]);
                    return Some(out);
                }
            }
            match parse_hex_group(rest) {
                None => {
                    return None;
                },
                Some(group) => {
                    out.push((group / 256) as u8);
                    out.push((group % 256) as u8);
                    return Some(out);
                },
            }
        }
        let part = slice_subrange(rest, 0, cut);
        let tail = slice_subrange(rest, cut + 1, rest.len());
        proof {
            lemma_fields_nonempty(tail@, COLON);
            assert(fields(rest@, COLON).drop_first() =~= fields(tail@, COLON));
        }
        match parse_hex_group(part) {
            None => {
                return None;
            },
            Some(group) => {
                out.push((group / 256) as u8);
                out.push((group % 256) as u8);
            },
        }
        rest = tail;
    }
}

/// Reads an IPv6 address; `None` where `s` is not one.
pub fn parse_ipv6(s: &[u8]) -> (r: Option<[u8; 16]>)
    ensures
        match r {
            Some(octets) => ipv6_octets(s@) == Some(octets@),
            None => ipv6_octets(s@) is None,
        },
{
    let n = s.len();
    let gap = find_double_colon(s);
    let mut octets: [u8; 16] = [0u8; 16];
    if gap >= n {
        let bytes = match parse_section(s, true) {
            None => {
                return None;
            },
            Some(bytes) => bytes,
        };
        if bytes.len() != 16 {
            return None;
        }
        let mut i: usize = 0;
        while i < 16
            invariant
                i <= 16,
                bytes@.len() == 16,
                forall|k: int| 0 <= k < i ==> octets@[k] == bytes@[k],
            decreases 16 - i,
        {
            octets[i] = bytes[i];
            i += 1;
        }
        return Some(octets);
    }
    let front: Vec<u8> = if gap == 0 {
        Vec::new()
    } else {
        let head = slice_subrange(s, 0, gap);
        match parse_section(head, false) {
            None => {
                return None;
            },
            Some(bytes) => bytes,
        }
    };
    let back: Vec<u8> = if gap + 2 == n {
        Vec::new()
    } else {
        let tail = slice_subrange(s, gap + 2, n);
        match parse_section(tail, true) {
            None => {
                return None;
            },
            Some(bytes) => bytes,
        }
    };
    if front.len() > 14 || back.len() > 14 || front.len() + back.len() > 14 {
        return None;
    }
    let start = 16 - back.len();
    let mut i: usize = 0;
    while i < front.len()
        invariant
            i <= front@.len(),
            front@.len() + back@.len() <= 14,
            forall|k: int| 0 <= k < i ==> octets@[k] == front@[k],
            forall|k: int| i <= k < 16 ==> octets@[k] == 0,
        decreases front@.len() - i,
    {
        octets[i] = front[i];
        i += 1;
    }
    let mut j: usize = 0;
    while j < back.len()
        invariant
            j <= back@.len(),
            start == 16 - back@.len(),
            front@.len() + back@.len() <= 14,
            forall|k: int| 0 <= k < front@.len() ==> octets@[k] == front@[k],
            forall|k: int| front@.len() <= k < start + j ==> (k < start ==> octets@[k] == 0),
            forall|k: int| 0 <= k < j ==> octets@[start + k] == back@[k],
            forall|k: int| start + j <= k < 16 ==> octets@[k] == 0,
        decreases back@.len() - j,
    {
        octets[start + j] = back[j];
        j += 1;
    }
    Some(octets)
}

} // verus!
