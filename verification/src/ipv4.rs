//! The dotted-quad form of an IPv4 address.

use vstd::prelude::*;
use vstd::slice::slice_subrange;
use crate::text::{
    decimal_octet, fields, find_separator, is_decimal_digit, lemma_fields_cover,
    lemma_fields_nonempty, parse_decimal_octet, DOT,
};

verus! {

/// The four octets that `s` writes as a dotted quad: exactly four decimal
/// octets with a `.` between them.
pub open spec fn dotted_quad(s: Seq<u8>) -> Option<Seq<u8>> {
    let parts = fields(s, DOT);
    if parts.len() == 4 && (forall|i: int| 0 <= i < 4 ==> (#[trigger] decimal_octet(parts[i])) is Some) {
        Some(Seq::new(4, |i: int| decimal_octet(parts[i]).unwrap()))
    } else {
        None
    }
}

/// A dotted quad is written with decimal digits and dots alone.
pub proof fn lemma_dotted_quad_alphabet(s: Seq<u8>)
    requires
        dotted_quad(s) is Some,
    ensures
        forall|i: int| 0 <= i < s.len() ==> s[i] == DOT || is_decimal_digit(#[trigger] s[i]),
{
    let parts = fields(s, DOT);
    let ok = |b: u8| is_decimal_digit(b);
    assert forall|k: int, j: int| 0 <= k < parts.len() && 0 <= j < parts[k].len() implies ok(
        #[trigger] parts[k][j],
    ) by {
        assert(decimal_octet(parts[k]) is Some);
    }
    lemma_fields_cover(s, DOT, ok);
}

/// Reads a dotted quad; `None` where `s` is not one.
pub fn parse_dotted_quad(s: &[u8]) -> (r: Option<[u8; 4]>)
    ensures
        match r {
            Some(octets) => dotted_quad(s@) == Some(octets@),
            None => dotted_quad(s@) is None,
        },
{
    let mut octets: [u8; 4] = [0u8; 4];
    let mut rest: &[u8] = s;
    let ghost mut done: Seq<Seq<u8>> = Seq::empty();
    let mut k: usize = 0;
    while k < 3
        invariant
            k <= 3,
            done.len() == k,
            fields(s@, DOT) == done + fields(rest@, DOT),
            forall|j: int| 0 <= j < k ==> decimal_octet(#[trigger] done[j]) == Some(octets@[j]),
        decreases 3 - k,
    {
        let cut = find_separator(rest, DOT);
        proof {
            lemma_fields_nonempty(rest@, DOT);
        }
        if cut == rest.len() {
            return None;
        }
        let part = slice_subrange(rest, 0, cut);
        let tail = slice_subrange(rest, cut + 1, rest.len());
        proof {
            lemma_fields_nonempty(tail@, DOT);
            assert(fields(s@, DOT)[k as int] == part@);
        }
        match parse_decimal_octet(part) {
            None => {
                return None;
            },
            Some(value) => {
                octets[k] = value;
            },
        }
        proof {
            done = done.push(part@);
        }
        rest = tail;
        k += 1;
    }
    let cut = find_separator(rest, DOT);
    proof {
        lemma_fields_nonempty(rest@, DOT);
        if cut < rest@.len() {
            lemma_fields_nonempty(rest@.skip(cut as int + 1), DOT);
        }
    }
    if cut != rest.len() {
        return None;
    }
    proof {
        assert(fields(s@, DOT)[3] == rest@);
    }
    match parse_decimal_octet(rest) {
        None => None,
        Some(value) => {
            octets[3] = value;
            proof {
                let parts = fields(s@, DOT);
                assert(octets@ =~= Seq::new(4, |i: int| decimal_octet(parts[i]).unwrap()));
            }
            Some(octets)
        },
    }
}

} // verus!
