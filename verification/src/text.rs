//! Numbers and separated fields in ASCII text: the pieces that both address
//! families are written with.

use vstd::prelude::*;

verus! {

/// The byte `.`, which separates the parts of a dotted quad.
pub const DOT: u8 = 46;

/// The byte `:`, which separates the groups of an IPv6 address.
pub const COLON: u8 = 58;

/// `b` is one of `0` to `9`.
pub open spec fn is_decimal_digit(b: u8) -> bool {
    48 <= b <= 57
}

/// `b` is one of `0` to `9`, `a` to `f` or `A` to `F`.
pub open spec fn is_hex_digit(b: u8) -> bool {
    is_decimal_digit(b) || 97 <= b <= 102 || 65 <= b <= 70
}

/// The value of the digit `b` (meaningful for hexadecimal digits only).
pub open spec fn digit_value(b: u8) -> int {
    if 48 <= b <= 57 {
        b - 48
    } else if 97 <= b <= 102 {
        b - 87
    } else {
        b - 55
    }
}

/// The number that the digits `s` write in base `radix`, most significant
/// digit first.
pub open spec fn number(s: Seq<u8>, radix: int) -> int
    decreases s.len(),
{
    if s.len() == 0 {
        0
    } else {
        number(s.drop_last(), radix) * radix + digit_value(s.last())
    }
}

/// The octet written by `s`: one to three decimal digits, without a leading
/// zero unless the text is `0` itself, and no more than 255.
pub open spec fn decimal_octet(s: Seq<u8>) -> Option<u8> {
    if 1 <= s.len() <= 3 && (forall|i: int| 0 <= i < s.len() ==> is_decimal_digit(#[trigger] s[i]))
        && (s.len() == 1 || s[0] != 48) && number(s, 10) <= 255 {
        Some(number(s, 10) as u8)
    } else {
        None
    }
}

/// The 16-bit group written by `s`: one to four hexadecimal digits.
pub open spec fn hex_group(s: Seq<u8>) -> Option<u16> {
    if 1 <= s.len() <= 4 && (forall|i: int| 0 <= i < s.len() ==> is_hex_digit(#[trigger] s[i])) {
        Some(number(s, 16) as u16)
    } else {
        None
    }
}

/// The position of the first `sep` in `s` at or after `from`, or `s.len()`
/// where there is none.
pub open spec fn next_separator(s: Seq<u8>, sep: u8, from: int) -> int
    decreases s.len() - from,
{
    if from < 0 || from >= s.len() {
        s.len() as int
    } else if s[from] == sep {
        from
    } else {
        next_separator(s, sep, from + 1)
    }
}

/// The fields of `s` between occurrences of `sep`. A text without `sep` is
/// one field; an empty text is one empty field.
pub open spec fn fields(s: Seq<u8>, sep: u8) -> Seq<Seq<u8>>
    decreases s.len(),
{
    let cut = next_separator(s, sep, 0);
    if 0 <= cut < s.len() {
        seq![s.take(cut)] + fields(s.skip(cut + 1), sep)
    } else {
        seq![s]
    }
}

/// A separator found by `next_separator` lies in range, is the separator,
/// and nothing before it is.
pub proof fn lemma_next_separator(s: Seq<u8>, sep: u8, from: int)
    requires
        0 <= from <= s.len(),
    ensures
        from <= next_separator(s, sep, from) <= s.len(),
        next_separator(s, sep, from) < s.len() ==> s[next_separator(s, sep, from)] == sep,
        forall|k: int| from <= k < next_separator(s, sep, from) ==> s[k] != sep,
    decreases s.len() - from,
{
    if from < s.len() && s[from] != sep {
        lemma_next_separator(s, sep, from + 1);
    }
}

/// Every text has at least one field.
pub proof fn lemma_fields_nonempty(s: Seq<u8>, sep: u8)
    ensures
        fields(s, sep).len() >= 1,
        next_separator(s, sep, 0) < s.len() ==> fields(s, sep).len() >= 2,
    decreases s.len(),
{
    lemma_next_separator(s, sep, 0);
    let cut = next_separator(s, sep, 0);
    if cut < s.len() {
        lemma_fields_nonempty(s.skip(cut + 1), sep);
    }
}

/// Every byte of a text is a separator or lies in one of its fields: where
/// all bytes of all fields satisfy `ok`, all bytes of the text are
/// separators or satisfy `ok`.
pub proof fn lemma_fields_cover(s: Seq<u8>, sep: u8, ok: spec_fn(u8) -> bool)
    requires
        forall|k: int, j: int|
            0 <= k < fields(s, sep).len() && 0 <= j < fields(s, sep)[k].len() ==> ok(
                #[trigger] fields(s, sep)[k][j],
            ),
    ensures
        forall|i: int| 0 <= i < s.len() ==> s[i] == sep || ok(#[trigger] s[i]),
    decreases s.len(),
{
    lemma_next_separator(s, sep, 0);
    let cut = next_separator(s, sep, 0);
    let all = fields(s, sep);
    if cut < s.len() {
        let rest = s.skip(cut + 1);
        let more = fields(rest, sep);
        assert forall|k: int, j: int| 0 <= k < more.len() && 0 <= j < more[k].len() implies ok(
            #[trigger] more[k][j],
        ) by {
            assert(all[k + 1] == more[k]);
        }
        lemma_fields_cover(rest, sep, ok);
        assert forall|i: int| 0 <= i < s.len() implies s[i] == sep || ok(#[trigger] s[i]) by {
            if i < cut {
                assert(ok(all[0][i]));
            } else if i > cut {
                assert(rest[i - cut - 1] == s[i]);
            }
        }
    } else {
        assert forall|i: int| 0 <= i < s.len() implies s[i] == sep || ok(#[trigger] s[i]) by {
            assert(ok(all[0][i]));
        }
    }
}

/// Finds the first `sep` in `s`; `s.len()` where there is none.
pub fn find_separator(s: &[u8], sep: u8) -> (cut: usize)
    ensures
        cut == next_separator(s@, sep, 0),
        cut <= s@.len(),
{
    let mut i: usize = 0;
    while i < s.len() && s[i] != sep
        invariant
            i <= s@.len(),
            next_separator(s@, sep, 0) == next_separator(s@, sep, i as int),
        decreases s@.len() - i,
    {
        i += 1;
    }
    proof {
        lemma_next_separator(s@, sep, i as int);
    }
    i
}

/// Reads a decimal octet; `None` where `s` is not one.
pub fn parse_decimal_octet(s: &[u8]) -> (r: Option<u8>)
    ensures
        r == decimal_octet(s@),
{
    let n = s.len();
    if n == 0 || n > 3 {
        return None;
    }
    let mut value: u16 = 0;
    let mut i: usize = 0;
    while i < n
        invariant
            n == s@.len(),
            1 <= n <= 3,
            i <= n,
            forall|k: int| 0 <= k < i ==> is_decimal_digit(#[trigger] s@[k]),
            value == number(s@.take(i as int), 10),
            value < 1000,
            i == 0 ==> value == 0,
            i == 1 ==> value < 10,
            i == 2 ==> value < 100,
        decreases n - i,
    {
        let b = s[i];
        if b < 48 || b > 57 {
            return None;
        }
        proof {
            assert(s@.take(i as int + 1).drop_last() =~= s@.take(i as int));
        }
        value = value * 10 + (b - 48) as u16;
        i += 1;
    }
    proof {
        assert(s@.take(n as int) =~= s@);
    }
    if (n > 1 && s[0] == 48) || value > 255 {
        return None;
    }
    Some(value as u8)
}

/// Reads a hexadecimal group; `None` where `s` is not one.
pub fn parse_hex_group(s: &[u8]) -> (r: Option<u16>)
    ensures
        r == hex_group(s@),
{
    let n = s.len();
    if n == 0 || n > 4 {
        return None;
    }
    let mut value: u32 = 0;
    let mut i: usize = 0;
    while i < n
        invariant
            n == s@.len(),
            1 <= n <= 4,
            i <= n,
            forall|k: int| 0 <= k < i ==> is_hex_digit(#[trigger] s@[k]),
            value == number(s@.take(i as int), 16),
            i == 0 ==> value == 0,
            i == 1 ==> value < 16,
            i == 2 ==> value < 256,
            i == 3 ==> value < 4096,
            value < 65536,
        decreases n - i,
    {
        let b = s[i];
        let digit: u32 = if 48 <= b && b <= 57 {
            (b - 48) as u32
        } else if 97 <= b && b <= 102 {
            (b - 87) as u32
        } else if 65 <= b && b <= 70 {
            (b - 55) as u32
        } else {
            return None;
        };
        proof {
            assert(s@.take(i as int + 1).drop_last() =~= s@.take(i as int));
        }
        value = value * 16 + digit;
        i += 1;
    }
    proof {
        assert(s@.take(n as int) =~= s@);
    }
    Some(value as u16)
}

} // verus!
