//! Parsed IP addresses and the text they are read from.

use vstd::prelude::*;
use vstd::string::is_ascii_spec_bytes;
use vstd::utf8::is_ascii_chars;
use crate::ipv4::{dotted_quad, lemma_dotted_quad_alphabet, parse_dotted_quad};
use crate::ipv6::{ipv6_octets, lemma_double_colon, lemma_ipv6_alphabet, parse_ipv6};
use crate::text::{fields, lemma_next_separator, COLON};

verus! {

/// An IP address of either family, as its octets in network order.
#[derive(Clone, Copy, Debug, PartialEq, Eq)]
pub enum ParsedAddress {
    /// An IPv4 address.
    V4([u8; 4]),
    /// An IPv6 address.
    V6([u8; 16]),
}

impl View for ParsedAddress {
    type V = Seq<u8>;

    /// The address's octets in network order: four for IPv4, sixteen for
    /// IPv6.
    open spec fn view(&self) -> Seq<u8> {
        match *self {
            ParsedAddress::V4(octets) => octets@,
            ParsedAddress::V6(octets) => octets@,
        }
    }
}

/// The ASCII codes of the characters of `text`.
pub open spec fn ascii_codes(text: Seq<char>) -> Seq<u8> {
    Seq::new(text.len(), |i: int| text[i] as u8)
}

/// The octets of the address that `text` writes, in either family; `None`
/// where `text` is not an address. A dotted quad gives four octets, the
/// colon-separated form sixteen.
pub open spec fn address_octets(text: Seq<char>) -> Option<Seq<u8>> {
    if !is_ascii_chars(text) {
        None
    } else {
        match dotted_quad(ascii_codes(text)) {
            Some(octets) => Some(octets),
            None => ipv6_octets(ascii_codes(text)),
        }
    }
}

/// `c` is a character that an address is written with: a hexadecimal digit,
/// a dot or a colon.
pub open spec fn is_address_char(c: char) -> bool {
    ('0' <= c <= '9') || ('a' <= c <= 'f') || ('A' <= c <= 'F') || c == '.' || c == ':'
}

/// An address is written with hexadecimal digits, dots and colons alone: a
/// text that holds any other character is no address.
pub proof fn law_address_alphabet(text: Seq<char>)
    requires
        address_octets(text) is Some,
    ensures
        forall|i: int| 0 <= i < text.len() ==> is_address_char(#[trigger] text[i]),
{
    let codes = ascii_codes(text);
    if dotted_quad(codes) is Some {
        lemma_dotted_quad_alphabet(codes);
    } else {
        lemma_ipv6_alphabet(codes);
    }
    assert forall|i: int| 0 <= i < text.len() implies is_address_char(#[trigger] text[i]) by {
        assert(codes[i] == text[i] as u8);
    }
}

/// The two families do not overlap: a text that is a dotted quad is not
/// read as an IPv6 address as well. So an address has four octets where its
/// text is a dotted quad, and sixteen where it is not.
pub proof fn law_address_families(text: Seq<char>)
    requires
        address_octets(text) is Some,
    ensures
        dotted_quad(ascii_codes(text)) is Some ==> ipv6_octets(ascii_codes(text)) is None
            && address_octets(text)->Some_0.len() == 4,
        dotted_quad(ascii_codes(text)) is None ==> address_octets(text)->Some_0.len() == 16,
{
    let codes = ascii_codes(text);
    if dotted_quad(codes) is Some {
        lemma_dotted_quad_alphabet(codes);
        lemma_next_separator(codes, COLON, 0);
        lemma_double_colon(codes, 0);
        assert(fields(codes, COLON) =~= seq![codes]);
    }
}

/// Parses the textual form of an IPv4 or IPv6 address.
pub fn parse_address(text: &str) -> (r: Option<ParsedAddress>)
    ensures
        match r {
            Some(address) => address_octets(text@) == Some(address@),
            None => address_octets(text@) is None,
        },
{
    if !text.is_ascii() {
        return None;
    }
    let bytes = text.as_bytes();
    proof {
        is_ascii_spec_bytes(text);
    }
    match parse_dotted_quad(bytes) {
        Some(octets) => Some(ParsedAddress::V4(octets)),
        None => match parse_ipv6(bytes) {
            Some(octets) => Some(ParsedAddress::V6(octets)),
            None => None,
        },
    }
}

} // verus!
