use geoip_country::{parse_address, ParsedAddress};

fn v6(groups: [u16; 8]) -> Option<ParsedAddress> {
    let mut octets = [0u8; 16];
    for (i, group) in groups.iter().enumerate() {
        octets[2 * i] = (group >> 8) as u8;
        octets[2 * i + 1] = (group & 0xff) as u8;
    }
    Some(ParsedAddress::V6(octets))
}

#[test]
fn dotted_quad_is_read() {
    assert_eq!(parse_address("8.8.8.8"), Some(ParsedAddress::V4([8, 8, 8, 8])));
    assert_eq!(parse_address("127.0.0.1"), Some(ParsedAddress::V4([127, 0, 0, 1])));
    assert_eq!(parse_address("0.0.0.0"), Some(ParsedAddress::V4([0, 0, 0, 0])));
    assert_eq!(parse_address("255.255.255.255"), Some(ParsedAddress::V4([255, 255, 255, 255])));
    assert_eq!(parse_address("192.168.10.99"), Some(ParsedAddress::V4([192, 168, 10, 99])));
}

#[test]
fn dotted_quad_limits() {
    assert_eq!(parse_address("256.0.0.1"), None);
    assert_eq!(parse_address("1.2.3"), None);
    assert_eq!(parse_address("1.2.3.4.5"), None);
    assert_eq!(parse_address("1.2.3."), None);
    assert_eq!(parse_address(".1.2.3"), None);
    assert_eq!(parse_address("1..2.3"), None);
    assert_eq!(parse_address("01.2.3.4"), None);
    assert_eq!(parse_address("1.2.3.04"), None);
    assert_eq!(parse_address("1.2.3.0004"), None);
    assert_eq!(parse_address("1.2.3.4 "), None);
    assert_eq!(parse_address(" 1.2.3.4"), None);
    assert_eq!(parse_address("1.2.3.a"), None);
    assert_eq!(parse_address("+1.2.3.4"), None);
}

#[test]
fn text_that_is_no_address() {
    assert_eq!(parse_address(""), None);
    assert_eq!(parse_address("not-an-ip"), None);
    assert_eq!(parse_address("localhost"), None);
    assert_eq!(parse_address("1.2.3.4:80"), None);
    assert_eq!(parse_address("[::1]"), None);
    assert_eq!(parse_address("fe80::1%eth0"), None);
    assert_eq!(parse_address("\u{663}.2.3.4"), None);
    assert_eq!(parse_address("1.2.3.4\u{e9}"), None);
}

#[test]
fn full_ipv6_is_read() {
    assert_eq!(
        parse_address("2001:db8:85a3:0:0:8a2e:370:7334"),
        v6([0x2001, 0xdb8, 0x85a3, 0, 0, 0x8a2e, 0x370, 0x7334])
    );
    assert_eq!(
        parse_address("2001:0DB8:85A3:0000:0000:8A2E:0370:7334"),
        v6([0x2001, 0xdb8, 0x85a3, 0, 0, 0x8a2e, 0x370, 0x7334])
    );
    assert_eq!(
        parse_address("ffff:ffff:ffff:ffff:ffff:ffff:ffff:ffff"),
        v6([0xffff; 8])
    );
    assert_eq!(parse_address("1:2:3:4:5:6:7:8"), v6([1, 2, 3, 4, 5, 6, 7, 8]));
}

#[test]
fn compressed_ipv6_is_read() {
    assert_eq!(parse_address("::"), v6([0; 8]));
    assert_eq!(parse_address("::1"), v6([0, 0, 0, 0, 0, 0, 0, 1]));
    assert_eq!(parse_address("1::"), v6([1, 0, 0, 0, 0, 0, 0, 0]));
    assert_eq!(parse_address("2001:db8::1"), v6([0x2001, 0xdb8, 0, 0, 0, 0, 0, 1]));
    assert_eq!(parse_address("1:2:3:4:5:6:7::"), v6([1, 2, 3, 4, 5, 6, 7, 0]));
    assert_eq!(parse_address("::2:3:4:5:6:7:8"), v6([0, 2, 3, 4, 5, 6, 7, 8]));
    assert_eq!(parse_address("1:2:3::6:7:8"), v6([1, 2, 3, 0, 0, 6, 7, 8]));
}

#[test]
fn ipv6_with_dotted_tail_is_read() {
    assert_eq!(parse_address("::ffff:8.8.8.8"), v6([0, 0, 0, 0, 0, 0xffff, 0x0808, 0x0808]));
    assert_eq!(parse_address("::1.2.3.4"), v6([0, 0, 0, 0, 0, 0, 0x0102, 0x0304]));
    assert_eq!(
        parse_address("1:2:3:4:5:6:1.2.3.4"),
        v6([1, 2, 3, 4, 5, 6, 0x0102, 0x0304])
    );
    assert_eq!(
        parse_address("1:2:3:4:5::1.2.3.4"),
        v6([1, 2, 3, 4, 5, 0, 0x0102, 0x0304])
    );
    assert_eq!(parse_address("64:ff9b::192.0.2.33"), v6([0x64, 0xff9b, 0, 0, 0, 0, 0xc000, 0x0221]));
}

#[test]
fn ipv6_limits() {
    assert_eq!(parse_address(":"), None);
    assert_eq!(parse_address(":::"), None);
    assert_eq!(parse_address("1:"), None);
    assert_eq!(parse_address(":1"), None);
    assert_eq!(parse_address("1:2:3:4:5:6:7"), None);
    assert_eq!(parse_address("1:2:3:4:5:6:7:8:9"), None);
    assert_eq!(parse_address("1:2:3:4:5:6:7:8::"), None);
    assert_eq!(parse_address("::1:2:3:4:5:6:7:8"), None);
    assert_eq!(parse_address("1::2::3"), None);
    assert_eq!(parse_address("1:::2"), None);
    assert_eq!(parse_address("12345::"), None);
    assert_eq!(parse_address("g::"), None);
    assert_eq!(parse_address("1:2:3:4:5:6:7:1.2.3.4"), None);
    assert_eq!(parse_address("1:2:3:4:5:6::1.2.3.4"), None);
    assert_eq!(parse_address("1.2.3.4::"), None);
    assert_eq!(parse_address("::1.2.3.4:5"), None);
    assert_eq!(parse_address("::1.2.3"), None);
    assert_eq!(parse_address("::1.2.3.256"), None);
    assert_eq!(parse_address("::01.2.3.4"), None);
}

#[test]
fn families_are_told_apart() {
    let cases: [(&str, Option<usize>); 20] = [
        ("1.2.3.4", Some(4)),
        ("::1.2.3.4", Some(16)),
        ("::", Some(16)),
        ("0:0:0:0:0:0:0:0", Some(16)),
        ("A:b:C:d::", Some(16)),
        ("ffff::ffff", Some(16)),
        ("::0.1.2.3", Some(16)),
        ("00000::", None),
        ("::00.1.2.3", None),
        ("::1.2.3.4.5", None),
        ("::.1.2.3", None),
        ("::1:", None),
        (":1::", None),
        ("1::1.2.3", None),
        ("1.2.3.4.", None),
        ("1", None),
        ("a", None),
        (" ", None),
        ("fe80::1%1", None),
        ("1:2:3:4:5:6:7", None),
    ];
    for (text, octets) in cases.iter() {
        let parsed = parse_address(text);
        let length = match parsed {
            Some(ParsedAddress::V4(octets)) => Some(octets.len()),
            Some(ParsedAddress::V6(octets)) => Some(octets.len()),
            None => None,
        };
        assert_eq!(length, *octets, "{}", text);
    }
}

// A small generator of repeatable pseudo-random numbers.
struct Dice(u64);

impl Dice {
    fn roll(&mut self, sides: usize) -> usize {
        self.0 = self.0.wrapping_mul(6364136223846793005).wrapping_add(1442695040888963407);
        ((self.0 >> 33) as usize) % sides
    }

    fn pick<'a>(&mut self, choices: &[&'a str]) -> &'a str {
        choices[self.roll(choices.len())]
    }
}

// What the standard parser makes of `text`, which `ipnetwork` reads a
// network's address with.
fn reference(text: &str) -> Option<ParsedAddress> {
    match text.parse::<ipnetwork::IpNetwork>() {
        Ok(ipnetwork::IpNetwork::V4(network)) => Some(ParsedAddress::V4(network.ip().octets())),
        Ok(ipnetwork::IpNetwork::V6(network)) => Some(ParsedAddress::V6(network.ip().octets())),
        Err(_) => None,
    }
}

#[test]
fn parsing_agrees_on_chosen_texts() {
    let samples = [
        "8.8.8.8", "127.0.0.1", "1.2.3", "01.2.3.4", "256.1.1.1", "1.2.3.4.", "::", "::1", "1::",
        ":::", "1:2:3:4:5:6:7:8", "1:2:3:4:5:6:7::", "::2:3:4:5:6:7:8", "1:2:3:4:5:6:7:8::",
        "::ffff:1.2.3.4", "1:2:3:4:5:6:1.2.3.4", "1:2:3:4:5:6:7:1.2.3.4", "1:2:3:4:5:6::1.2.3.4",
        "1:2:3:4:5::1.2.3.4", "1.2.3.4::", "::1.2.3.4:5", "0:0:0:0:0:0:0:0", "00000::", "A:b:C:d::",
        "fe80::1%1", "", " ", "1::2::3", "::00.1.2.3", "::0.1.2.3", "1:2:3:4:5:6:7", "1", "a",
        "1.2.3.4:5", "::1.2.3.4.5", "::.1.2.3", "ffff::ffff", "::1:", ":1::", "1::1.2.3",
        "0.0.0.0", "255.255.255.255", "999.1.1.1", "1.2.3.4 ", "\t1.2.3.4", "1.2.3.-4", "0x1.2.3.4",
        "1:2:3:4:5:6:7:8:9", "::1:2:3:4:5:6:7:8", "1:2:3:4::5:6:7:8", "1:2:3::5:6:7:8",
        "::1.2.3.4::", "1.2.3.4:1::", "0000:0000:0000:0000:0000:0000:0000:0001", "::g", "::G",
        "12345:1::", "1:2:3:4:5:6:7.8.9.10", "1:2:3:4:5:6:7:8.9.10.11", "::255.255.255.255",
        "::256.255.255.255", "not-an-ip", "localhost", "[::1]", "1.2.3.4\n",
    ];
    for text in samples.iter() {
        assert_eq!(parse_address(text), reference(text), "{:?}", text);
    }
}

#[test]
fn parsing_agrees_on_generated_addresses() {
    let groups = [
        "0", "1", "a", "F", "10", "ff", "0db8", "2001", "ffff", "0000", "00000", "g", "", "12345",
        "1.2.3.4", "255.0.255.0", "01.2.3.4", "1.2.3", "256.1.1.1", "1.2.3.4.5",
    ];
    let joints = [":", ":", ":", ":", "::", ".", ""];
    let mut dice = Dice(2024);
    let mut accepted = 0;
    for _ in 0..60000 {
        let mut text = String::new();
        if dice.roll(8) == 0 {
            text.push_str(dice.pick(&["::", ":", "."]));
        }
        let count = 1 + dice.roll(9);
        for index in 0..count {
            if index > 0 {
                text.push_str(dice.pick(&joints));
            }
            text.push_str(dice.pick(&groups));
        }
        if dice.roll(8) == 0 {
            text.push_str(dice.pick(&["::", ":", ".", " "]));
        }
        let parsed = parse_address(&text);
        assert_eq!(parsed, reference(&text), "{:?}", text);
        if parsed.is_some() {
            accepted += 1;
        }
    }
    assert!(accepted > 500, "{}", accepted);
}

#[test]
fn parsing_agrees_on_generated_text() {
    let alphabet: Vec<char> = "0123456789abcdefABCDEF.::..g %-\u{e9}".chars().collect();
    let mut dice = Dice(7);
    for _ in 0..60000 {
        let length = dice.roll(12);
        let mut text = String::new();
        for _ in 0..length {
            text.push(alphabet[dice.roll(alphabet.len())]);
        }
        assert_eq!(parse_address(&text), reference(&text), "{:?}", text);
    }
}
