use warp_keeper::net::{listed_addresses, parse_ipv4, Ipv4};
use warp_keeper::number::{decimal_text, parse_octet, parse_u16};
use warp_keeper::text;

const SAMPLES: [&str; 22] = [
    "",
    " ",
    "\n",
    "\r\n",
    "\r",
    "a",
    "a\n",
    "a\r\n",
    "a\r",
    "a\n\nb",
    "a\r\n\r\nb\r\n",
    "\na\r\rb\r\n c",
    "a b",
    "  a \t b\u{3000}c\u{a0}",
    "warp",
    "WARP",
    "wg-Warp0",
    "\u{2028}x\u{85}",
    "网卡 warp 接口",
    "\u{200b}zero width",
    "\r\n\r\n\r\n",
    "a/b/c::d.e",
];

#[test]
fn white_space_is_that_of_the_standard_library() {
    for code in 0..=0x10FFFFu32 {
        if let Some(c) = char::from_u32(code) {
            assert_eq!(text::whitespace(c), c.is_whitespace(), "{:x}", code);
            assert_eq!(text::lower(c), c.to_ascii_lowercase(), "{:x}", code);
        }
    }
}

#[test]
fn splits_and_searches_are_those_of_the_standard_library() {
    for s in SAMPLES {
        assert_eq!(text::split_words(s), s.split_whitespace().collect::<Vec<_>>(), "{:?}", s);
        assert_eq!(text::split_lines(s), s.lines().collect::<Vec<_>>(), "{:?}", s);
        assert_eq!(text::blank(s), s.trim().is_empty(), "{:?}", s);
        for sep in ['\n', '/', ':', '.', ' '] {
            assert_eq!(text::split_parts(s, sep), s.split(sep).collect::<Vec<_>>(), "{:?}", s);
            let chars = text::chars_of(s);
            let first = chars.iter().position(|c| *c == sep).unwrap_or(chars.len());
            assert_eq!(text::find_char(&chars, sep, 0), first);
            assert_eq!(text::find_last_char(&chars, sep), chars.iter().rposition(|c| *c == sep));
        }
        for p in SAMPLES {
            assert_eq!(text::contains(s, p), s.contains(p), "{:?} {:?}", s, p);
            assert_eq!(text::same(s, p), s == p);
            assert_eq!(text::less(s, p), s < p, "{:?} {:?}", s, p);
            let lowered = s.to_ascii_lowercase();
            assert_eq!(text::starts_with_lowered(s, p), lowered.starts_with(p));
        }
    }
}

#[test]
fn text_is_found_from_a_position_on() {
    let s = text::chars_of("abcabc");
    let p = text::chars_of("bc");
    assert_eq!(text::find(&s, &p, 0), Some(1));
    assert_eq!(text::find(&s, &p, 2), Some(4));
    assert_eq!(text::find(&s, &p, 5), None);
    assert_eq!(text::find(&s, &text::chars_of(""), 6), Some(6));
    assert_eq!(text::slice("网卡abc", 1, 3), "卡a");
}

#[test]
fn numbers_are_written_in_decimal() {
    for n in [0, 7, 9, 10, 80, 99, 100, 65535, 1_000_000, u64::MAX] {
        assert_eq!(decimal_text(n), n.to_string());
    }
}

#[test]
fn ports_are_read_as_the_standard_library_reads_them() {
    for s in [
        "0", "80", "+80", "0080", "000000000000080", "65535", "65536", "99999999999999999999", "",
        "+", "-", "-1", "-0", "++1", " 80", "80 ", "8o", "1e3", "８０", "+0",
    ] {
        assert_eq!(parse_u16(s), s.parse::<u16>().ok(), "{:?}", s);
    }
    for n in 0..=65535u16 {
        assert_eq!(parse_u16(&decimal_text(n as u64)), Some(n));
    }
}

#[test]
fn bytes_of_an_address_have_no_leading_zero() {
    assert_eq!(parse_octet("0"), Some(0));
    assert_eq!(parse_octet("255"), Some(255));
    assert_eq!(parse_octet("256"), None);
    assert_eq!(parse_octet("00"), None);
    assert_eq!(parse_octet("01"), None);
    assert_eq!(parse_octet("1000"), None);
    assert_eq!(parse_octet(""), None);
    assert_eq!(parse_octet("+1"), None);
}

#[test]
fn addresses_are_four_bytes() {
    let ip = |a: u8, b: u8, c: u8, d: u8| Some(Ipv4 { a, b, c, d });
    assert_eq!(parse_ipv4("1.1.1.1"), ip(1, 1, 1, 1));
    assert_eq!(parse_ipv4("172.16.0.2"), ip(172, 16, 0, 2));
    assert_eq!(parse_ipv4("255.255.255.255"), ip(255, 255, 255, 255));
    for s in ["", "1.1.1", "1.1.1.1.1", "1.1.1.256", "01.1.1.1", "1..1.1", "1.1.1.1 ", "a.b.c.d"] {
        assert_eq!(parse_ipv4(s), None, "{:?}", s);
    }
}

#[test]
fn listings_tell_addresses() {
    let listing = "5: warp    inet 172.16.0.2/32 scope global warp\\       valid_lft forever\n\
                   5: warp    inet6 fe80::1/64 scope link\n\
                   garbage\n\
                   6: warp    inet\n\
                   7: warp    inet bad/8 inet 9.9.9.9\n\
                   8: warp    inet 10.0.0.1 peer 10.0.0.2/32\r\n";
    assert_eq!(
        listed_addresses(listing),
        vec![Ipv4 { a: 172, b: 16, c: 0, d: 2 }, Ipv4 { a: 10, b: 0, c: 0, d: 1 }]
    );
    assert_eq!(listed_addresses(""), vec![]);
}
