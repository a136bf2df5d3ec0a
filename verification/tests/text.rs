use testcontainers_rs::ports::{parse_key, parse_port, try_parse_port};
use testcontainers_rs::text::{find_char, parse_digits, push_decimal, to_chars};

#[test]
fn parse_port_reads_decimal_numbers() {
    assert_eq!(parse_port("80"), 80);
    assert_eq!(parse_port("0"), 0);
    assert_eq!(parse_port("65535"), 65535);
    assert_eq!(parse_port("8332"), 8332);
}

#[test]
fn parse_port_takes_a_plus_and_leading_zeros() {
    assert_eq!(parse_port("+80"), 80);
    assert_eq!(parse_port("0080"), 80);
    assert_eq!(parse_port("+000000000000000000000443"), 443);
}

#[test]
fn try_parse_port_agrees_with_the_standard_parser() {
    let texts = [
        "80", "0", "65535", "65536", "99999", "+80", "+", "", "-1", "-0", " 80", "80 ", "8 0",
        "0x50", "80/tcp", "1_000", "٣", "00000", "+0", "++1", "4294967296", "18446744073709551616",
        "12a", "a12", "६५५३५", "０",
    ];
    for text in texts {
        assert_eq!(try_parse_port(text), text.parse::<u16>().ok(), "{:?}", text);
    }
}

#[test]
fn try_parse_port_refuses_what_is_no_port_number() {
    assert_eq!(try_parse_port(""), None);
    assert_eq!(try_parse_port("65536"), None);
    assert_eq!(try_parse_port("-1"), None);
    assert_eq!(try_parse_port("http"), None);
    assert_eq!(try_parse_port(" 80"), None);
    assert_eq!(try_parse_port("65535"), Some(65535));
}

#[test]
fn parse_key_reads_the_port_before_the_protocol() {
    assert_eq!(parse_key("80/tcp"), Some(80));
    assert_eq!(parse_key("8332/udp"), Some(8332));
    assert_eq!(parse_key("53"), Some(53));
    assert_eq!(parse_key("80/tcp/extra"), Some(80));
    assert_eq!(parse_key("80/"), Some(80));
}

#[test]
fn parse_key_names_no_port_for_a_malformed_key() {
    assert_eq!(parse_key(""), None);
    assert_eq!(parse_key("/tcp"), None);
    assert_eq!(parse_key("tcp"), None);
    assert_eq!(parse_key("http/tcp"), None);
    assert_eq!(parse_key("70000/tcp"), None);
    assert_eq!(parse_key("80 /tcp"), None);
}

#[test]
fn push_decimal_writes_the_shortest_form() {
    for (n, text) in [(0u16, "0"), (7, "7"), (10, "10"), (80, "80"), (443, "443"), (65535, "65535")]
    {
        let mut out = String::new();
        push_decimal(&mut out, n);
        assert_eq!(out, text);
    }
}

#[test]
fn push_decimal_appends_to_what_is_there() {
    let mut out = String::from("port ");
    push_decimal(&mut out, 8080);
    assert_eq!(out, "port 8080");
}

#[test]
fn push_decimal_and_parse_port_are_inverse() {
    for n in [0u16, 1, 9, 10, 99, 100, 1000, 9999, 10000, 32768, 65534, 65535] {
        let mut out = String::new();
        push_decimal(&mut out, n);
        assert_eq!(out, n.to_string());
        assert_eq!(try_parse_port(&out), Some(n));
    }
}

#[test]
fn to_chars_gives_the_characters_in_order() {
    assert_eq!(to_chars("a/ü"), vec!['a', '/', 'ü']);
    assert!(to_chars("").is_empty());
}

#[test]
fn find_char_finds_the_first_occurrence() {
    assert_eq!(find_char(&to_chars("80/tcp/x"), '/'), 2);
    assert_eq!(find_char(&to_chars("80"), '/'), 2);
    assert_eq!(find_char(&to_chars(""), '/'), 0);
    assert_eq!(find_char(&to_chars("/"), '/'), 0);
}

#[test]
fn parse_digits_reads_a_part_of_the_text() {
    let chars = to_chars("ab123cd");
    assert_eq!(parse_digits(&chars, 2, 5), Some(123));
    assert_eq!(parse_digits(&chars, 2, 6), None);
    assert_eq!(parse_digits(&chars, 2, 2), None);
    assert_eq!(parse_digits(&chars, 4, 5), Some(3));
}
