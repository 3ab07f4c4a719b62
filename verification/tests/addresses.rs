use proxycheck::addr::IpAddress;
use proxycheck::text::split_ranges;

fn v4(a: u8, b: u8, c: u8, d: u8) -> Option<IpAddress> {
    Some(IpAddress::V4(u32::from_be_bytes([a, b, c, d])))
}

fn v6(groups: [u16; 8]) -> Option<IpAddress> {
    let mut bits: u128 = 0;
    for g in groups {
        bits = (bits << 16) | u128::from(g);
    }
    Some(IpAddress::V6(bits))
}

fn parse(text: &str) -> Option<IpAddress> {
    IpAddress::parse(text.as_bytes())
}

#[test]
fn fields_between_separators() {
    assert_eq!(split_ranges(b"a,bc,,d", 0, 7, b','), vec![(0, 1), (2, 4), (5, 5), (6, 7)]);
    assert_eq!(split_ranges(b"abc", 0, 3, b','), vec![(0, 3)]);
    assert_eq!(split_ranges(b"", 0, 0, b','), vec![(0, 0)]);
    assert_eq!(split_ranges(b",", 0, 1, b','), vec![(0, 0), (1, 1)]);
    assert_eq!(split_ranges(b"x.y.z", 2, 5, b'.'), vec![(2, 3), (4, 5)]);
}

#[test]
fn ipv4_dotted_decimal() {
    assert_eq!(parse("1.2.3.4"), v4(1, 2, 3, 4));
    assert_eq!(parse("1.2.3.4"), Some(IpAddress::V4(0x0102_0304)));
    assert_eq!(parse("0.0.0.0"), v4(0, 0, 0, 0));
    assert_eq!(parse("255.255.255.255"), Some(IpAddress::V4(u32::MAX)));
    assert_eq!(parse("203.0.113.9"), v4(203, 0, 113, 9));
    assert_eq!(parse("127.0.0.1"), v4(127, 0, 0, 1));
}

#[test]
fn ipv4_refused() {
    assert_eq!(parse(""), None);
    assert_eq!(parse("1.2.3"), None);
    assert_eq!(parse("1.2.3.4.5"), None);
    assert_eq!(parse("1.2.3."), None);
    assert_eq!(parse(".1.2.3"), None);
    assert_eq!(parse("1..2.3"), None);
    assert_eq!(parse("256.0.0.1"), None);
    assert_eq!(parse("1.2.3.1000"), None);
    assert_eq!(parse("01.2.3.4"), None);
    assert_eq!(parse("1.2.3.04"), None);
    assert_eq!(parse("1.2.3.00"), None);
    assert_eq!(parse("1.2.3.a"), None);
    assert_eq!(parse("1.2.3.4 "), None);
    assert_eq!(parse(" 1.2.3.4"), None);
    assert_eq!(parse("1.2.3.-4"), None);
    assert_eq!(parse("1.2.3.+4"), None);
    assert_eq!(parse("localhost"), None);
    assert_eq!(parse("1.2.3.4:80"), None);
    assert_eq!(parse("1.2.3.4,"), None);
    assert_eq!(IpAddress::parse(&[0x31, 0x2e, 0x32, 0x2e, 0x33, 0x2e, 0xff]), None);
}

#[test]
fn ipv6_full_form() {
    assert_eq!(parse("1:2:3:4:5:6:7:8"), v6([1, 2, 3, 4, 5, 6, 7, 8]));
    assert_eq!(
        parse("2001:0db8:85a3:0000:0000:8a2e:0370:7334"),
        v6([0x2001, 0x0db8, 0x85a3, 0, 0, 0x8a2e, 0x0370, 0x7334])
    );
    assert_eq!(
        parse("FFFF:ffff:FfFf:ffff:ffff:ffff:ffff:ffff"),
        Some(IpAddress::V6(u128::MAX))
    );
    assert_eq!(parse("0:0:0:0:0:0:0:0"), Some(IpAddress::V6(0)));
    assert_eq!(parse("0:0:0:0:0:0:0:1"), Some(IpAddress::V6(1)));
    assert_eq!(
        parse("2001:db8:0:0:0:0:0:1"),
        Some(IpAddress::V6(0x2001_0db8_0000_0000_0000_0000_0000_0001))
    );
}

#[test]
fn ipv6_with_a_gap() {
    assert_eq!(parse("::"), Some(IpAddress::V6(0)));
    assert_eq!(parse("::1"), Some(IpAddress::V6(1)));
    assert_eq!(parse("1::"), v6([1, 0, 0, 0, 0, 0, 0, 0]));
    assert_eq!(parse("2001:db8::1"), v6([0x2001, 0x0db8, 0, 0, 0, 0, 0, 1]));
    assert_eq!(parse("1:2:3:4:5:6:7::"), v6([1, 2, 3, 4, 5, 6, 7, 0]));
    assert_eq!(parse("::2:3:4:5:6:7:8"), v6([0, 2, 3, 4, 5, 6, 7, 8]));
    assert_eq!(parse("1:2:3::6:7:8"), v6([1, 2, 3, 0, 0, 6, 7, 8]));
    assert_eq!(parse("1:2:3:4::6:7:8"), v6([1, 2, 3, 4, 0, 6, 7, 8]));
    assert_eq!(parse("2002:A0B:1621::"), v6([0x2002, 0x0a0b, 0x1621, 0, 0, 0, 0, 0]));
}

#[test]
fn ipv6_ending_in_ipv4() {
    assert_eq!(parse("::ffff:1.2.3.4"), v6([0, 0, 0, 0, 0, 0xffff, 0x0102, 0x0304]));
    assert_eq!(parse("::1.2.3.4"), v6([0, 0, 0, 0, 0, 0, 0x0102, 0x0304]));
    assert_eq!(parse("1:2:3:4:5:6:7.8.9.10"), v6([1, 2, 3, 4, 5, 6, 0x0708, 0x090a]));
    assert_eq!(parse("64:ff9b::192.0.2.33"), v6([0x64, 0xff9b, 0, 0, 0, 0, 0xc000, 0x0221]));
    assert_eq!(parse("1:2:3:4:5::1.2.3.4"), v6([1, 2, 3, 4, 5, 0, 0x0102, 0x0304]));
}

#[test]
fn ipv6_refused() {
    assert_eq!(parse(":"), None);
    assert_eq!(parse(":::"), None);
    assert_eq!(parse("1:2:3:4:5:6:7"), None);
    assert_eq!(parse("1:2:3:4:5:6:7:8:9"), None);
    assert_eq!(parse("1:2:3:4:5:6:7:8::"), None);
    assert_eq!(parse("::1:2:3:4:5:6:7:8"), None);
    assert_eq!(parse("1::2::3"), None);
    assert_eq!(parse("1:::2"), None);
    assert_eq!(parse(":1:2:3:4:5:6:7"), None);
    assert_eq!(parse("1:2:3:4:5:6:7:"), None);
    assert_eq!(parse("12345::"), None);
    assert_eq!(parse("g::"), None);
    assert_eq!(parse("1:2:3:4:5:6:7:1.2.3.4"), None);
    assert_eq!(parse("1:2:3:4:5:6::1.2.3.4"), None);
    assert_eq!(parse("1.2.3.4::"), None);
    assert_eq!(parse("1.2.3.4::1"), None);
    assert_eq!(parse("::1.2.3.4:5"), None);
    assert_eq!(parse("::1.2.3"), None);
    assert_eq!(parse("::1.2.3.256"), None);
    assert_eq!(parse("::01.2.3.4"), None);
    assert_eq!(parse("fe80::1%eth0"), None);
    assert_eq!(parse("[::1]"), None);
    assert_eq!(parse("::1 "), None);
}
