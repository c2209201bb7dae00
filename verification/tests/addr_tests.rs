use chord::addr::{ip_to_string, parse_ip, IpAddress};
use chord::node_info::NodeInfo;

#[test]
fn four_octet_text_parses() {
    assert_eq!(parse_ip("1.2.3.4"), Some(IpAddress::V4(1, 2, 3, 4)));
    assert_eq!(parse_ip("0.0.0.0"), Some(IpAddress::V4(0, 0, 0, 0)));
    assert_eq!(parse_ip("255.255.255.255"), Some(IpAddress::V4(255, 255, 255, 255)));
    assert_eq!(parse_ip("127.0.0.1"), Some(IpAddress::V4(127, 0, 0, 1)));
}

#[test]
fn four_octet_text_refusals() {
    assert_eq!(parse_ip(""), None);
    assert_eq!(parse_ip("1.2.3"), None);
    assert_eq!(parse_ip("1.2.3.4.5"), None);
    assert_eq!(parse_ip("1.2.3.256"), None);
    assert_eq!(parse_ip("1.2.3.1000"), None);
    assert_eq!(parse_ip("1.2.3."), None);
    assert_eq!(parse_ip(".1.2.3"), None);
    assert_eq!(parse_ip("1.2.3.x"), None);
    // Leading zeros are refused: only the plain numeral of each octet.
    assert_eq!(parse_ip("01.2.3.4"), None);
    assert_eq!(parse_ip("1.2.3.004"), None);
}

#[test]
fn sixteen_octet_text_parses() {
    assert_eq!(
        parse_ip("1:2:3:4:5:6:7:8"),
        Some(IpAddress::V6(1, 2, 3, 4, 5, 6, 7, 8))
    );
    assert_eq!(
        parse_ip("0:0:0:0:0:0:0:1"),
        Some(IpAddress::V6(0, 0, 0, 0, 0, 0, 0, 1))
    );
    assert_eq!(
        parse_ip("fe80:0:0:0:abcd:ABCD:1234:ffff"),
        Some(IpAddress::V6(0xfe80, 0, 0, 0, 0xabcd, 0xabcd, 0x1234, 0xffff))
    );
}

#[test]
fn sixteen_octet_compressed_text_parses() {
    assert_eq!(parse_ip("::"), Some(IpAddress::V6(0, 0, 0, 0, 0, 0, 0, 0)));
    assert_eq!(parse_ip("::1"), Some(IpAddress::V6(0, 0, 0, 0, 0, 0, 0, 1)));
    assert_eq!(parse_ip("1::"), Some(IpAddress::V6(1, 0, 0, 0, 0, 0, 0, 0)));
    assert_eq!(
        parse_ip("fe80::abcd:1"),
        Some(IpAddress::V6(0xfe80, 0, 0, 0, 0, 0, 0xabcd, 1))
    );
    assert_eq!(
        parse_ip("1:2:3:4:5:6:7::"),
        Some(IpAddress::V6(1, 2, 3, 4, 5, 6, 7, 0))
    );
    assert_eq!(
        parse_ip("::1:2:3:4:5:6:7"),
        Some(IpAddress::V6(0, 1, 2, 3, 4, 5, 6, 7))
    );
}

#[test]
fn dotted_tail_stands_for_the_last_two_groups() {
    assert_eq!(
        parse_ip("::ffff:1.2.3.4"),
        Some(IpAddress::V6(0, 0, 0, 0, 0, 0xffff, 0x0102, 0x0304))
    );
    assert_eq!(
        parse_ip("::255.255.255.255"),
        Some(IpAddress::V6(0, 0, 0, 0, 0, 0, 0xffff, 0xffff))
    );
    assert_eq!(
        parse_ip("1:2:3:4:5:6:7.8.9.10"),
        Some(IpAddress::V6(1, 2, 3, 4, 5, 6, 0x0708, 0x090a))
    );
    // The tail is only ever the final field, worth exactly two groups.
    assert_eq!(parse_ip("1:2:3:4:5:6:7:1.2.3.4"), None);
    assert_eq!(parse_ip("1.2.3.4::"), None);
    assert_eq!(parse_ip("::1.2.3.400"), None);
    assert_eq!(parse_ip("::1.2.3"), None);
}

#[test]
fn sixteen_octet_text_refusals() {
    assert_eq!(parse_ip("a:b:c"), None);
    assert_eq!(parse_ip("1:2:3:4:5:6:7"), None);
    assert_eq!(parse_ip("1:2:3:4:5:6:7:8:9"), None);
    assert_eq!(parse_ip("1:2:3:4:5:6:7:12345"), None);
    assert_eq!(parse_ip("1:2:3:4:5:6:7:g"), None);
    assert_eq!(parse_ip("1:2:3:4:5:6:7:"), None);
    assert_eq!(parse_ip(":1:2:3:4:5:6:7"), None);
    // At most one double colon, and it must replace at least one group.
    assert_eq!(parse_ip("1::2::3"), None);
    assert_eq!(parse_ip("1:2:3:4:5:6:7:8::"), None);
    assert_eq!(parse_ip("1:::2"), None);
}

#[test]
fn address_text_round_trips() {
    let samples = [
        IpAddress::V4(1, 2, 3, 4),
        IpAddress::V4(0, 0, 0, 0),
        IpAddress::V4(255, 0, 255, 9),
        IpAddress::V6(0, 0, 0, 0, 0, 0, 0, 1),
        IpAddress::V6(0xfe80, 0, 0, 0, 0x1234, 0xabcd, 0xffff, 0x1),
    ];
    for ip in samples {
        assert_eq!(parse_ip(&ip_to_string(&ip)), Some(ip));
    }
}

#[test]
fn compressed_text_reprints_in_full() {
    let parsed = parse_ip("fe80::1").expect("compressed text parses");
    assert_eq!(ip_to_string(&parsed), "fe80:0:0:0:0:0:0:1");
    assert_eq!(parse_ip(&ip_to_string(&parsed)), Some(parsed));
}

#[test]
fn address_text_exact_forms() {
    assert_eq!(ip_to_string(&IpAddress::V4(10, 0, 200, 1)), "10.0.200.1");
    assert_eq!(
        ip_to_string(&IpAddress::V6(0xfe80, 0, 0, 0, 0, 0, 0, 1)),
        "fe80:0:0:0:0:0:0:1"
    );
}

#[test]
fn authority_text_brackets_sixteen_octet_hosts() {
    let four = NodeInfo { id: 1, address: IpAddress::V4(127, 0, 0, 1), port: 8080 };
    assert_eq!(four.authority_string(), "127.0.0.1:8080");
    let sixteen = NodeInfo {
        id: 2,
        address: IpAddress::V6(0, 0, 0, 0, 0, 0, 0, 1),
        port: 443,
    };
    assert_eq!(sixteen.authority_string(), "[0:0:0:0:0:0:0:1]:443");
}

#[test]
fn uri_holds_scheme_and_authority() {
    let info = NodeInfo { id: 1, address: IpAddress::V4(10, 1, 2, 3), port: 9000 };
    let uri = info.uri();
    assert_eq!(uri.scheme_str(), Some("http"));
    assert_eq!(uri.authority().map(|a| a.as_str()), Some("10.1.2.3:9000"));
}
