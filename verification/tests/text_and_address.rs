use georoute::address::{
    find_double_colon, parse_address_list, parse_group, parse_ipv4, parse_ipv6, parse_octet,
    parse_port, parse_scoped, parse_socket_address, IpAddress, SocketAddress,
};
use georoute::text::{chars_of, find_first, parse_decimal, same_text, split_fields};

fn address(text: &str) -> Option<SocketAddress> {
    parse_socket_address(&chars_of(text))
}

fn v4(a: u8, b: u8, c: u8, d: u8, port: u16) -> SocketAddress {
    SocketAddress { ip: IpAddress::V4(a, b, c, d), port, scope_id: 0 }
}

#[test]
fn chars_of_keeps_every_character() {
    assert_eq!(chars_of("a:é"), vec!['a', ':', 'é']);
    assert_eq!(chars_of(""), Vec::<char>::new());
}

#[test]
fn same_text_compares_all_characters() {
    assert!(same_text(&chars_of("Probe"), &chars_of("Probe")));
    assert!(!same_text(&chars_of("Probe"), &chars_of("Prob")));
    assert!(!same_text(&chars_of("Probe"), &chars_of("probe")));
    assert!(same_text(&[], &[]));
}

#[test]
fn decimal_numbers() {
    assert_eq!(parse_decimal(&chars_of("0"), 254), Some(0));
    assert_eq!(parse_decimal(&chars_of("254"), 254), Some(254));
    assert_eq!(parse_decimal(&chars_of("255"), 254), None);
    assert_eq!(parse_decimal(&chars_of("007"), 254), Some(7));
    assert_eq!(parse_decimal(&chars_of(""), 254), None);
    assert_eq!(parse_decimal(&chars_of("12a"), 254), None);
    assert_eq!(parse_decimal(&chars_of("-1"), 254), None);
    assert_eq!(parse_decimal(&chars_of(" 1"), 254), None);
    assert_eq!(parse_decimal(&chars_of("4294967295"), u32::MAX), Some(u32::MAX));
    assert_eq!(parse_decimal(&chars_of("4294967296"), u32::MAX), None);
    assert_eq!(parse_decimal(&chars_of("99999999999999999999999999"), u32::MAX), None);
}

#[test]
fn fields_between_separators() {
    let fields = split_fields(&chars_of("a,bc,,d"), ',');
    assert_eq!(fields, vec![chars_of("a"), chars_of("bc"), chars_of(""), chars_of("d")]);
    assert_eq!(split_fields(&chars_of(""), ','), vec![Vec::<char>::new()]);
    assert_eq!(split_fields(&chars_of(","), ','), vec![Vec::<char>::new(), Vec::<char>::new()]);
    assert_eq!(split_fields(&chars_of("abc"), ','), vec![chars_of("abc")]);
}

#[test]
fn octets() {
    assert_eq!(parse_octet(&chars_of("0")), Some(0));
    assert_eq!(parse_octet(&chars_of("255")), Some(255));
    assert_eq!(parse_octet(&chars_of("256")), None);
    assert_eq!(parse_octet(&chars_of("01")), None);
    assert_eq!(parse_octet(&chars_of("")), None);
    assert_eq!(parse_octet(&chars_of("1000")), None);
}

#[test]
fn ports() {
    assert_eq!(parse_port(&chars_of("0")), Some(0));
    assert_eq!(parse_port(&chars_of("65535")), Some(65535));
    assert_eq!(parse_port(&chars_of("65536")), None);
    assert_eq!(parse_port(&chars_of("0080")), Some(80));
    assert_eq!(parse_port(&chars_of("")), None);
}

#[test]
fn ipv4_addresses() {
    assert_eq!(parse_ipv4(&chars_of("10.0.0.1")), Some(IpAddress::V4(10, 0, 0, 1)));
    assert_eq!(parse_ipv4(&chars_of("255.255.255.255")), Some(IpAddress::V4(255, 255, 255, 255)));
    assert_eq!(parse_ipv4(&chars_of("10.0.0")), None);
    assert_eq!(parse_ipv4(&chars_of("10.0.0.1.2")), None);
    assert_eq!(parse_ipv4(&chars_of("10.0.0.256")), None);
    assert_eq!(parse_ipv4(&chars_of("10..0.1")), None);
    assert_eq!(parse_ipv4(&chars_of("10.0.0.01")), None);
}

#[test]
fn socket_addresses() {
    assert_eq!(address("10.0.0.1:1080"), Some(v4(10, 0, 0, 1, 1080)));
    assert_eq!(address("127.0.0.1:40002"), Some(v4(127, 0, 0, 1, 40002)));
    assert_eq!(address("10.0.0.1"), None);
    assert_eq!(address("10.0.0.1:"), None);
    assert_eq!(address(":1080"), None);
    assert_eq!(address("10.0.0.1:1080:1"), None);
    assert_eq!(address("10.0.0.1:65536"), None);
    assert_eq!(address(" 10.0.0.1:1080"), None);
    assert_eq!(address("example.com:1080"), None);
    assert_eq!(address(""), None);
}

#[test]
fn address_lists() {
    assert_eq!(
        parse_address_list(&chars_of("10.0.0.1:1,10.0.0.2:2")),
        Some(vec![v4(10, 0, 0, 1, 1), v4(10, 0, 0, 2, 2)])
    );
    assert_eq!(parse_address_list(&chars_of("10.0.0.1:1")), Some(vec![v4(10, 0, 0, 1, 1)]));
    assert_eq!(parse_address_list(&chars_of("")), None);
    assert_eq!(parse_address_list(&chars_of("10.0.0.1:1,")), None);
    assert_eq!(parse_address_list(&chars_of("10.0.0.1:1, 10.0.0.2:2")), None);
    assert_eq!(parse_address_list(&chars_of("10.0.0.1:1,bad")), None);
}

fn v6(text: &str) -> Option<IpAddress> {
    parse_ipv6(&chars_of(text))
}

#[test]
fn first_separator_is_found() {
    assert_eq!(find_first(&chars_of("ab%c%"), '%'), 2);
    assert_eq!(find_first(&chars_of("%"), '%'), 0);
    assert_eq!(find_first(&chars_of("abc"), '%'), 3);
    assert_eq!(find_first(&chars_of(""), '%'), 0);
}

#[test]
fn first_gap_is_found() {
    assert_eq!(find_double_colon(&chars_of("::")), Some(0));
    assert_eq!(find_double_colon(&chars_of("1::2::3")), Some(1));
    assert_eq!(find_double_colon(&chars_of("1:2:3::")), Some(5));
    assert_eq!(find_double_colon(&chars_of("1:2:3")), None);
    assert_eq!(find_double_colon(&chars_of(":")), None);
    assert_eq!(find_double_colon(&chars_of("")), None);
}

#[test]
fn groups() {
    assert_eq!(parse_group(&chars_of("0")), Some(0));
    assert_eq!(parse_group(&chars_of("ffff")), Some(0xffff));
    assert_eq!(parse_group(&chars_of("FFFF")), Some(0xffff));
    assert_eq!(parse_group(&chars_of("aB1c")), Some(0xab1c));
    assert_eq!(parse_group(&chars_of("0001")), Some(1));
    assert_eq!(parse_group(&chars_of("00001")), None);
    assert_eq!(parse_group(&chars_of("")), None);
    assert_eq!(parse_group(&chars_of("g")), None);
    assert_eq!(parse_group(&chars_of("1.2")), None);
}

#[test]
fn ipv6_addresses_in_full() {
    assert_eq!(v6("1:2:3:4:5:6:7:8"), Some(IpAddress::V6(1, 2, 3, 4, 5, 6, 7, 8)));
    assert_eq!(
        v6("2001:0db8:0000:0000:0000:ff00:0042:8329"),
        Some(IpAddress::V6(0x2001, 0xdb8, 0, 0, 0, 0xff00, 0x42, 0x8329))
    );
    assert_eq!(
        v6("1:2:3:4:5:6:10.1.2.255"),
        Some(IpAddress::V6(1, 2, 3, 4, 5, 6, 0x0a01, 0x02ff))
    );
    assert_eq!(v6("1:2:3:4:5:6:7"), None);
    assert_eq!(v6("1:2:3:4:5:6:7:8:9"), None);
    assert_eq!(v6("1:2:3:4:5:6:7:10.1.2.3"), None);
    assert_eq!(v6("1:2:3:4:5:10.1.2.3"), None);
    assert_eq!(v6("10.1.2.3"), None);
    assert_eq!(v6("1:2:3:4:5:6:7:"), None);
    assert_eq!(v6(":1:2:3:4:5:6:7"), None);
    assert_eq!(v6("1:2:3:4:5:6:7:g"), None);
    assert_eq!(v6("1:2:3:4:5:6:7:12345"), None);
    assert_eq!(v6(""), None);
    assert_eq!(v6(":"), None);
}

#[test]
fn ipv6_addresses_with_a_gap() {
    assert_eq!(v6("::"), Some(IpAddress::V6(0, 0, 0, 0, 0, 0, 0, 0)));
    assert_eq!(v6("::1"), Some(IpAddress::V6(0, 0, 0, 0, 0, 0, 0, 1)));
    assert_eq!(v6("1::"), Some(IpAddress::V6(1, 0, 0, 0, 0, 0, 0, 0)));
    assert_eq!(v6("fe80::1:2"), Some(IpAddress::V6(0xfe80, 0, 0, 0, 0, 0, 1, 2)));
    assert_eq!(v6("1:2:3:4:5:6:7::"), Some(IpAddress::V6(1, 2, 3, 4, 5, 6, 7, 0)));
    assert_eq!(v6("::2:3:4:5:6:7:8"), Some(IpAddress::V6(0, 2, 3, 4, 5, 6, 7, 8)));
    assert_eq!(v6("1:2:3::6:7:8"), Some(IpAddress::V6(1, 2, 3, 0, 0, 6, 7, 8)));
    assert_eq!(v6("::ffff:192.0.2.1"), Some(IpAddress::V6(0, 0, 0, 0, 0, 0xffff, 0xc000, 0x0201)));
    assert_eq!(v6("::192.0.2.1"), Some(IpAddress::V6(0, 0, 0, 0, 0, 0, 0xc000, 0x0201)));
    assert_eq!(v6("1:2:3:4:5::192.0.2.1"), Some(IpAddress::V6(1, 2, 3, 4, 5, 0, 0xc000, 0x0201)));
    assert_eq!(v6("1:2:3:4:5:6::192.0.2.1"), None);
    assert_eq!(v6("192.0.2.1::"), None);
    assert_eq!(v6("1:192.0.2.1::"), None);
    assert_eq!(v6("::192.0.2.1:1"), None);
    assert_eq!(v6("1:2:3:4:5:6:7:8::"), None);
    assert_eq!(v6("::1:2:3:4:5:6:7:8"), None);
    assert_eq!(v6("1:2:3:4::5:6:7:8"), None);
    assert_eq!(v6(":::"), None);
    assert_eq!(v6("1:::2"), None);
    assert_eq!(v6("1::2::3"), None);
    assert_eq!(v6("::1:"), None);
    assert_eq!(v6(":1::"), None);
    assert_eq!(v6("::g"), None);
}

#[test]
fn scopes() {
    assert_eq!(parse_scoped(&chars_of("fe80::1%3")), Some((IpAddress::V6(0xfe80, 0, 0, 0, 0, 0, 0, 1), 3)));
    assert_eq!(parse_scoped(&chars_of("::%4294967295")), Some((IpAddress::V6(0, 0, 0, 0, 0, 0, 0, 0), u32::MAX)));
    assert_eq!(parse_scoped(&chars_of("::1")), Some((IpAddress::V6(0, 0, 0, 0, 0, 0, 0, 1), 0)));
    assert_eq!(parse_scoped(&chars_of("::%4294967296")), None);
    assert_eq!(parse_scoped(&chars_of("::%")), None);
    assert_eq!(parse_scoped(&chars_of("::%eth0")), None);
    assert_eq!(parse_scoped(&chars_of("::%1%2")), None);
    assert_eq!(parse_scoped(&chars_of("%1")), None);
}

#[test]
fn socket_addresses_with_ipv6() {
    assert_eq!(
        address("[::1]:1080"),
        Some(SocketAddress { ip: IpAddress::V6(0, 0, 0, 0, 0, 0, 0, 1), port: 1080, scope_id: 0 })
    );
    assert_eq!(
        address("[fe80::1%7]:80"),
        Some(SocketAddress { ip: IpAddress::V6(0xfe80, 0, 0, 0, 0, 0, 0, 1), port: 80, scope_id: 7 })
    );
    assert_eq!(
        address("[1:2:3:4:5:6:7:8]:65535"),
        Some(SocketAddress { ip: IpAddress::V6(1, 2, 3, 4, 5, 6, 7, 8), port: 65535, scope_id: 0 })
    );
    assert_eq!(address("::1:1080"), None);
    assert_eq!(address("[::1]"), None);
    assert_eq!(address("[::1]:"), None);
    assert_eq!(address("[::1]1080"), None);
    assert_eq!(address("[::1:1080"), None);
    assert_eq!(address("[]:1080"), None);
    assert_eq!(address("[10.0.0.1]:1080"), None);
    assert_eq!(address("[::1]:1080 "), None);
    assert_eq!(address("[::1]]:1080"), None);
    assert_eq!(address("[[::1]:1080"), None);
    assert_eq!(address("[::1]:65536"), None);
}
