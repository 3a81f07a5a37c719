//! Network addresses and the text they are written in.
//!
//! A socket address is written `host:port`. The host is an IPv4 address in
//! dotted decimal notation, or an IPv6 address between square brackets, in
//! groups of hexadecimal digits of which one run of zero groups may be left
//! out (`::`) and the last two may be written as an IPv4 address; a scope may
//! follow the IPv6 address after a percent sign. The port is a decimal
//! number.
use vstd::prelude::*;
use crate::text::{
    find_first,
    first_index,
    is_digit,
    parse_decimal,
    spec_parse_decimal,
    split,
    split_fields,
    texts,
};
use vstd::slice::slice_subrange;

verus! {

/// An IP address, held as plain numbers.
#[derive(Clone, Copy, Debug, PartialEq, Eq, Structural)]
pub enum IpAddress {
    /// The four octets of an IPv4 address, first octet first.
    V4(u8, u8, u8, u8),
    /// The eight 16-bit groups of an IPv6 address, first group first.
    V6(u16, u16, u16, u16, u16, u16, u16, u16),
}

/// An IP address with a port.
#[derive(Clone, Copy, Debug, PartialEq, Eq, Structural)]
pub struct SocketAddress {
    pub ip: IpAddress,
    pub port: u16,
    /// The scope of an IPv6 address; 0 where none is given.
    pub scope_id: u32,
}

/// One octet of a dotted address: one to three digits, at most 255, without a
/// leading zero unless the octet is the single digit `0`.
pub open spec fn spec_parse_octet(s: Seq<char>) -> Option<u8> {
    if 1 <= s.len() <= 3 && (s.len() == 1 || s[0] != '0') {
        match spec_parse_decimal(s, 255) {
            Some(n) => Some(n as u8),
            None => None,
        }
    } else {
        None
    }
}

/// A port: digits with a value of at most 65535.
pub open spec fn spec_parse_port(s: Seq<char>) -> Option<u16> {
    match spec_parse_decimal(s, 65535) {
        Some(n) => Some(n as u16),
        None => None,
    }
}

/// An IPv4 address: exactly four octets between dots.
pub open spec fn spec_parse_ipv4(s: Seq<char>) -> Option<IpAddress> {
    let fields = split(s, '.');
    if fields.len() == 4 {
        match (
            spec_parse_octet(fields[0]),
            spec_parse_octet(fields[1]),
            spec_parse_octet(fields[2]),
            spec_parse_octet(fields[3]),
        ) {
            (Some(a), Some(b), Some(c), Some(d)) => Some(IpAddress::V4(a, b, c, d)),
            _ => None,
        }
    } else {
        None
    }
}

/// A hexadecimal digit, in either case.
pub open spec fn is_hex_digit(c: char) -> bool {
    is_digit(c) || ('a' <= c && c <= 'f') || ('A' <= c && c <= 'F')
}

/// The number that a hexadecimal digit stands for.
pub open spec fn hex_digit_value(c: char) -> nat {
    if is_digit(c) {
        (c as int - '0' as int) as nat
    } else if 'a' <= c && c <= 'f' {
        (c as int - 'a' as int + 10) as nat
    } else {
        (c as int - 'A' as int + 10) as nat
    }
}

/// Every character is a hexadecimal digit.
pub open spec fn all_hex(s: Seq<char>) -> bool {
    forall|i: int| 0 <= i < s.len() ==> is_hex_digit(#[trigger] s[i])
}

/// The number that a run of hexadecimal digits stands for.
pub open spec fn hex_value(s: Seq<char>) -> nat
    decreases s.len(),
{
    if s.len() == 0 {
        0
    } else {
        hex_value(s.drop_last()) * 16 + hex_digit_value(s.last())
    }
}

/// One group of an IPv6 address: one to four hexadecimal digits.
pub open spec fn spec_parse_group(s: Seq<char>) -> Option<u16> {
    if 1 <= s.len() <= 4 && all_hex(s) {
        Some(hex_value(s) as u16)
    } else {
        None
    }
}

/// The groups that the fields stand for, if every field is a group.
pub open spec fn spec_parse_groups(fields: Seq<Seq<char>>) -> Option<Seq<u16>> {
    if forall|i: int| 0 <= i < fields.len() ==> spec_parse_group(#[trigger] fields[i]) is Some {
        Some(fields.map_values(|field: Seq<char>| spec_parse_group(field).unwrap()))
    } else {
        None
    }
}

/// The two groups that an IPv4 address fills at the end of an IPv6 address.
pub open spec fn embedded_groups(ip: IpAddress) -> Seq<u16> {
    match ip {
        IpAddress::V4(a, b, c, d) => seq![(a * 256 + b) as u16, (c * 256 + d) as u16],
        _ => Seq::empty(),
    }
}

/// The groups that the fields stand for, where the last field may be an IPv4
/// address that stands for two groups.
pub open spec fn spec_parse_groups_with_ipv4(fields: Seq<Seq<char>>) -> Option<Seq<u16>> {
    if fields.len() > 0 && spec_parse_ipv4(fields.last()) is Some {
        match spec_parse_groups(fields.drop_last()) {
            Some(groups) => Some(groups + embedded_groups(spec_parse_ipv4(fields.last()).unwrap())),
            None => None,
        }
    } else {
        spec_parse_groups(fields)
    }
}

/// Position of the first `::` in a text.
pub open spec fn double_colon(s: Seq<char>) -> Option<int>
    decreases s.len(),
{
    if s.len() < 2 {
        None
    } else if s[0] == ':' && s[1] == ':' {
        Some(0)
    } else {
        match double_colon(s.drop_first()) {
            Some(p) => Some(p + 1),
            None => None,
        }
    }
}

/// Eight groups: those before the gap, zero groups for the gap, those after.
pub open spec fn with_gap(head: Seq<u16>, tail: Seq<u16>) -> Seq<u16> {
    head + Seq::new((8 - head.len() - tail.len()) as nat, |i: int| 0u16) + tail
}

/// The address that eight groups make.
pub open spec fn address_of_groups(g: Seq<u16>) -> IpAddress {
    IpAddress::V6(g[0], g[1], g[2], g[3], g[4], g[5], g[6], g[7])
}

/// An IPv6 address. Without `::` the text holds all eight groups. With `::`
/// it holds at most seven: the groups before the first `::`, none of them
/// written as an IPv4 address, and the groups after it; the gap stands for
/// the zero groups that are missing.
pub open spec fn spec_parse_ipv6(s: Seq<char>) -> Option<IpAddress> {
    match double_colon(s) {
        None => match spec_parse_groups_with_ipv4(split(s, ':')) {
            Some(groups) if groups.len() == 8 => Some(address_of_groups(groups)),
            _ => None,
        },
        Some(p) => {
            let head = if p == 0 {
                Some(Seq::empty())
            } else {
                spec_parse_groups(split(s.take(p), ':'))
            };
            let tail = if p + 2 == s.len() {
                Some(Seq::empty())
            } else {
                spec_parse_groups_with_ipv4(split(s.skip(p + 2), ':'))
            };
            match (head, tail) {
                (Some(h), Some(t)) if h.len() + t.len() <= 7 => Some(
                    address_of_groups(with_gap(h, t)),
                ),
                _ => None,
            }
        },
    }
}

/// An IPv6 address with its scope: the number behind the first percent sign,
/// 0 where there is none.
pub open spec fn spec_parse_scoped(s: Seq<char>) -> Option<(IpAddress, u32)> {
    let at = first_index(s, '%');
    if 0 <= at < s.len() {
        match (spec_parse_ipv6(s.take(at)), spec_parse_decimal(s.skip(at + 1), 0xffff_ffff)) {
            (Some(ip), Some(scope)) => Some((ip, scope as u32)),
            _ => None,
        }
    } else {
        match spec_parse_ipv6(s) {
            Some(ip) => Some((ip, 0)),
            None => None,
        }
    }
}

/// A socket address: an IPv4 address, a colon and a port; or an IPv6 address
/// between square brackets, a colon and a port; and nothing else.
pub open spec fn spec_parse_socket_address(s: Seq<char>) -> Option<SocketAddress> {
    if s.len() > 0 && s[0] == '[' {
        let close = first_index(s, ']');
        if 0 < close && close + 1 < s.len() && s[close + 1] == ':' {
            match (spec_parse_scoped(s.subrange(1, close)), spec_parse_port(s.skip(close + 2))) {
                (Some((ip, scope_id)), Some(port)) => Some(SocketAddress { ip, port, scope_id }),
                _ => None,
            }
        } else {
            None
        }
    } else {
        let fields = split(s, ':');
        if fields.len() == 2 {
            match (spec_parse_ipv4(fields[0]), spec_parse_port(fields[1])) {
                (Some(ip), Some(port)) => Some(SocketAddress { ip, port, scope_id: 0 }),
                _ => None,
            }
        } else {
            None
        }
    }
}

/// A list of socket addresses between commas, each written in full. The list
/// has at least one address: an empty text is no address.
pub open spec fn spec_parse_address_list(s: Seq<char>) -> Option<Seq<SocketAddress>> {
    let fields = split(s, ',');
    if forall|i: int| 0 <= i < fields.len() ==> spec_parse_socket_address(#[trigger] fields[i]) is Some {
        Some(fields.map_values(|field: Seq<char>| spec_parse_socket_address(field).unwrap()))
    } else {
        None
    }
}

/// Reads one octet of a dotted address.
pub fn parse_octet(s: &[char]) -> (octet: Option<u8>)
    ensures
        octet == spec_parse_octet(s@),
{
    if s.len() < 1 || s.len() > 3 || (s.len() > 1 && s[0] == '0') {
        return None;
    }
    match parse_decimal(s, 255) {
        Some(n) => Some(n as u8),
        None => None,
    }
}

/// Reads a port.
pub fn parse_port(s: &[char]) -> (port: Option<u16>)
    ensures
        port == spec_parse_port(s@),
{
    match parse_decimal(s, 65535) {
        Some(n) => Some(n as u16),
        None => None,
    }
}

/// Reads an IPv4 address in dotted decimal notation.
pub fn parse_ipv4(s: &[char]) -> (ip: Option<IpAddress>)
    ensures
        ip == spec_parse_ipv4(s@),
{
    let fields = split_fields(s, '.');
    if fields.len() != 4 {
        return None;
    }
    assert(texts(fields@)[0] == fields[0]@);
    assert(texts(fields@)[1] == fields[1]@);
    assert(texts(fields@)[2] == fields[2]@);
    assert(texts(fields@)[3] == fields[3]@);
    let a = parse_octet(fields[0].as_slice());
    let b = parse_octet(fields[1].as_slice());
    let c = parse_octet(fields[2].as_slice());
    let d = parse_octet(fields[3].as_slice());
    match (a, b, c, d) {
        (Some(a), Some(b), Some(c), Some(d)) => Some(IpAddress::V4(a, b, c, d)),
        _ => None,
    }
}

/// A run of at most four hexadecimal digits stays below 65536.
proof fn lemma_hex_value_bound(s: Seq<char>)
    requires
        all_hex(s),
    ensures
        s.len() == 0 ==> hex_value(s) == 0,
        s.len() == 1 ==> hex_value(s) < 16,
        s.len() == 2 ==> hex_value(s) < 256,
        s.len() == 3 ==> hex_value(s) < 4096,
        s.len() == 4 ==> hex_value(s) < 65536,
    decreases s.len(),
{
    if 0 < s.len() <= 4 {
        assert(is_hex_digit(s.last()));
        assert forall|i: int| 0 <= i < s.drop_last().len() implies is_hex_digit(
            #[trigger] s.drop_last()[i],
        ) by {
            assert(s.drop_last()[i] == s[i]);
        }
        lemma_hex_value_bound(s.drop_last());
    }
}

/// Reads one group of an IPv6 address.
pub fn parse_group(s: &[char]) -> (group: Option<u16>)
    ensures
        group == spec_parse_group(s@),
{
    if s.len() < 1 || s.len() > 4 {
        return None;
    }
    let mut value: u32 = 0;
    let mut i: usize = 0;
    while i < s.len()
        invariant
            0 <= i <= s.len() <= 4,
            all_hex(s@.take(i as int)),
            value == hex_value(s@.take(i as int)),
            value < 65536,
        decreases s.len() - i,
    {
        let c = s[i];
        let digit: u32 = if '0' <= c && c <= '9' {
            c as u32 - '0' as u32
        } else if 'a' <= c && c <= 'f' {
            c as u32 - 'a' as u32 + 10
        } else if 'A' <= c && c <= 'F' {
            c as u32 - 'A' as u32 + 10
        } else {
            return None;
        };
        proof {
            let next = s@.take(i + 1);
            assert(next.drop_last() == s@.take(i as int));
            assert(next.last() == c);
            assert(all_hex(next)) by {
                assert forall|j: int| 0 <= j < next.len() implies is_hex_digit(#[trigger] next[j]) by {
                    if j < i {
                        assert(next[j] == s@.take(i as int)[j]);
                    }
                }
            }
            lemma_hex_value_bound(next);
        }
        value = value * 16 + digit;
        i += 1;
    }
    assert(s@.take(i as int) == s@);
    Some(value as u16)
}

/// Reads the groups that the fields stand for.
pub fn parse_groups(fields: &[Vec<char>]) -> (groups: Option<Vec<u16>>)
    ensures
        match spec_parse_groups(texts(fields@)) {
            Some(values) => groups is Some && groups.unwrap()@ == values,
            None => groups is None,
        },
{
    let mut groups: Vec<u16> = Vec::new();
    let mut i: usize = 0;
    while i < fields.len()
        invariant
            0 <= i <= fields.len(),
            groups@.len() == i,
            forall|j: int|
                0 <= j < i ==> spec_parse_group(#[trigger] texts(fields@)[j]) == Some(groups@[j]),
        decreases fields.len() - i,
    {
        assert(texts(fields@)[i as int] == fields[i as int]@);
        match parse_group(fields[i].as_slice()) {
            Some(group) => {
                groups.push(group);
            },
            None => {
                return None;
            },
        }
        i += 1;
    }
    proof {
        let wanted = texts(fields@).map_values(|field: Seq<char>| spec_parse_group(field).unwrap());
        assert(groups@ =~= wanted);
    }
    Some(groups)
}

/// Reads the groups that the fields stand for, the last of which may be an
/// IPv4 address.
pub fn parse_groups_with_ipv4(fields: &[Vec<char>]) -> (groups: Option<Vec<u16>>)
    ensures
        match spec_parse_groups_with_ipv4(texts(fields@)) {
            Some(values) => groups is Some && groups.unwrap()@ == values,
            None => groups is None,
        },
{
    let n = fields.len();
    if n > 0 {
        assert(texts(fields@).last() == fields[n - 1]@);
        match parse_ipv4(fields[n - 1].as_slice()) {
            Some(IpAddress::V4(a, b, c, d)) => {
                let front = slice_subrange(fields, 0, n - 1);
                assert(texts(front@) =~= texts(fields@).drop_last());
                return match parse_groups(front) {
                    Some(groups) => {
                        let mut groups = groups;
                        let ghost before = groups@;
                        groups.push((a as u16) * 256 + (b as u16));
                        groups.push((c as u16) * 256 + (d as u16));
                        assert(groups@ =~= before + embedded_groups(IpAddress::V4(a, b, c, d)));
                        Some(groups)
                    },
                    None => None,
                };
            },
            _ => {},
        }
    }
    parse_groups(fields)
}

/// A `::` stands at position `j`.
pub open spec fn gap_at(s: Seq<char>, j: int) -> bool {
    0 <= j && j + 1 < s.len() && s[j] == ':' && s[j + 1] == ':'
}

/// No `::` starts before `p`, and one starts at `p` unless the text ends
/// there.
proof fn lemma_double_colon(s: Seq<char>, p: int)
    requires
        0 <= p,
        forall|j: int| 0 <= j < p ==> !gap_at(s, j),
        p + 1 >= s.len() || gap_at(s, p),
    ensures
        double_colon(s) == if p + 1 < s.len() {
            Some(p)
        } else {
            None
        },
    decreases s.len(),
{
    if s.len() >= 2 && p > 0 {
        let rest = s.drop_first();
        assert forall|j: int| 0 <= j < p - 1 implies !gap_at(rest, j) by {
            assert(!gap_at(s, j + 1));
            if j + 1 < rest.len() {
                assert(rest[j] == s[j + 1]);
                assert(rest[j + 1] == s[j + 2]);
            }
        }
        if p < s.len() - 1 {
            assert(rest[p - 1] == s[p]);
            assert(rest[p] == s[p + 1]);
        }
        assert(!gap_at(s, 0));
        lemma_double_colon(rest, p - 1);
    }
}

/// Finds the first `::` in a text.
pub fn find_double_colon(s: &[char]) -> (at: Option<usize>)
    ensures
        at matches Some(p) ==> double_colon(s@) == Some(p as int) && p + 2 <= s.len(),
        at is None ==> double_colon(s@) is None,
{
    if s.len() < 2 {
        return None;
    }
    let mut p: usize = 0;
    while p < s.len() - 1
        invariant
            s.len() >= 2,
            0 <= p <= s.len() - 1,
            forall|j: int| 0 <= j < p ==> !gap_at(s@, j),
        decreases s.len() - p,
    {
        if s[p] == ':' && s[p + 1] == ':' {
            proof {
                lemma_double_colon(s@, p as int);
            }
            return Some(p);
        }
        p += 1;
    }
    proof {
        lemma_double_colon(s@, p as int);
    }
    None
}

/// Reads an IPv6 address.
pub fn parse_ipv6(s: &[char]) -> (ip: Option<IpAddress>)
    ensures
        ip == spec_parse_ipv6(s@),
{
    let groups = match find_double_colon(s) {
        None => {
            let fields = split_fields(s, ':');
            match parse_groups_with_ipv4(fields.as_slice()) {
                Some(groups) => {
                    if groups.len() != 8 {
                        return None;
                    }
                    groups
                },
                None => {
                    return None;
                },
            }
        },
        Some(p) => {
            let head = if p == 0 {
                Vec::new()
            } else {
                let front = slice_subrange(s, 0, p);
                assert(front@ == s@.take(p as int));
                let fields = split_fields(front, ':');
                match parse_groups(fields.as_slice()) {
                    Some(groups) => groups,
                    None => {
                        return None;
                    },
                }
            };
            let tail = if p + 2 == s.len() {
                Vec::new()
            } else {
                let back = slice_subrange(s, p + 2, s.len());
                assert(back@ == s@.skip(p + 2));
                let fields = split_fields(back, ':');
                match parse_groups_with_ipv4(fields.as_slice()) {
                    Some(groups) => groups,
                    None => {
                        return None;
                    },
                }
            };
            if head.len() > 7 || tail.len() > 7 - head.len() {
                return None;
            }
            let mut groups = head;
            let ghost h = groups@;
            let gap = 8 - groups.len() - tail.len();
            let mut i: usize = 0;
            while i < gap
                invariant
                    0 <= i <= gap,
                    groups@ == h + Seq::new(i as nat, |k: int| 0u16),
                decreases gap - i,
            {
                groups.push(0);
                assert(Seq::new(i as nat, |k: int| 0u16).push(0u16) =~= Seq::new(
                    (i + 1) as nat,
                    |k: int| 0u16,
                ));
                i += 1;
            }
            let mut j: usize = 0;
            while j < tail.len()
                invariant
                    0 <= j <= tail.len(),
                    groups@ == h + Seq::new(gap as nat, |k: int| 0u16) + tail@.take(j as int),
                decreases tail.len() - j,
            {
                groups.push(tail[j]);
                assert(tail@.take(j + 1) == tail@.take(j as int).push(tail@[j as int]));
                j += 1;
            }
            assert(tail@.take(tail.len() as int) == tail@);
            assert(groups@ == with_gap(h, tail@));
            groups
        },
    };
    Some(
        IpAddress::V6(
            groups[0],
            groups[1],
            groups[2],
            groups[3],
            groups[4],
            groups[5],
            groups[6],
            groups[7],
        ),
    )
}

/// Reads an IPv6 address with its scope.
pub fn parse_scoped(s: &[char]) -> (scoped: Option<(IpAddress, u32)>)
    ensures
        scoped == spec_parse_scoped(s@),
{
    let at = find_first(s, '%');
    if at < s.len() {
        let front = slice_subrange(s, 0, at);
        let back = slice_subrange(s, at + 1, s.len());
        assert(front@ == s@.take(at as int));
        assert(back@ == s@.skip(at + 1));
        match (parse_ipv6(front), parse_decimal(back, 0xffff_ffff)) {
            (Some(ip), Some(scope)) => Some((ip, scope)),
            _ => None,
        }
    } else {
        match parse_ipv6(s) {
            Some(ip) => Some((ip, 0)),
            None => None,
        }
    }
}

/// Reads a socket address written as `host:port`.
pub fn parse_socket_address(s: &[char]) -> (address: Option<SocketAddress>)
    ensures
        address == spec_parse_socket_address(s@),
{
    if s.len() > 0 && s[0] == '[' {
        let close = find_first(s, ']');
        if close == 0 || close >= s.len() - 1 || s[close + 1] != ':' {
            return None;
        }
        let inner = slice_subrange(s, 1, close);
        let rest = slice_subrange(s, close + 2, s.len());
        assert(rest@ == s@.skip(close + 2));
        match (parse_scoped(inner), parse_port(rest)) {
            (Some((ip, scope_id)), Some(port)) => Some(SocketAddress { ip, port, scope_id }),
            _ => None,
        }
    } else {
        let fields = split_fields(s, ':');
        if fields.len() != 2 {
            return None;
        }
        assert(texts(fields@)[0] == fields[0]@);
        assert(texts(fields@)[1] == fields[1]@);
        let ip = parse_ipv4(fields[0].as_slice());
        let port = parse_port(fields[1].as_slice());
        match (ip, port) {
            (Some(ip), Some(port)) => Some(SocketAddress { ip, port, scope_id: 0 }),
            _ => None,
        }
    }
}

/// Reads a list of socket addresses separated by commas.
pub fn parse_address_list(s: &[char]) -> (list: Option<Vec<SocketAddress>>)
    ensures
        match spec_parse_address_list(s@) {
            Some(addresses) => list is Some && list.unwrap()@ == addresses,
            None => list is None,
        },
        list matches Some(addresses) ==> addresses@.len() > 0,
{
    let fields = split_fields(s, ',');
    let mut list: Vec<SocketAddress> = Vec::new();
    let mut i: usize = 0;
    while i < fields.len()
        invariant
            0 <= i <= fields.len(),
            texts(fields@) == split(s@, ','),
            list@.len() == i,
            forall|j: int|
                0 <= j < i ==> spec_parse_socket_address(#[trigger] texts(fields@)[j]) == Some(
                    list@[j],
                ),
        decreases fields.len() - i,
    {
        assert(texts(fields@)[i as int] == fields[i as int]@);
        match parse_socket_address(fields[i].as_slice()) {
            Some(address) => {
                list.push(address);
            },
            None => {
                return None;
            },
        }
        i += 1;
    }
    proof {
        let wanted = split(s@, ',').map_values(
            |field: Seq<char>| spec_parse_socket_address(field).unwrap(),
        );
        assert(list@ =~= wanted);
        crate::text::lemma_split_not_empty(s@, ',');
    }
    Some(list)
}

} // verus!
