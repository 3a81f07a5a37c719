use georoute::address::{IpAddress, SocketAddress};
use georoute::message::MessageCodec;

#[test]
fn decode_hands_the_datagram_through() {
    let mut codec = MessageCodec { my_id: 1, secret: 2 };
    let from = SocketAddress { ip: IpAddress::V4(10, 0, 0, 1), port: 53, scope_id: 0 };
    let (addr, bytes) = codec.decode(&from, &[1, 2, 3]);
    assert_eq!(addr, from);
    assert_eq!(bytes, vec![1, 2, 3]);
    assert_eq!((codec.my_id, codec.secret), (1, 2));
}

#[test]
fn encode_appends_the_bytes() {
    let mut codec = MessageCodec { my_id: 1, secret: 2 };
    let to = SocketAddress { ip: IpAddress::V4(10, 0, 0, 2), port: 54, scope_id: 0 };
    let mut into = vec![9];
    let addr = codec.encode((to, vec![1, 2, 3]), &mut into);
    assert_eq!(addr, to);
    assert_eq!(into, vec![9, 1, 2, 3]);
    let addr = codec.encode((to, vec![]), &mut into);
    assert_eq!(addr, to);
    assert_eq!(into, vec![9, 1, 2, 3]);
}
