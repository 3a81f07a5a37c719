//! The datagrams exchanged between peers.
//!
//! The layouts of the watermarked tail and header are laid down here; the
//! codec itself hands every datagram through unchanged.
use vstd::prelude::*;
use crate::address::SocketAddress;
use vstd::slice::slice_to_vec;

verus! {

/// The watermark that follows the payload: three blocks of 64 bits.
#[derive(Clone, Copy, Debug)]
pub struct MessageTail {
    // first block
    pub magic: [u8; 4],
    pub time_s: u32,
    // second block
    pub network_info: u32,
    pub origin_id: u8,
    pub origin_4ms: u8,
    pub crc_payload: u16,
    // third block: the random part
    pub rand: u64,
}

/// The watermarked header: three blocks of 128 bits.
#[derive(Clone, Copy, Debug)]
pub struct MessageInfo {
    // first block
    pub magic: [u8; 8],
    pub index: u32,
    pub time_s: u32,
    // second block: the keys that the payload is encrypted with
    pub key1: u64,
    pub key2: u64,
    // third block
    pub network_info: u32,
    /// Three bits for the number of waste bytes, five for the type.
    pub payload_info: u8,
    pub origin_4ms: u8,
    pub hop1_4ms: u8,
    pub hop2_4ms: u8,
    pub origin_id: u8,
    pub hop1_id: u8,
    pub hop2_id: u8,
    pub destination_id: u8,
    pub crc_payload: u16,
    pub pad1: u16,
}

/// The codec of one peer.
#[derive(Clone, Copy, Debug)]
pub struct MessageCodec {
    /// The id of this peer.
    pub my_id: u8,
    /// The secret shared with the other peers.
    pub secret: u8,
}

impl MessageCodec {
    /// Takes a datagram in: the sender and the bytes, as they came.
    pub fn decode(&mut self, addr: &SocketAddress, buf: &[u8]) -> (message: (SocketAddress, Vec<u8>))
        ensures
            message.0 == *addr,
            message.1@ == buf@,
            *final(self) == *old(self),
    {
        (*addr, slice_to_vec(buf))
    }

    /// Puts a datagram out: its bytes go to the end of `into` as they are,
    /// and the receiver is handed back.
    pub fn encode(&mut self, message: (SocketAddress, Vec<u8>), into: &mut Vec<u8>) -> (receiver:
        SocketAddress)
        ensures
            receiver == message.0,
            final(into)@ == old(into)@ + message.1@,
            *final(self) == *old(self),
    {
        let (addr, buf) = message;
        let mut buf = buf;
        into.append(&mut buf);
        addr
    }
}

} // verus!
