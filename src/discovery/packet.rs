//! The discovery packet: a magic prefix, a port and a checksum.
use vstd::prelude::*;

use crate::endian::{be16, be16_value, lemma_be16, lemma_be16_value};

use super::crc::{crc8, crc_table_entry, lemma_crc8_push, lemma_table_entry_injective, Crc8};

verus! {

/// The checksum polynomial of discovery packets.
pub const CRC8_POLYNOMIAL: u8 = 0x9b;

/// Length of a discovery packet on the wire.
pub const PACKET_LEN: usize = 7;

/// The ASCII bytes `HOIP` that start every packet.
pub open spec fn magic_prefix() -> Seq<u8> {
    seq![0x48u8, 0x4fu8, 0x49u8, 0x50u8]
}

/// The checksum of the first six bytes of a packet.
pub open spec fn packet_crc(body: Seq<u8>) -> u8 {
    crc8(CRC8_POLYNOMIAL, 0, body)
}

/// The six bytes that the checksum covers.
pub open spec fn packet_body(port: u16) -> Seq<u8> {
    magic_prefix() + be16(port)
}

/// The seven bytes of the packet that carries `port`.
pub open spec fn packet_bytes(port: u16) -> Seq<u8> {
    packet_body(port).push(packet_crc(packet_body(port)))
}

/// The port that `b` carries, if it is a well-formed packet.
pub open spec fn parse_packet(b: Seq<u8>) -> Option<u16> {
    if b.len() == PACKET_LEN && b.subrange(0, 4) == magic_prefix() && b[6] == packet_crc(
        b.subrange(0, 6),
    ) {
        Some(be16_value(b[4], b[5]))
    } else {
        None
    }
}

proof fn lemma_xor_cancel(a: u8, b: u8, c: u8)
    ensures
        a ^ c == b ^ c ==> a == b,
        c ^ a == c ^ b ==> a == b,
{
    assert((a ^ c == b ^ c ==> a == b) && (c ^ a == c ^ b ==> a == b)) by (bit_vector);
}

/// Reading the packet built for a port gives that port back.
pub proof fn lemma_packet_round_trip(port: u16)
    ensures
        parse_packet(packet_bytes(port)) == Some(port),
{
    let b = packet_bytes(port);
    lemma_be16(port);
    assert(b.subrange(0, 4) =~= magic_prefix());
    assert(b.subrange(0, 6) =~= packet_body(port));
}

/// A packet reads as a port only where it is exactly the packet built for
/// that port.
pub proof fn lemma_packet_parse_exact(b: Seq<u8>, port: u16)
    ensures
        parse_packet(b) == Some(port) <==> b == packet_bytes(port),
{
    if parse_packet(b) == Some(port) {
        lemma_be16_value(b[4], b[5]);
        assert(b.subrange(0, 6) =~= packet_body(port)) by {
            assert(b.subrange(0, 4) == magic_prefix());
            assert(be16(port) =~= seq![b[4], b[5]]);
            assert(b.subrange(0, 4)[0] == b[0]);
        }
        assert(b =~= packet_bytes(port));
    }
    if b == packet_bytes(port) {
        lemma_packet_round_trip(port);
    }
}

/// Changing any one byte of a well-formed packet makes it unreadable.
pub proof fn lemma_packet_single_byte_change(port: u16, i: int, x: u8)
    requires
        0 <= i < PACKET_LEN,
        x != packet_bytes(port)[i],
    ensures
        parse_packet(packet_bytes(port).update(i, x)) is None,
{
    let b = packet_bytes(port);
    let m = b.update(i, x);
    if i < 4 {
        assert(m.subrange(0, 4)[i] != magic_prefix()[i]);
    } else if i == 6 {
        assert(m.subrange(0, 6) =~= b.subrange(0, 6));
        assert(b.subrange(0, 6) =~= packet_body(port));
    } else {
        let p = CRC8_POLYNOMIAL;
        assert(p & 1 == 1) by (bit_vector)
            requires
                p == 0x9bu8,
        ;
        let head = b.subrange(0, 4);
        assert(m.subrange(0, 4) =~= head);
        assert(b.subrange(0, 6) =~= head.push(b[4]).push(b[5]));
        assert(m.subrange(0, 6) =~= head.push(m[4]).push(m[5]));
        assert(b.subrange(0, 6) =~= packet_body(port));
        lemma_crc8_push(p, 0, head, b[4]);
        lemma_crc8_push(p, 0, head.push(b[4]), b[5]);
        lemma_crc8_push(p, 0, head, m[4]);
        lemma_crc8_push(p, 0, head.push(m[4]), m[5]);
        let c4 = crc8(p, 0, head);
        if crc8(p, 0, m.subrange(0, 6)) == b[6] {
            lemma_table_entry_injective(
                p,
                crc8(p, 0, head.push(m[4])) ^ m[5],
                crc8(p, 0, head.push(b[4])) ^ b[5],
            );
            if i == 4 {
                assert(m[5] == b[5]);
                lemma_xor_cancel(crc8(p, 0, head.push(m[4])), crc8(p, 0, head.push(b[4])), m[5]);
                lemma_table_entry_injective(p, c4 ^ m[4], c4 ^ b[4]);
                lemma_xor_cancel(m[4], b[4], c4);
            } else {
                assert(m[4] == b[4]);
                lemma_xor_cancel(m[5], b[5], crc8(p, 0, head.push(b[4])));
            }
        }
    }
}

/// A discovery packet. A port of zero asks for replies; any other port
/// announces the sender's listening port.
#[derive(PartialEq, Clone, Copy, Debug)]
pub struct Packet {
    pub pfx: [u8; 4],
    pub port: u16,
    pub crc: u8,
}

impl View for Packet {
    type V = Seq<u8>;

    /// The packet's bytes on the wire.
    open spec fn view(&self) -> Seq<u8> {
        self.pfx@ + be16(self.port) + seq![self.crc]
    }
}

impl Packet {
    /// The request packet, which carries port zero.
    pub fn request() -> (r: Packet)
        ensures
            r@ == packet_bytes(0),
            r.port == 0,
    {
        Packet::new(0)
    }

    /// The packet that carries `port`, with its checksum.
    pub fn new(port: u16) -> (r: Packet)
        ensures
            r@ == packet_bytes(port),
            r.port == port,
    {
        let mut this = Packet { pfx: [0x48u8, 0x4fu8, 0x49u8, 0x50u8], port, crc: 0 };
        assert(this@.subrange(0, 6) =~= packet_body(port)) by {
            assert(this.pfx@ =~= magic_prefix());
        }
        this.update_crc();
        assert(this@ =~= packet_bytes(port)) by {
            assert(this.pfx@ =~= magic_prefix());
        }
        this
    }

    fn update_crc(&mut self)
        ensures
            final(self).pfx == old(self).pfx,
            final(self).port == old(self).port,
            final(self).crc == packet_crc(old(self)@.subrange(0, 6)),
    {
        self.crc = self.crc();
    }

    /// The packet's bytes on the wire.
    pub fn as_bytes(&self) -> (r: [u8; 7])
        ensures
            r@ == self@,
    {
        proof {
            lemma_be16(self.port);
        }
        let r = [
            self.pfx[0],
            self.pfx[1],
            self.pfx[2],
            self.pfx[3],
            (self.port / 256) as u8,
            (self.port % 256) as u8,
            self.crc,
        ];
        assert(r@ =~= self@);
        r
    }

    /// Reads a packet, or `None` where the length, the prefix or the
    /// checksum is wrong.
    pub fn try_from_bytes(bytes: &[u8]) -> (r: Option<Packet>)
        ensures
            r is Some <==> parse_packet(bytes@) is Some,
            r is Some ==> r->0@ == bytes@ && Some(r->0.port) == parse_packet(bytes@),
    {
        if bytes.len() != PACKET_LEN {
            return None;
        }
        let pkt = Packet {
            pfx: [bytes[0], bytes[1], bytes[2], bytes[3]],
            port: (bytes[4] as u16) * 256 + bytes[5] as u16,
            crc: bytes[6],
        };
        proof {
            lemma_be16_value(bytes@[4], bytes@[5]);
            assert(pkt@ =~= bytes@);
            assert(pkt@.subrange(0, 4) =~= pkt.pfx@);
        }
        if bytes[0] != 0x48 || bytes[1] != 0x4f || bytes[2] != 0x49 || bytes[3] != 0x50 {
            assert(bytes@.subrange(0, 4) != magic_prefix()) by {
                assert(bytes@.subrange(0, 4)[0] == bytes@[0]);
                assert(bytes@.subrange(0, 4)[1] == bytes@[1]);
                assert(bytes@.subrange(0, 4)[2] == bytes@[2]);
                assert(bytes@.subrange(0, 4)[3] == bytes@[3]);
            }
            return None;
        }
        assert(bytes@.subrange(0, 4) =~= magic_prefix());
        if !pkt.validate_crc() {
            return None;
        }
        Some(pkt)
    }

    fn validate_crc(&self) -> (r: bool)
        ensures
            r == (self.crc == packet_crc(self@.subrange(0, 6))),
    {
        self.crc == self.crc()
    }

    fn crc(&self) -> (r: u8)
        ensures
            r == packet_crc(self@.subrange(0, 6)),
    {
        let bytes = self.as_bytes();
        let table = Crc8::create(CRC8_POLYNOMIAL);
        table.calc(bytes.as_slice(), PACKET_LEN - 1, 0)
    }

    /// Whether this packet asks for replies.
    pub fn is_request(&self) -> (r: bool)
        ensures
            r == (self.port == 0),
    {
        self.port == 0
    }
}

} // verus!
