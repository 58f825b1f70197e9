//! The conversation number at the front of a KCP datagram.

use vstd::prelude::*;

verus! {

/// The length of the header that every KCP segment starts with.
pub const HEADER_LEN: usize = 24;

/// Byte `i` of `conv`, the least significant being byte 0.
pub open spec fn conv_byte(conv: u32, i: int) -> u8 {
    if i == 0 {
        (conv & 0xff) as u8
    } else if i == 1 {
        ((conv >> 8) & 0xff) as u8
    } else if i == 2 {
        ((conv >> 16) & 0xff) as u8
    } else {
        ((conv >> 24) & 0xff) as u8
    }
}

/// The number that four bytes write, the first being the least
/// significant.
pub open spec fn le32(b0: u8, b1: u8, b2: u8, b3: u8) -> u32 {
    (b0 as u32) | ((b1 as u32) << 8) | ((b2 as u32) << 16) | ((b3 as u32) << 24)
}

/// The conversation number that `packet` carries in its first four
/// bytes.
pub open spec fn conv_of(packet: Seq<u8>) -> u32
    recommends
        packet.len() >= 4,
{
    le32(packet[0], packet[1], packet[2], packet[3])
}

/// `packet` with `conv` written over its first four bytes.
pub open spec fn with_conv(packet: Seq<u8>, conv: u32) -> Seq<u8> {
    Seq::new(
        packet.len(),
        |i: int|
            if i < 4 {
                conv_byte(conv, i)
            } else {
                packet[i]
            },
    )
}

/// Calls `kcp::get_conv`, which reads the first four bytes as a
/// little-endian number and asks for a whole header.
#[verifier::external_body]
fn get_conv(packet: &[u8]) -> (conv: u32)
    requires
        packet@.len() >= HEADER_LEN,
    ensures
        conv == conv_of(packet@),
{
    kcp::get_conv(packet)
}

/// Calls `kcp::set_conv`, which writes `conv` over the first four bytes
/// as a little-endian number and asks for a whole header.
#[verifier::external_body]
fn set_conv(packet: &mut [u8], conv: u32)
    requires
        old(packet)@.len() >= HEADER_LEN,
    ensures
        final(packet)@ == with_conv(old(packet)@, conv),
{
    kcp::set_conv(packet, conv)
}

/// What is written is what is read back, and the rest stays.
pub proof fn lemma_conv_round_trip(packet: Seq<u8>, conv: u32)
    requires
        packet.len() >= 4,
    ensures
        conv_of(with_conv(packet, conv)) == conv,
        with_conv(packet, conv).len() == packet.len(),
        forall|i: int| 4 <= i < packet.len() ==> with_conv(packet, conv)[i] == packet[i],
        with_conv(packet, conv_of(packet)) == packet,
{
    lemma_bytes_of(conv);
    lemma_of_bytes(packet[0], packet[1], packet[2], packet[3]);
}

/// The four bytes of a number write that number.
proof fn lemma_bytes_of(conv: u32)
    ensures
        le32(conv_byte(conv, 0), conv_byte(conv, 1), conv_byte(conv, 2), conv_byte(conv, 3))
            == conv,
{
    assert(((conv & 0xff) as u8 as u32) | ((((conv >> 8) & 0xff) as u8 as u32) << 8) | ((((conv
        >> 16) & 0xff) as u8 as u32) << 16) | ((((conv >> 24) & 0xff) as u8 as u32) << 24) == conv)
        by (bit_vector);
}

/// The number that four bytes write has those bytes.
proof fn lemma_of_bytes(b0: u8, b1: u8, b2: u8, b3: u8)
    ensures
        conv_byte(le32(b0, b1, b2, b3), 0) == b0,
        conv_byte(le32(b0, b1, b2, b3), 1) == b1,
        conv_byte(le32(b0, b1, b2, b3), 2) == b2,
        conv_byte(le32(b0, b1, b2, b3), 3) == b3,
{
    let c = (b0 as u32) | ((b1 as u32) << 8) | ((b2 as u32) << 16) | ((b3 as u32) << 24);
    assert((c & 0xff) as u8 == b0) by (bit_vector)
        requires
            c == (b0 as u32) | ((b1 as u32) << 8) | ((b2 as u32) << 16) | ((b3 as u32) << 24),
    ;
    assert(((c >> 8) & 0xff) as u8 == b1) by (bit_vector)
        requires
            c == (b0 as u32) | ((b1 as u32) << 8) | ((b2 as u32) << 16) | ((b3 as u32) << 24),
    ;
    assert(((c >> 16) & 0xff) as u8 == b2) by (bit_vector)
        requires
            c == (b0 as u32) | ((b1 as u32) << 8) | ((b2 as u32) << 16) | ((b3 as u32) << 24),
    ;
    assert(((c >> 24) & 0xff) as u8 == b3) by (bit_vector)
        requires
            c == (b0 as u32) | ((b1 as u32) << 8) | ((b2 as u32) << 16) | ((b3 as u32) << 24),
    ;
}

/// The conversation number of a datagram; `None` for one too short to
/// hold a KCP header.
pub fn packet_conv(packet: &[u8]) -> (conv: Option<u32>)
    ensures
        conv == (if packet@.len() >= HEADER_LEN {
            Some(conv_of(packet@))
        } else {
            None
        }),
{
    if packet.len() >= HEADER_LEN {
        Some(get_conv(packet))
    } else {
        None
    }
}

/// Writes `conv` into a datagram, and says whether it did: one too short
/// to hold a KCP header is left as it is.
pub fn stamp_conv(packet: &mut [u8], conv: u32) -> (stamped: bool)
    ensures
        stamped == (old(packet)@.len() >= HEADER_LEN),
        final(packet)@ == (if stamped {
            with_conv(old(packet)@, conv)
        } else {
            old(packet)@
        }),
{
    if packet.len() >= HEADER_LEN {
        set_conv(packet, conv);
        true
    } else {
        false
    }
}

} // verus!
