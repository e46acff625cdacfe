//! DDC/CI frames: a command byte and a payload, framed with an address,
//! a length byte and a checksum.
use vstd::prelude::*;
use crate::ddcci::checksum::{
    calculate, lemma_xor_all_append, lemma_xor_all_update, lemma_xor_facts, verify, xor_all,
};
use crate::ddcci::error::{Error, Result};

verus! {

/// The source address that the host writes into every frame it sends.
pub const HOST_ADDRESS: u8 = 0x51;

/// The write address of the display, which the checksum of a host frame covers.
pub const DISPLAY_ADDRESS: u8 = 0x6e;

/// A DDC/CI packet: a command byte and its payload.
#[derive(Debug, Clone, PartialEq, Eq)]
pub struct Packet {
    pub command: u8,
    pub payload: Vec<u8>,
}

impl View for Packet {
    type V = (u8, Seq<u8>);

    open spec fn view(&self) -> (u8, Seq<u8>) {
        (self.command, self.payload@)
    }
}

/// The length byte of a frame: the high bit set, and the payload length plus one
/// (for the command byte) in the low bits, as a byte.
pub open spec fn length_byte(payload_len: nat) -> u8 {
    0x80u8 | (((payload_len + 1) % 256) as u8)
}

/// The frame that the host sends, without its checksum.
pub open spec fn host_frame(command: u8, payload: Seq<u8>) -> Seq<u8> {
    seq![HOST_ADDRESS, length_byte(payload.len()), command] + payload
}

/// The bytes that `encode` produces: the host frame, then a checksum over the
/// display address followed by the frame.
pub open spec fn encoded(command: u8, payload: Seq<u8>) -> Seq<u8> {
    let frame = host_frame(command, payload);
    frame.push(xor_all(seq![DISPLAY_ADDRESS] + frame))
}

/// A frame as a monitor sends it: its source address, the length byte, the command,
/// the payload, and a checksum that makes all bytes exclusive-or to zero.
pub open spec fn reply_frame(source: u8, command: u8, payload: Seq<u8>) -> Seq<u8> {
    let body = seq![source, length_byte(payload.len()), command] + payload;
    body.push(xor_all(body))
}

/// Whether the checksum of a frame checks out: its bytes exclusive-or to zero, or it
/// is a frame from the host (source address 0x51) whose bytes exclusive-or to zero
/// once the display address is put in front, as `encode` writes them.
pub open spec fn checksum_checks_out(bytes: Seq<u8>) -> bool {
    ||| xor_all(bytes) == 0
    ||| bytes[0] == HOST_ADDRESS && xor_all(seq![DISPLAY_ADDRESS] + bytes) == 0
}

/// What `decode` makes of `bytes`: too short frames and frames whose checksum does
/// not check out are refused; otherwise the command is the third byte and the
/// payload lies between it and the last byte (empty for frames of at most four bytes).
pub open spec fn decode_result(bytes: Seq<u8>) -> core::result::Result<(u8, Seq<u8>), Error> {
    if bytes.len() < 3 {
        Err(Error::InvalidPacket)
    } else if !checksum_checks_out(bytes) {
        Err(Error::InvalidChecksum)
    } else {
        Ok((bytes[2], if bytes.len() > 4 { bytes.subrange(3, bytes.len() - 1) } else { Seq::empty() }))
    }
}

/// A packet result, taken by the view of the packet.
pub open spec fn packet_result(res: Result<Packet>) -> core::result::Result<(u8, Seq<u8>), Error> {
    match res {
        Ok(p) => Ok(p@),
        Err(e) => Err(e),
    }
}

impl Packet {
    /// A packet with the given command and payload.
    pub fn new(command: u8, payload: Vec<u8>) -> (packet: Self)
        ensures
            packet.command == command,
            packet.payload@ == payload@,
    {
        Self { command, payload }
    }

    /// The frame that the host sends for this packet.
    pub fn encode(&self) -> (bytes: Vec<u8>)
        ensures
            bytes@ == encoded(self.command, self.payload@),
    {
        let low: u8 = (self.payload.len() % 256) as u8;
        let count: u8 = if low == 255 { 0 } else { low + 1 };
        assert(count == ((self.payload@.len() + 1) % 256) as u8);
        let length: u8 = 0x80 | count;

        let mut frame = vec![HOST_ADDRESS, length, self.command];
        frame.extend_from_slice(self.payload.as_slice());
        assert(frame@ == host_frame(self.command, self.payload@));

        let mut checksum_input = vec![DISPLAY_ADDRESS];
        checksum_input.extend_from_slice(frame.as_slice());
        assert(checksum_input@ == seq![DISPLAY_ADDRESS] + frame@);

        let checksum = calculate(checksum_input.as_slice());
        frame.push(checksum);
        frame
    }

    /// Reads a packet out of a frame received from a monitor.
    pub fn decode(bytes: &[u8]) -> (res: Result<Self>)
        ensures
            packet_result(res) == decode_result(bytes@),
    {
        if bytes.len() < 3 {
            return Err(Error::InvalidPacket);
        }
        if !verify(bytes) {
            proof {
                lemma_xor_with_display_address(bytes@);
            }
            if bytes[0] != HOST_ADDRESS || DISPLAY_ADDRESS ^ calculate(bytes) != 0 {
                return Err(Error::InvalidChecksum);
            }
        }
        let command = bytes[2];
        let payload = if bytes.len() > 4 {
            vstd::slice::slice_to_vec(&bytes[3..bytes.len() - 1])
        } else {
            Vec::new()
        };
        Ok(Self { command, payload })
    }
}

/// Every frame that the host sends checks out once the display address is put in
/// front of it: all those bytes exclusive-or to zero.
pub proof fn law_encoded_frame_checks_out(command: u8, payload: Seq<u8>)
    ensures
        xor_all(seq![DISPLAY_ADDRESS] + encoded(command, payload)) == 0,
{
    let frame = host_frame(command, payload);
    let inner = seq![DISPLAY_ADDRESS] + frame;
    let c = xor_all(inner);
    assert(seq![DISPLAY_ADDRESS] + encoded(command, payload) == inner.push(c));
    assert(inner.push(c).drop_last() == inner);
    lemma_xor_facts(c, c, 0);
}

/// The checksum over the display address followed by a frame combines the address
/// with the checksum of the frame.
pub proof fn lemma_xor_with_display_address(frame: Seq<u8>)
    ensures
        xor_all(seq![DISPLAY_ADDRESS] + frame) == DISPLAY_ADDRESS ^ xor_all(frame),
{
    lemma_xor_all_append(seq![DISPLAY_ADDRESS], frame);
    let one = seq![DISPLAY_ADDRESS];
    assert(one.drop_last() == Seq::<u8>::empty());
    assert(xor_all(one) == xor_all(one.drop_last()) ^ one.last());
    lemma_xor_facts(DISPLAY_ADDRESS, 0, 0);
}

proof fn lemma_xor_zero_iff_equal(a: u8, b: u8)
    by (bit_vector)
    ensures
        (a ^ b == 0) == (a == b),
{
}

/// `decode` refuses a frame of fewer than three bytes as no packet; a longer frame it
/// accepts exactly when all its bytes exclusive-or to zero, or when it comes from the
/// host (source 0x51) and its bytes exclusive-or to the display address 0x6e. Every
/// other frame of three or more bytes is refused for its checksum.
pub proof fn law_decode_checks_the_checksum(bytes: Seq<u8>)
    ensures
        bytes.len() < 3 ==> decode_result(bytes) == Err::<(u8, Seq<u8>), Error>(
            Error::InvalidPacket,
        ),
        bytes.len() >= 3 ==> (decode_result(bytes) is Ok <==> (xor_all(bytes) == 0 || (bytes[0]
            == HOST_ADDRESS && xor_all(bytes) == DISPLAY_ADDRESS))),
        bytes.len() >= 3 && xor_all(bytes) != 0 && !(bytes[0] == HOST_ADDRESS && xor_all(bytes)
            == DISPLAY_ADDRESS) ==> decode_result(bytes) == Err::<(u8, Seq<u8>), Error>(
            Error::InvalidChecksum,
        ),
{
    lemma_xor_with_display_address(bytes);
    lemma_xor_zero_iff_equal(DISPLAY_ADDRESS, xor_all(bytes));
}

proof fn lemma_xor_changed(y: u8, x: u8)
    by (bit_vector)
    requires
        x != y,
    ensures
        (0u8 ^ y) ^ x != 0,
{
}

/// `decode` notices any one byte that changed in transit: when the bytes of a frame
/// that does not come from the host exclusive-or to zero, the same frame with any one
/// byte replaced by another (other than by the host address in front) is refused for
/// its checksum.
pub proof fn law_decode_detects_a_changed_byte(bytes: Seq<u8>, i: int, x: u8)
    requires
        bytes.len() >= 3,
        xor_all(bytes) == 0,
        bytes[0] != HOST_ADDRESS,
        0 <= i < bytes.len(),
        x != bytes[i],
        i == 0 ==> x != HOST_ADDRESS,
    ensures
        decode_result(bytes.update(i, x)) == Err::<(u8, Seq<u8>), Error>(Error::InvalidChecksum),
{
    let changed = bytes.update(i, x);
    lemma_xor_all_update(bytes, i, x);
    lemma_xor_changed(bytes[i], x);
    assert(changed[0] != HOST_ADDRESS);
    law_decode_checks_the_checksum(changed);
}

proof fn lemma_length_byte_value(count: u8)
    by (bit_vector)
    requires
        count < 128,
    ensures
        0x80u8 | count == 0x80 + count,
{
}

/// The frame that the host sends for a payload of under 127 bytes: the host address
/// 0x51, then 0x80 plus the number of bytes that follow up to the checksum (the
/// command and the payload), the command, the payload, and the checksum that makes
/// all bytes, with the display address 0x6e in front, exclusive-or to zero.
pub proof fn law_encoded_layout(command: u8, payload: Seq<u8>)
    requires
        payload.len() < 127,
    ensures
        encoded(command, payload).len() == payload.len() + 4,
        encoded(command, payload)[0] == 0x51,
        encoded(command, payload)[1] == 0x80 + payload.len() + 1,
        encoded(command, payload)[2] == command,
        encoded(command, payload).subrange(3, payload.len() as int + 3) == payload,
        (0x6eu8 ^ xor_all(encoded(command, payload).drop_last())) ^ encoded(command, payload).last()
            == 0,
{
    let e = encoded(command, payload);
    let count = ((payload.len() + 1) % 256) as u8;
    assert(count == payload.len() + 1);
    lemma_length_byte_value(count);
    assert(e.subrange(3, payload.len() as int + 3) =~= payload);
    let frame = host_frame(command, payload);
    assert(e.drop_last() == frame);
    lemma_xor_with_display_address(frame);
    lemma_xor_facts(0x6eu8 ^ xor_all(frame), 0, 0);
}

/// `decode` gives back what `encode` wrote: decoding a frame that the host sends
/// yields its command and payload, whatever they are.
pub proof fn law_decode_encoded(command: u8, payload: Seq<u8>)
    ensures
        decode_result(encoded(command, payload)) == Ok::<(u8, Seq<u8>), Error>((command, payload)),
{
    law_encoded_frame_checks_out(command, payload);
    let e = encoded(command, payload);
    assert(e[0] == HOST_ADDRESS);
    assert(e[2] == command);
    if e.len() > 4 {
        assert(e.subrange(3, e.len() - 1) == payload);
    } else {
        assert(payload == Seq::<u8>::empty());
    }
}

/// `decode` gives back the command and payload of every frame that a monitor builds
/// with a checksum over all its bytes, whatever its source address.
pub proof fn law_decode_reply_frame(source: u8, command: u8, payload: Seq<u8>)
    ensures
        decode_result(reply_frame(source, command, payload)) == Ok::<(u8, Seq<u8>), Error>(
            (command, payload),
        ),
{
    let body = seq![source, length_byte(payload.len()), command] + payload;
    let c = xor_all(body);
    let f = reply_frame(source, command, payload);
    assert(f.drop_last() == body);
    lemma_xor_facts(c, c, 0);
    assert(f[2] == command);
    if f.len() > 4 {
        assert(f.subrange(3, f.len() - 1) == payload);
    } else {
        assert(payload.len() == 0);
        assert(payload == Seq::<u8>::empty());
    }
}

} // verus!
