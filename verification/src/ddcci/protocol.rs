//! VCP commands and the replies of a monitor.
use vstd::prelude::*;
use crate::ddcci::error::{Error, Result};
use crate::ddcci::packet::Packet;
use crate::text::{lossy_text, utf8_lossy};

verus! {

/// A request to a monitor.
#[derive(Debug)]
pub enum Command {
    /// Read the current and maximum value of a VCP feature, by its code.
    GetVcp(u8),
    /// Write a VCP feature, by its code.
    SetVcp { feature: u8, value: u16 },
    /// Ask for the capabilities string.
    Capabilities,
}

/// The current and maximum value of a VCP feature.
#[derive(Debug, Clone, Copy, PartialEq, Eq, Structural)]
pub struct VcpValue {
    pub current: u16,
    pub maximum: u16,
}

/// A reply of a monitor.
#[derive(Debug)]
pub enum Response {
    Vcp(VcpValue),
    Capabilities(String),
    Ack,
}

/// A reply, with its text taken as a sequence of characters.
pub enum ResponseView {
    Vcp(VcpValue),
    Capabilities(Seq<char>),
    Ack,
}

impl View for Response {
    type V = ResponseView;

    open spec fn view(&self) -> ResponseView {
        match self {
            Response::Vcp(v) => ResponseView::Vcp(*v),
            Response::Capabilities(s) => ResponseView::Capabilities(s@),
            Response::Ack => ResponseView::Ack,
        }
    }
}

/// A 16-bit value from its high and low byte.
pub open spec fn be16(hi: u8, lo: u8) -> u16 {
    (hi * 256 + lo) as u16
}

/// The packet of a command: its command byte and payload.
pub open spec fn command_packet(command: Command) -> (u8, Seq<u8>) {
    match command {
        Command::GetVcp(feature) => (0x01, seq![feature]),
        Command::SetVcp { feature, value } => (
            0x03,
            seq![feature, (value / 256) as u8, (value % 256) as u8],
        ),
        Command::Capabilities => (0xf3, Seq::empty()),
    }
}

/// The reply that a packet carries: a VCP reply (command 0x02) needs six payload
/// bytes and holds the maximum in bytes 2-3 and the current value in bytes 4-5, big
/// endian; a capabilities reply (command 0xe3) holds text; any other command is an
/// acknowledgement.
pub open spec fn response_of(command: u8, payload: Seq<u8>) -> core::result::Result<ResponseView, Error> {
    if command == 0x02 {
        if payload.len() < 6 {
            Err(Error::InvalidPacket)
        } else {
            Ok(
                ResponseView::Vcp(
                    VcpValue { maximum: be16(payload[2], payload[3]), current: be16(payload[4], payload[5]) },
                ),
            )
        }
    } else if command == 0xe3 {
        Ok(ResponseView::Capabilities(lossy_text(payload)))
    } else {
        Ok(ResponseView::Ack)
    }
}

/// A response result, taken by the view of the response.
pub open spec fn response_result(res: Result<Response>) -> core::result::Result<ResponseView, Error> {
    match res {
        Ok(r) => Ok(r@),
        Err(e) => Err(e),
    }
}

proof fn lemma_split_u16(value: u16)
    by (bit_vector)
    ensures
        (value >> 8u16) as u8 == (value / 256) as u8,
        value as u8 == (value % 256) as u8,
{
}

/// A SetVcp command writes its value as two bytes after the feature code, high byte
/// first; a VCP reply holds the maximum in payload bytes 2 and 3 and the current value
/// in bytes 4 and 5 the same way. So the bytes written for a value read back as that
/// value, whatever the first two payload bytes of the reply hold.
pub proof fn law_vcp_value_bytes(feature: u8, value: u16, maximum: u16, head: Seq<u8>)
    requires
        head.len() == 2,
    ensures
        command_packet(Command::SetVcp { feature, value }).1.len() == 3,
        command_packet(Command::SetVcp { feature, value }).1[0] == feature,
        command_packet(Command::SetVcp { feature, value }).1[1] * 256 + command_packet(
            Command::SetVcp { feature, value },
        ).1[2] == value,
        ({
            let current_bytes = command_packet(Command::SetVcp { feature, value }).1.skip(1);
            let maximum_bytes = command_packet(Command::SetVcp { feature, value: maximum }).1.skip(
                1,
            );
            response_of(0x02, head + maximum_bytes + current_bytes) == Ok::<ResponseView, Error>(
                ResponseView::Vcp(VcpValue { current: value, maximum }),
            )
        }),
{
    let current_bytes = command_packet(Command::SetVcp { feature, value }).1.skip(1);
    let maximum_bytes = command_packet(Command::SetVcp { feature, value: maximum }).1.skip(1);
    let payload = head + maximum_bytes + current_bytes;
    assert(payload[2] == (maximum / 256) as u8);
    assert(payload[3] == (maximum % 256) as u8);
    assert(payload[4] == (value / 256) as u8);
    assert(payload[5] == (value % 256) as u8);
    assert(be16((maximum / 256) as u8, (maximum % 256) as u8) == maximum);
    assert(be16((value / 256) as u8, (value % 256) as u8) == value);
}

impl Command {
    /// The packet that carries this command.
    pub fn into_packet(self) -> (packet: Packet)
        ensures
            packet@ == command_packet(self),
    {
        match self {
            Command::GetVcp(feature) => Packet::new(0x01, vec![feature]),
            Command::SetVcp { feature, value } => {
                proof {
                    lemma_split_u16(value);
                }
                Packet::new(0x03, vec![feature, (value >> 8) as u8, value as u8])
            },
            Command::Capabilities => Packet::new(0xf3, vec![]),
        }
    }
}

impl Response {
    /// Reads the reply that a packet carries.
    pub fn from_packet(packet: Packet) -> (res: Result<Self>)
        ensures
            response_result(res) == response_of(packet.command, packet.payload@),
    {
        match packet.command {
            0x02 => {
                if packet.payload.len() < 6 {
                    return Err(Error::InvalidPacket);
                }
                let maximum = (packet.payload[2] as u16) * 256 + (packet.payload[3] as u16);
                let current = (packet.payload[4] as u16) * 256 + (packet.payload[5] as u16);
                Ok(Response::Vcp(VcpValue { current, maximum }))
            },
            0xe3 => {
                let caps = utf8_lossy(packet.payload.as_slice());
                Ok(Response::Capabilities(caps))
            },
            _ => Ok(Response::Ack),
        }
    }
}

} // verus!
