//! A monitor reached through a transport, and the conversation held with it.
use vstd::prelude::*;
use crate::ddcci::error::{Error, Result};
use crate::ddcci::feature::{Feature, feature_code};
use crate::ddcci::packet::{Packet, decode_result, encoded, packet_result, reply_frame, law_decode_reply_frame};
use crate::ddcci::protocol::{Command, Response, ResponseView, VcpValue, be16, command_packet, response_of, response_result};
use crate::ddcci::transport::{ProbeResult, Transport};

verus! {

/// One request frame sent to the monitor and what the transport handed back.
pub struct Exchange {
    pub request: Seq<u8>,
    pub reply: core::result::Result<Seq<u8>, Error>,
}

/// A transport result, with the bytes taken as a sequence.
pub open spec fn reply_view(reply: Result<Vec<u8>>) -> core::result::Result<Seq<u8>, Error> {
    match reply {
        Ok(bytes) => Ok(bytes@),
        Err(e) => Err(e),
    }
}

/// The packet that a transport result carries.
pub open spec fn reply_packet(reply: core::result::Result<Seq<u8>, Error>) -> core::result::Result<(u8, Seq<u8>), Error> {
    match reply {
        Ok(bytes) => decode_result(bytes),
        Err(e) => Err(e),
    }
}

/// The response that a transport result carries.
pub open spec fn reply_response(reply: core::result::Result<Seq<u8>, Error>) -> core::result::Result<ResponseView, Error> {
    match reply_packet(reply) {
        Ok((command, payload)) => response_of(command, payload),
        Err(e) => Err(e),
    }
}

/// The VCP value that a transport result carries; another kind of reply is unexpected.
pub open spec fn reply_vcp(reply: core::result::Result<Seq<u8>, Error>) -> core::result::Result<VcpValue, Error> {
    match reply_response(reply) {
        Ok(ResponseView::Vcp(value)) => Ok(value),
        Ok(_) => Err(Error::UnexpectedResponse),
        Err(e) => Err(e),
    }
}

/// What a write of a VCP feature gives: success on any reply that reads as a response.
pub open spec fn reply_ack(reply: core::result::Result<Seq<u8>, Error>) -> core::result::Result<(), Error> {
    match reply_response(reply) {
        Ok(_) => Ok(()),
        Err(e) => Err(e),
    }
}

/// A VCP reply frame that a monitor sends (command 0x02, with the maximum in payload
/// bytes 2-3 and the current value in bytes 4-5) is read as that value, whatever
/// its source address and the other payload bytes.
pub proof fn law_vcp_reply_read(source: u8, payload: Seq<u8>)
    requires
        payload.len() >= 6,
    ensures
        reply_vcp(Ok(reply_frame(source, 0x02, payload))) == Ok::<VcpValue, Error>(
            VcpValue { current: be16(payload[4], payload[5]), maximum: be16(payload[2], payload[3]) },
        ),
{
    law_decode_reply_frame(source, 0x02, payload);
}

/// The frame that the host sends for a command.
pub open spec fn command_frame(command: Command) -> Seq<u8> {
    encoded(command_packet(command).0, command_packet(command).1)
}

/// A DDC/CI monitor behind a transport.
pub struct DdcDevice<T: Transport> {
    transport: T,
    log: Ghost<Seq<Exchange>>,
}

impl<T: Transport> DdcDevice<T> {
    /// Every exchange held with the monitor so far, oldest first: the request frame
    /// that the library built (with `Packet::encode`) and handed to the transport, and
    /// what the transport gave back. The log is the library's own record; it speaks
    /// of the frame built, and of the bytes that cross the transport only as far as
    /// the body of `transact` passes that frame on unchanged.
    pub closed spec fn exchanges(&self) -> Seq<Exchange> {
        self.log@
    }

    /// The transport that carries the frames.
    pub closed spec fn transport(&self) -> T {
        self.transport
    }

    /// A device that talks through `transport`, with no exchange held yet.
    pub fn new(transport: T) -> (device: Self)
        ensures
            device.exchanges() == Seq::<Exchange>::empty(),
            device.transport() == transport,
    {
        Self { transport, log: Ghost(Seq::empty()) }
    }

    /// Sends the frame of `packet` and reads the packet of the reply.
    pub fn transact(&mut self, packet: Packet) -> (res: Result<Packet>)
        ensures
            final(self).exchanges().len() == old(self).exchanges().len() + 1,
            final(self).exchanges().drop_last() == old(self).exchanges(),
            final(self).exchanges().last().request == encoded(packet.command, packet.payload@),
            packet_result(res) == reply_packet(final(self).exchanges().last().reply),
    {
        let bytes = packet.encode();
        let response = self.transport.transact(bytes.as_slice());
        proof {
            self.log@ = self.log@.push(Exchange { request: bytes@, reply: reply_view(response) });
        }
        match response {
            Ok(reply) => Packet::decode(reply.as_slice()),
            Err(e) => Err(e),
        }
    }

    /// Sends a command and reads the response of the monitor.
    pub fn execute(&mut self, command: Command) -> (res: Result<Response>)
        ensures
            final(self).exchanges().len() == old(self).exchanges().len() + 1,
            final(self).exchanges().drop_last() == old(self).exchanges(),
            final(self).exchanges().last().request == command_frame(command),
            response_result(res) == reply_response(final(self).exchanges().last().reply),
    {
        let request = command.into_packet();
        match self.transact(request) {
            Ok(response) => Response::from_packet(response),
            Err(e) => Err(e),
        }
    }

    /// Reads the current and maximum value of a feature.
    pub fn get_vcp(&mut self, feature: Feature) -> (res: Result<VcpValue>)
        ensures
            final(self).exchanges().len() == old(self).exchanges().len() + 1,
            final(self).exchanges().drop_last() == old(self).exchanges(),
            final(self).exchanges().last().request == command_frame(Command::GetVcp(feature_code(feature))),
            res == reply_vcp(final(self).exchanges().last().reply),
    {
        match self.execute(Command::GetVcp(feature.code())) {
            Ok(Response::Vcp(value)) => Ok(value),
            Ok(_) => Err(Error::UnexpectedResponse),
            Err(e) => Err(e),
        }
    }

    /// Writes a feature.
    pub fn set_vcp(&mut self, feature: Feature, value: u16) -> (res: Result<()>)
        ensures
            final(self).exchanges().len() == old(self).exchanges().len() + 1,
            final(self).exchanges().drop_last() == old(self).exchanges(),
            final(self).exchanges().last().request == command_frame(
                Command::SetVcp { feature: feature_code(feature), value },
            ),
            res == reply_ack(final(self).exchanges().last().reply),
    {
        match self.execute(Command::SetVcp { feature: feature.code(), value }) {
            Ok(_) => Ok(()),
            Err(e) => Err(e),
        }
    }

    /// Writes a feature after reading its maximum, and refuses a value above it
    /// without writing.
    pub fn set_vcp_checked(&mut self, feature: Feature, value: u16) -> (res: Result<()>)
        ensures
            ({
                let old_len = old(self).exchanges().len() as int;
                let log = final(self).exchanges();
                let read = log[old_len];
                &&& log.len() > old_len
                &&& log.take(old_len) == old(self).exchanges()
                &&& read.request == command_frame(Command::GetVcp(feature_code(feature)))
                &&& match reply_vcp(read.reply) {
                    Err(e) => log.len() == old_len + 1 && res == Err::<(), Error>(e),
                    Ok(current) => if value > current.maximum {
                        &&& log.len() == old_len + 1
                        &&& res == Err::<(), Error>(
                            Error::ValueOutOfRange { value, maximum: current.maximum, feature },
                        )
                    } else {
                        &&& log.len() == old_len + 2
                        &&& log[old_len + 1int].request == command_frame(
                            Command::SetVcp { feature: feature_code(feature), value },
                        )
                        &&& res == reply_ack(log[old_len + 1int].reply)
                    },
                }
            }),
    {
        let ghost start = self.exchanges();
        let current = match self.get_vcp(feature) {
            Ok(current) => current,
            Err(e) => {
                assert(self.exchanges().take(start.len() as int) == start);
                return Err(e);
            },
        };
        if value > current.maximum {
            assert(self.exchanges().take(start.len() as int) == start);
            return Err(Error::ValueOutOfRange { value, maximum: current.maximum, feature });
        }
        let ghost mid = self.exchanges();
        let res = self.set_vcp(feature, value);
        assert(self.exchanges().take(start.len() as int) == start) by {
            assert(self.exchanges().drop_last() == mid);
            assert(mid.drop_last() == start);
        }
        res
    }

    /// Asks the monitor on `path` for its brightness: a monitor that answers with a
    /// VCP value is found, with the path, its current brightness and its maximum.
    pub fn probe(&mut self, path: std::path::PathBuf) -> (found: Option<ProbeResult>)
        ensures
            final(self).exchanges().len() == old(self).exchanges().len() + 1,
            final(self).exchanges().drop_last() == old(self).exchanges(),
            final(self).exchanges().last().request == command_frame(
                Command::GetVcp(feature_code(Feature::Brightness)),
            ),
            match reply_vcp(final(self).exchanges().last().reply) {
                Ok(value) => found == Some(
                    ProbeResult { path, brightness: value.current, maximum: value.maximum },
                ),
                Err(_) => found.is_none(),
            },
    {
        match self.get_vcp(Feature::Brightness) {
            Ok(value) => Some(ProbeResult { path, brightness: value.current, maximum: value.maximum }),
            Err(_) => None,
        }
    }
}

} // verus!
