//! The byte transport under the DDC/CI protocol, and what a probe of a bus finds.
use vstd::prelude::*;
use crate::ddcci::error::{Error, Result};
use crate::ddcci::packet::{length_byte, reply_frame};

verus! {

/// Something that sends a request frame to a monitor and hands back its reply frame.
pub trait Transport {
    fn transact(&mut self, request: &[u8]) -> Result<Vec<u8>>;
}

/// A monitor found on an I²C bus, with the brightness it reported.
pub struct ProbeResult {
    pub path: std::path::PathBuf,
    pub brightness: u16,
    pub maximum: u16,
}

/// A read buffer cut down to the frame that it holds: the length byte (its low seven
/// bits) counts the bytes after the first three, and the buffer is cut to that many
/// bytes plus three where it holds them all; otherwise it stays as it is.
pub open spec fn trimmed_reply(buffer: Seq<u8>) -> Seq<u8> {
    if buffer.len() >= 3 && (buffer[1] & 0x7f) + 3 <= buffer.len() {
        buffer.take((buffer[1] & 0x7f) + 3)
    } else {
        buffer
    }
}

proof fn lemma_length_bits(count: u8)
    by (bit_vector)
    requires
        count < 128,
    ensures
        (0x80u8 | count) & 0x7f == count,
{
}

/// A read buffer that holds a whole reply frame, with a payload short enough for the
/// length byte (under 127 bytes), followed by anything, is cut back to that frame.
pub proof fn law_trim_reply_frame(source: u8, command: u8, payload: Seq<u8>, rest: Seq<u8>)
    requires
        payload.len() < 127,
    ensures
        trimmed_reply(reply_frame(source, command, payload) + rest) == reply_frame(source, command, payload),
{
    let frame = reply_frame(source, command, payload);
    let buffer = frame + rest;
    let count = ((payload.len() + 1) % 256) as u8;
    assert(count == payload.len() + 1);
    lemma_length_bits(count);
    assert(buffer[1] == length_byte(payload.len()));
    assert(buffer[1] & 0x7f == payload.len() + 1);
    assert(buffer.take(frame.len() as int) == frame);
}

/// Cuts a read buffer down to the frame that its length byte announces.
pub fn trim_reply(response: Vec<u8>) -> (frame: Vec<u8>)
    ensures
        frame@ == trimmed_reply(response@),
{
    let mut response = response;
    if response.len() >= 3 {
        let length = (response[1] & 0x7f) as usize;
        let total_len = length + 3;
        if total_len <= response.len() {
            response.truncate(total_len);
        }
    }
    response
}

/// How many times a reply is read before giving up.
pub const READ_ATTEMPTS: usize = 5;

/// What to do after reading the reply buffer.
#[derive(Debug)]
pub enum ReadOutcome {
    /// The read succeeded; this is the reply frame.
    Reply(Vec<u8>),
    /// The read failed and another attempt is due.
    Retry(Error),
    /// The read failed on the last attempt; this is the error to report.
    Failed(Error),
}

/// The outcome of the `attempt`-th read (counting from one): a buffer read is cut down
/// to its frame; a failed read is tried again until `READ_ATTEMPTS` reads have failed,
/// and the last error is reported.
pub fn read_outcome(attempt: usize, read: Result<Vec<u8>>) -> (outcome: ReadOutcome)
    ensures
        match read {
            Ok(buffer) => outcome matches ReadOutcome::Reply(frame) && frame@ == trimmed_reply(buffer@),
            Err(e) => if attempt < READ_ATTEMPTS {
                outcome == ReadOutcome::Retry(e)
            } else {
                outcome == ReadOutcome::Failed(e)
            },
        },
{
    match read {
        Ok(buffer) => ReadOutcome::Reply(trim_reply(buffer)),
        Err(e) => if attempt < READ_ATTEMPTS {
            ReadOutcome::Retry(e)
        } else {
            ReadOutcome::Failed(e)
        },
    }
}

} // verus!
