use displayd::ddcci::checksum::{calculate, verify};
use displayd::ddcci::device::DdcDevice;
use displayd::ddcci::discovery::{find_monitor, is_i2c_device_name};
use displayd::ddcci::error::Error;
use displayd::ddcci::feature::Feature;
use displayd::ddcci::packet::{Packet, DISPLAY_ADDRESS, HOST_ADDRESS};
use displayd::ddcci::protocol::{Command, Response, VcpValue};
use displayd::ddcci::transport::{read_outcome, trim_reply, ProbeResult, ReadOutcome, Transport, READ_ATTEMPTS};
use std::path::PathBuf;

/// A monitor that answers each request with the next canned reply and records requests.
struct Scripted {
    replies: Vec<Result<Vec<u8>, Error>>,
    requests: Vec<Vec<u8>>,
}

impl Transport for Scripted {
    fn transact(&mut self, request: &[u8]) -> Result<Vec<u8>, Error> {
        self.requests.push(request.to_vec());
        if self.replies.is_empty() {
            Err(Error::NoResponse)
        } else {
            self.replies.remove(0)
        }
    }
}

fn scripted(replies: Vec<Result<Vec<u8>, Error>>) -> Scripted {
    Scripted { replies, requests: Vec::new() }
}

/// A reply frame: source, length byte, command, payload, and a checksum that makes all
/// bytes exclusive-or to zero.
fn reply(source: u8, command: u8, payload: &[u8]) -> Vec<u8> {
    let mut frame = vec![source, 0x80 | (payload.len() as u8 + 1), command];
    frame.extend_from_slice(payload);
    let checksum = calculate(&frame);
    frame.push(checksum);
    frame
}

fn vcp_reply(code: u8, maximum: u16, current: u16) -> Vec<u8> {
    reply(0x6e, 0x02, &[0x00, code, (maximum >> 8) as u8, maximum as u8, (current >> 8) as u8, current as u8])
}

#[test]
fn checksum_is_xor_of_all_bytes() {
    assert_eq!(calculate(&[]), 0);
    assert_eq!(calculate(&[0x6e, 0x51, 0x82, 0x01, 0x10]), 0xac);
    assert_eq!(calculate(&[0xff, 0x0f]), 0xf0);
}

#[test]
fn verify_needs_bytes_that_cancel() {
    assert!(!verify(&[]));
    assert!(verify(&[0x00]));
    assert!(verify(&[0x12, 0x12]));
    assert!(!verify(&[0x12, 0x13]));
}

#[test]
fn checksum_appended_cancels() {
    let bytes = [0x01u8, 0x80, 0x7f, 0x33];
    let mut with = bytes.to_vec();
    with.push(calculate(&bytes));
    assert!(verify(&with));
}

#[test]
fn feature_codes() {
    assert_eq!(Feature::Brightness.code(), 0x10);
    assert_eq!(Feature::Contrast.code(), 0x12);
    assert_eq!(Feature::InputSource.code(), 0x60);
    assert_eq!(Feature::Volume.code(), 0x62);
    assert_eq!(Feature::Mute.code(), 0x8d);
    assert_eq!(Feature::PowerMode.code(), 0xd6);
    assert_eq!(Feature::Raw(0x14).code(), 0x14);
}

#[test]
fn encode_get_brightness_frame() {
    let bytes = Packet::new(0x01, vec![0x10]).encode();
    assert_eq!(bytes, vec![HOST_ADDRESS, 0x82, 0x01, 0x10, 0xac]);
}

#[test]
fn encoded_frame_checks_out_with_display_address() {
    for payload in [vec![], vec![0x10], vec![0x10, 0x00, 0x32], vec![7u8; 40]] {
        let bytes = Packet::new(0x03, payload.clone()).encode();
        assert_eq!(bytes.len(), payload.len() + 4);
        assert_eq!(bytes[1], 0x80 | (payload.len() as u8 + 1));
        let mut all = vec![DISPLAY_ADDRESS];
        all.extend_from_slice(&bytes);
        assert!(verify(&all));
    }
}

#[test]
fn encode_length_byte_wraps_for_long_payloads() {
    let bytes = Packet::new(0x01, vec![0u8; 255]).encode();
    assert_eq!(bytes[1], 0x80);
    let bytes = Packet::new(0x01, vec![0u8; 127]).encode();
    assert_eq!(bytes[1], 0x80);
    let bytes = Packet::new(0x01, vec![0u8; 128]).encode();
    assert_eq!(bytes[1], 0x81);
}

#[test]
fn decode_gives_back_what_encode_wrote() {
    let bytes = Packet::new(0x01, vec![0x10]).encode();
    assert_eq!(Packet::decode(&bytes).unwrap(), Packet::new(0x01, vec![0x10]));
    assert_eq!(Packet::decode(&[0x51, 0x82, 0x01, 0x10, 0xac]).unwrap(), Packet::new(0x01, vec![0x10]));
    for payload in [vec![], vec![0x10, 0x00, 0x32], vec![9u8; 200]] {
        let packet = Packet::new(0x03, payload);
        assert_eq!(Packet::decode(&packet.encode()).unwrap(), packet);
    }
}

#[test]
fn decode_accepts_either_checksum() {
    // a frame from the host address whose own bytes exclusive-or to zero
    let p = Packet::decode(&[0x51, 0x80, 0xd1]).unwrap();
    assert_eq!((p.command, p.payload), (0xd1, vec![]));
    let frame = reply(HOST_ADDRESS, 0x01, &[0x10]);
    assert_eq!(Packet::decode(&frame).unwrap(), Packet::new(0x01, vec![0x10]));
    // a host frame that fits neither checksum
    let mut bad = Packet::new(0x01, vec![0x10]).encode();
    bad[4] ^= 0x01;
    assert!(matches!(Packet::decode(&bad), Err(Error::InvalidChecksum)));
    // the display-address form is only for host frames
    let mut other = bad.clone();
    other[0] = 0x50;
    other[4] ^= 0x01 ^ 0x50 ^ 0x51;
    assert!(matches!(Packet::decode(&other), Err(Error::InvalidChecksum)));
}

#[test]
fn decode_short_frames() {
    assert!(matches!(Packet::decode(&[]), Err(Error::InvalidPacket)));
    assert!(matches!(Packet::decode(&[0x6e, 0x80]), Err(Error::InvalidPacket)));
    let p = Packet::decode(&[0x6e, 0x6e, 0x00]).unwrap();
    assert_eq!(p.command, 0x00);
    assert!(p.payload.is_empty());
}

#[test]
fn decode_reply_frames() {
    let frame = reply(0x6e, 0x02, &[0x00, 0x10, 0x00, 0x64, 0x00, 0x32]);
    let p = Packet::decode(&frame).unwrap();
    assert_eq!(p.command, 0x02);
    assert_eq!(p.payload, vec![0x00, 0x10, 0x00, 0x64, 0x00, 0x32]);

    let frame = reply(0x50, 0xe3, &[]);
    let p = Packet::decode(&frame).unwrap();
    assert_eq!(p.command, 0xe3);
    assert!(p.payload.is_empty());

    let mut bad = reply(0x6e, 0x02, &[1, 2, 3]);
    bad[3] ^= 0x01;
    assert!(matches!(Packet::decode(&bad), Err(Error::InvalidChecksum)));
}

#[test]
fn command_packets() {
    let p = Command::GetVcp(0x10).into_packet();
    assert_eq!((p.command, p.payload), (0x01, vec![0x10]));
    let p = Command::SetVcp { feature: 0x12, value: 0x1234 }.into_packet();
    assert_eq!((p.command, p.payload), (0x03, vec![0x12, 0x12, 0x34]));
    let p = Command::Capabilities.into_packet();
    assert_eq!((p.command, p.payload), (0xf3, vec![]));
}

#[test]
fn response_from_vcp_packet() {
    let r = Response::from_packet(Packet::new(0x02, vec![0x00, 0x10, 0x01, 0x2c, 0x00, 0x4b])).unwrap();
    match r {
        Response::Vcp(v) => assert_eq!(v, VcpValue { current: 75, maximum: 300 }),
        other => panic!("unexpected {:?}", other),
    }
    assert!(matches!(
        Response::from_packet(Packet::new(0x02, vec![0, 0, 0, 0, 0])),
        Err(Error::InvalidPacket)
    ));
}

#[test]
fn response_capabilities_and_ack() {
    match Response::from_packet(Packet::new(0xe3, b"(prot(monitor))".to_vec())).unwrap() {
        Response::Capabilities(s) => assert_eq!(s, "(prot(monitor))"),
        other => panic!("unexpected {:?}", other),
    }
    match Response::from_packet(Packet::new(0xe3, vec![0x66, 0xff, 0x6f])).unwrap() {
        Response::Capabilities(s) => assert_eq!(s, "f\u{fffd}o"),
        other => panic!("unexpected {:?}", other),
    }
    assert!(matches!(Response::from_packet(Packet::new(0x06, vec![])).unwrap(), Response::Ack));
}

#[test]
fn get_vcp_reads_the_reply() {
    let mut device = DdcDevice::new(scripted(vec![Ok(vcp_reply(0x10, 100, 42))]));
    let v = device.get_vcp(Feature::Brightness).unwrap();
    assert_eq!(v, VcpValue { current: 42, maximum: 100 });
}

#[test]
fn get_vcp_sends_the_read_frame() {
    let mut transport = scripted(vec![Ok(vcp_reply(0x12, 100, 50))]);
    {
        let mut device = DdcDevice::new(&mut transport);
        device.get_vcp(Feature::Contrast).unwrap();
    }
    assert_eq!(transport.requests, vec![Packet::new(0x01, vec![0x12]).encode()]);
}

impl Transport for &mut Scripted {
    fn transact(&mut self, request: &[u8]) -> Result<Vec<u8>, Error> {
        (**self).transact(request)
    }
}

#[test]
fn get_vcp_errors() {
    let mut device = DdcDevice::new(scripted(vec![Ok(reply(0x6e, 0x06, &[]))]));
    assert!(matches!(device.get_vcp(Feature::Brightness), Err(Error::UnexpectedResponse)));
    let mut device = DdcDevice::new(scripted(vec![Err(Error::Timeout)]));
    assert!(matches!(device.get_vcp(Feature::Brightness), Err(Error::Timeout)));
    let mut device = DdcDevice::new(scripted(vec![Ok(vec![0x6e, 0x80])]));
    assert!(matches!(device.get_vcp(Feature::Brightness), Err(Error::InvalidPacket)));
}

#[test]
fn set_vcp_checked_refuses_above_maximum() {
    let mut transport = scripted(vec![Ok(vcp_reply(0x10, 100, 42)), Ok(reply(0x6e, 0x06, &[]))]);
    {
        let mut device = DdcDevice::new(&mut transport);
        match device.set_vcp_checked(Feature::Brightness, 101) {
            Err(Error::ValueOutOfRange { value, maximum, feature }) => {
                assert_eq!((value, maximum, feature), (101, 100, Feature::Brightness));
            }
            other => panic!("unexpected {:?}", other),
        }
    }
    assert_eq!(transport.requests.len(), 1);
}

#[test]
fn set_vcp_checked_writes_within_range() {
    let mut transport = scripted(vec![Ok(vcp_reply(0x10, 100, 42)), Ok(reply(0x6e, 0x06, &[]))]);
    {
        let mut device = DdcDevice::new(&mut transport);
        device.set_vcp_checked(Feature::Brightness, 100).unwrap();
    }
    assert_eq!(transport.requests.len(), 2);
    assert_eq!(transport.requests[1], Packet::new(0x03, vec![0x10, 0x00, 0x64]).encode());
}

#[test]
fn set_vcp_passes_errors_on() {
    let mut device = DdcDevice::new(scripted(vec![Err(Error::NoResponse)]));
    assert!(matches!(device.set_vcp(Feature::Volume, 3), Err(Error::NoResponse)));
    let mut device = DdcDevice::new(scripted(vec![Ok(reply(0x6e, 0x02, &[0, 0]))]));
    assert!(matches!(device.set_vcp(Feature::Volume, 3), Err(Error::InvalidPacket)));
}

#[test]
fn execute_and_transact() {
    let mut device = DdcDevice::new(scripted(vec![Ok(reply(0x6e, 0xe3, b"abc"))]));
    match device.execute(Command::Capabilities).unwrap() {
        Response::Capabilities(s) => assert_eq!(s, "abc"),
        other => panic!("unexpected {:?}", other),
    }
    let mut device = DdcDevice::new(scripted(vec![Ok(reply(0x6e, 0x07, &[9, 8]))]));
    let p = device.transact(Packet::new(0x01, vec![0x10])).unwrap();
    assert_eq!((p.command, p.payload), (0x07, vec![9, 8]));
}

#[test]
fn probe_finds_a_monitor_that_answers() {
    let mut device = DdcDevice::new(scripted(vec![Ok(vcp_reply(0x10, 100, 70))]));
    let found = device.probe(PathBuf::from("/dev/i2c-3")).unwrap();
    assert_eq!(found.path, PathBuf::from("/dev/i2c-3"));
    assert_eq!((found.brightness, found.maximum), (70, 100));
    let mut device = DdcDevice::new(scripted(vec![Err(Error::NoResponse)]));
    assert!(device.probe(PathBuf::from("/dev/i2c-4")).is_none());
}

#[test]
fn trim_reply_cuts_to_the_frame() {
    let frame = vcp_reply(0x10, 100, 70);
    let mut buffer = frame.clone();
    buffer.resize(32, 0xff);
    assert_eq!(trim_reply(buffer), frame);
    assert_eq!(trim_reply(vec![0x6e, 0x85, 0x02]), vec![0x6e, 0x85, 0x02]);
    assert_eq!(trim_reply(vec![0x6e, 0x80]), vec![0x6e, 0x80]);
    assert_eq!(trim_reply(vec![0x6e, 0x80, 0x01, 0x02]), vec![0x6e, 0x80, 0x01]);
}

#[test]
fn find_monitor_takes_the_first() {
    assert!(find_monitor(Vec::new()).is_none());
    let monitors = vec![
        ProbeResult { path: PathBuf::from("/dev/i2c-5"), brightness: 10, maximum: 100 },
        ProbeResult { path: PathBuf::from("/dev/i2c-6"), brightness: 20, maximum: 100 },
    ];
    let first = find_monitor(monitors).unwrap();
    assert_eq!(first.path, PathBuf::from("/dev/i2c-5"));
    assert_eq!(first.brightness, 10);
}

#[test]
fn i2c_device_names() {
    assert!(is_i2c_device_name("i2c-0"));
    assert!(is_i2c_device_name("i2c-"));
    assert!(!is_i2c_device_name("i2c"));
    assert!(!is_i2c_device_name("tty0"));
    assert!(!is_i2c_device_name("xi2c-1"));
}

#[test]
fn read_outcomes() {
    let frame = vcp_reply(0x10, 100, 70);
    let mut buffer = frame.clone();
    buffer.resize(32, 0);
    match read_outcome(1, Ok(buffer)) {
        ReadOutcome::Reply(f) => assert_eq!(f, frame),
        other => panic!("unexpected {:?}", other),
    }
    assert!(matches!(read_outcome(1, Err(Error::Timeout)), ReadOutcome::Retry(Error::Timeout)));
    assert!(matches!(read_outcome(READ_ATTEMPTS - 1, Err(Error::Timeout)), ReadOutcome::Retry(_)));
    assert!(matches!(read_outcome(READ_ATTEMPTS, Err(Error::NoResponse)), ReadOutcome::Failed(Error::NoResponse)));
    assert_eq!(READ_ATTEMPTS, 5);
}

#[test]
fn checksum_ignores_byte_order() {
    let a = [0x6eu8, 0x51, 0x82, 0x01, 0x10];
    let q = [0x10u8, 0x01, 0x6e, 0x82, 0x51];
    assert_eq!(calculate(&a), calculate(&q));
    let mut joined = a.to_vec();
    joined.extend_from_slice(&[0x33, 0x44]);
    assert_eq!(calculate(&joined), calculate(&a) ^ calculate(&[0x33, 0x44]));
}
