use socketcan::nl::{
    config_reply, decode_bittiming, encode_bittiming, get_link_request, parse_attrs, parse_reply,
    resolve_reply, resolve_request, set_bittiming_request, set_state_request, CanBitTiming,
    CanState, NlAttr, NlError, NlReply, IFLA_CAN_BITTIMING, IFLA_INFO_DATA, IFLA_LINKINFO, RTM_GETLINK,
    RTM_NEWLINK, CAN_CTRLMODE_FD, CAN_CTRLMODE_LISTENONLY, CAN_CTRLMODE_LOOPBACK, CanCtrlMode,
    set_ctrlmode_request,
};

fn header(len: u32, kind: u16, flags: u16, seq: u32) -> Vec<u8> {
    let mut v = Vec::new();
    v.extend_from_slice(&len.to_le_bytes());
    v.extend_from_slice(&kind.to_le_bytes());
    v.extend_from_slice(&flags.to_le_bytes());
    v.extend_from_slice(&seq.to_le_bytes());
    v.extend_from_slice(&0u32.to_le_bytes());
    v
}

fn error_reply(seq: u32, code: i32) -> Vec<u8> {
    let mut v = header(36, 2, 0, seq);
    v.extend_from_slice(&code.to_le_bytes());
    v.extend_from_slice(&[0; 16]);
    v
}

fn attr(kind: u16, payload: &[u8]) -> Vec<u8> {
    let mut v = Vec::new();
    v.extend_from_slice(&((payload.len() + 4) as u16).to_le_bytes());
    v.extend_from_slice(&kind.to_le_bytes());
    v.extend_from_slice(payload);
    while v.len() % 4 != 0 {
        v.push(0);
    }
    v
}

fn timing() -> CanBitTiming {
    CanBitTiming {
        bitrate: 500_000,
        sample_point: 875,
        tq: 125,
        prop_seg: 6,
        phase_seg1: 7,
        phase_seg2: 2,
        sjw: 1,
        brp: 1,
    }
}

fn link_reply(seq: u32, index: u32, up: bool, attrs: &[u8]) -> Vec<u8> {
    let mut body = vec![0u8, 0, 0, 0];
    body.extend_from_slice(&index.to_le_bytes());
    body.extend_from_slice(&(if up { 1u32 } else { 0 }).to_le_bytes());
    body.extend_from_slice(&0u32.to_le_bytes());
    body.extend_from_slice(attrs);
    let mut v = header((16 + body.len()) as u32, RTM_NEWLINK, 0, seq);
    v.extend_from_slice(&body);
    v
}

#[test]
fn resolve_unknown_name_is_not_found() {
    let req = resolve_request(7, b"nonexistent0");
    assert_eq!(&req[4..6], &RTM_GETLINK.to_le_bytes());
    assert_eq!(u32::from_le_bytes([req[0], req[1], req[2], req[3]]) as usize, req.len());
    assert_eq!(&req[36..49], b"nonexistent0\0");
    assert_eq!(resolve_reply(&error_reply(7, -19), 7), Err(NlError::NotFound));
}

#[test]
fn resolve_reads_index() {
    let r = link_reply(9, 4, false, &[]);
    assert_eq!(resolve_reply(&r, 9), Ok(4));
    assert_eq!(
        resolve_reply(&r, 10),
        Err(NlError::SeqMismatch { expected: 10, found: 9 })
    );
}

#[test]
fn reply_kinds() {
    assert_eq!(parse_reply(&error_reply(1, 0), 1), Ok(NlReply::Ack));
    assert_eq!(parse_reply(&error_reply(1, -16), 1), Err(NlError::Rejected(-16)));
    assert_eq!(parse_reply(&[0; 10], 1), Err(NlError::Truncated));
    let mut long = header(100, 16, 0, 1);
    long.extend_from_slice(&[0; 16]);
    assert_eq!(parse_reply(&long, 1), Err(NlError::Truncated));
    let msg = link_reply(3, 1, true, &[]);
    assert_eq!(parse_reply(&msg, 3), Ok(NlReply::Message { kind: RTM_NEWLINK, len: 32 }));
}

#[test]
fn bittiming_round_trip() {
    let t = timing();
    let b = encode_bittiming(&t);
    assert_eq!(b.len(), 32);
    assert_eq!(&b[0..4], &500_000u32.to_le_bytes());
    assert_eq!(decode_bittiming(&b, 0), t);
}

#[test]
fn bitrate_round_trips_through_set_and_get() {
    let t = timing();
    let req = set_bittiming_request(5, 2, &t);
    assert_eq!(u32::from_le_bytes([req[0], req[1], req[2], req[3]]) as usize, req.len());
    assert_eq!(&req[4..6], &RTM_NEWLINK.to_le_bytes());
    // The attributes of the request, as the kernel would echo them back.
    let attrs = &req[32..];
    let reply = link_reply(6, 2, false, attrs);
    let c = config_reply(&reply, 6).unwrap();
    assert!(!c.up);
    assert_eq!(c.bittiming, Some(t));
    assert_eq!(c.bittiming.unwrap().bitrate, 500_000);
    assert_eq!(c.ctrlmode, None);
}

#[test]
fn config_without_link_info() {
    let reply = link_reply(1, 2, true, &attr(3, b"can0\0"));
    let c = config_reply(&reply, 1).unwrap();
    assert!(c.up);
    assert_eq!(c.bittiming, None);
    assert_eq!(c.state, None);
}

#[test]
fn config_reads_state_and_ctrlmode() {
    let mut cans = attr(4, &3u32.to_le_bytes());
    let mut cm = 0x2u32.to_le_bytes().to_vec();
    cm.extend_from_slice(&0x2u32.to_le_bytes());
    cans.extend(attr(5, &cm));
    cans.extend(attr(3, &80_000_000u32.to_le_bytes()));
    let mut info = attr(1, b"can\0");
    info.extend(attr(IFLA_INFO_DATA, &cans));
    let reply = link_reply(2, 3, true, &attr(IFLA_LINKINFO, &info));
    let c = config_reply(&reply, 2).unwrap();
    assert_eq!(c.state, Some(CanState::BusOff));
    assert_eq!(c.clock, Some(80_000_000));
    assert_eq!(c.ctrlmode.unwrap().flags, 2);
    assert!(c.ctrlmode.unwrap().is_on(CAN_CTRLMODE_LISTENONLY));
    assert!(!c.ctrlmode.unwrap().is_on(CAN_CTRLMODE_LOOPBACK));
}

#[test]
fn attribute_walk() {
    let mut b = attr(1, &[1, 2, 3]);
    b.extend(attr(IFLA_CAN_BITTIMING, &[]));
    b.extend(attr(9, &[7; 8]));
    let v = parse_attrs(&b, 0, b.len()).unwrap();
    assert_eq!(
        v,
        vec![
            NlAttr { kind: 1, start: 4, len: 3 },
            NlAttr { kind: 1, start: 12, len: 0 },
            NlAttr { kind: 9, start: 16, len: 8 },
        ]
    );
    assert_eq!(parse_attrs(&b, 0, 2), None);
    let bad = [2u8, 0, 1, 0];
    assert_eq!(parse_attrs(&bad, 0, 4), None);
}

#[test]
fn state_and_get_requests() {
    let up = set_state_request(1, 4, true);
    assert_eq!(up.len(), 32);
    assert_eq!(&up[24..32], &[1, 0, 0, 0, 1, 0, 0, 0]);
    let down = set_state_request(1, 4, false);
    assert_eq!(&down[24..32], &[0, 0, 0, 0, 1, 0, 0, 0]);
    let get = get_link_request(8, 4);
    assert_eq!(&get[8..12], &8u32.to_le_bytes());
    assert_eq!(&get[20..24], &4u32.to_le_bytes());
}

#[test]
fn state_codes() {
    assert_eq!(CanState::from_code(0), CanState::ErrorActive);
    assert_eq!(CanState::from_code(4), CanState::Stopped);
    assert_eq!(CanState::from_code(42), CanState::Other(42));
}

#[test]
fn ctrlmode_round_trips_through_set_and_get() {
    let req = set_ctrlmode_request(3, 2, CAN_CTRLMODE_FD, CAN_CTRLMODE_FD);
    assert_eq!(u32::from_le_bytes([req[0], req[1], req[2], req[3]]) as usize, req.len());
    let reply = link_reply(4, 2, false, &req[32..]);
    let c = config_reply(&reply, 4).unwrap();
    assert_eq!(c.ctrlmode, Some(CanCtrlMode { mask: 0x20, flags: 0x20 }));
    assert!(c.ctrlmode.unwrap().is_on(CAN_CTRLMODE_FD));
    assert_eq!(c.bittiming, None);
}
