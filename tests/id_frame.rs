use socketcan::errors::{decode_error, CanErrorReport, ErrorCounters, ProtocolViolation};
use socketcan::frame::{CanAnyFrame, CanDataFrame, CanFdFrame, CanRemoteFrame, DecodeError};
use socketcan::id::{CanId, ConstructionError};
use std::cmp::Ordering;

#[test]
fn standard_id_bounds() {
    assert_eq!(CanId::standard(0), Ok(CanId::Standard(0)));
    assert_eq!(CanId::standard(0x7FF), Ok(CanId::Standard(0x7FF)));
    assert_eq!(CanId::standard(0x800), Err(ConstructionError::IdTooLarge));
    assert!(!CanId::standard(0x123).unwrap().is_extended());
    assert_eq!(CanId::standard(0x123).unwrap().as_raw(), 0x123);
}

#[test]
fn extended_id_bounds() {
    assert_eq!(CanId::extended(0x1FFF_FFFF), Ok(CanId::Extended(0x1FFF_FFFF)));
    assert_eq!(CanId::extended(0x2000_0000), Err(ConstructionError::IdTooLarge));
    assert!(CanId::extended(5).unwrap().is_extended());
    assert_eq!(CanId::from_raw(0x7FF), Ok(CanId::Standard(0x7FF)));
    assert_eq!(CanId::from_raw(0x800), Ok(CanId::Extended(0x800)));
    assert_eq!(CanId::from_raw(u32::MAX), Err(ConstructionError::IdTooLarge));
}

#[test]
fn priority_order() {
    let a = CanId::Standard(0x100);
    let b = CanId::Standard(0x101);
    assert_eq!(a.priority_cmp(&b), Ordering::Less);
    assert_eq!(b.priority_cmp(&a), Ordering::Greater);
    assert_eq!(a.priority_cmp(&a), Ordering::Equal);
    // Same numeric value: the extended identifier 0x100 has base bits 0.
    let e = CanId::Extended(0x100);
    assert_eq!(e.priority_cmp(&a), Ordering::Less);
    assert_ne!(e, a);
    // Same base bits: the standard identifier wins over the extended one.
    let s = CanId::Standard(1);
    let x = CanId::Extended(1 << 18);
    assert_eq!(s.priority_cmp(&x), Ordering::Less);
    let mut ids = vec![b, x, a, e, s];
    ids.sort_by(|p, q| p.priority_cmp(q));
    assert_eq!(ids, vec![e, s, x, a, b]);
}

#[test]
fn data_frame_length_limit() {
    let id = CanId::Standard(0x10);
    assert!(CanDataFrame::new(id, &[0; 8]).is_ok());
    assert_eq!(CanDataFrame::new(id, &[0; 9]).unwrap_err(), ConstructionError::TooMuchData);
    assert_eq!(CanDataFrame::new(id, &[1, 2, 3]).unwrap().data, vec![1, 2, 3]);
    assert!(CanRemoteFrame::new(id, 8).is_ok());
    assert_eq!(CanRemoteFrame::new(id, 9).unwrap_err(), ConstructionError::TooMuchData);
}

#[test]
fn fd_frame_lengths() {
    let id = CanId::Extended(0x1234);
    for n in 0..=70usize {
        let data = vec![0xAAu8; n];
        let r = CanFdFrame::new(id, &data, false, false);
        let allowed = n <= 8 || [12, 16, 20, 24, 32, 48, 64].contains(&n);
        assert_eq!(r.is_ok(), allowed, "length {}", n);
        if n > 64 {
            assert_eq!(r.unwrap_err(), ConstructionError::TooMuchData);
        } else if !allowed {
            assert_eq!(r.unwrap_err(), ConstructionError::InvalidFdLength);
        }
    }
    let f = CanFdFrame::new(id, &[1; 12], true, false).unwrap();
    assert!(f.is_brs());
    assert!(!f.is_esi());
    assert_eq!(f.flags, 0x05);
}

#[test]
fn encode_data_frame_layout() {
    let f = CanAnyFrame::Normal(CanDataFrame::new(CanId::Standard(0x123), &[0xDE, 0xAD]).unwrap());
    let b = f.encode();
    assert_eq!(b, vec![0x23, 0x01, 0, 0, 2, 0, 0, 0, 0xDE, 0xAD, 0, 0, 0, 0, 0, 0]);
    let e = CanAnyFrame::Normal(CanDataFrame::new(CanId::Extended(0x1ABCDEF0), &[]).unwrap());
    assert_eq!(&e.encode()[0..5], &[0xF0, 0xDE, 0xBC, 0x9A, 0]);
    let r = CanAnyFrame::Remote(CanRemoteFrame::new(CanId::Standard(0x7FF), 3).unwrap());
    assert_eq!(r.encode(), vec![0xFF, 0x07, 0, 0x40, 3, 0, 0, 0, 0, 0, 0, 0, 0, 0, 0, 0]);
}

#[test]
fn encode_fd_frame_layout() {
    let f = CanAnyFrame::Fd(CanFdFrame::new(CanId::Standard(0x42), &[7; 12], true, true).unwrap());
    let b = f.encode();
    assert_eq!(b.len(), 72);
    assert_eq!(&b[0..8], &[0x42, 0, 0, 0, 12, 0x07, 0, 0]);
    assert!(b[8..20].iter().all(|&x| x == 7));
    assert!(b[20..].iter().all(|&x| x == 0));
}

#[test]
fn round_trip_each_variant() {
    let frames = vec![
        CanAnyFrame::Normal(CanDataFrame::new(CanId::Standard(0x123), &[1, 2, 3, 4, 5]).unwrap()),
        CanAnyFrame::Normal(CanDataFrame::new(CanId::Extended(0x1FFF_FFFF), &[9; 8]).unwrap()),
        CanAnyFrame::Remote(CanRemoteFrame::new(CanId::Extended(0x55), 4).unwrap()),
        CanAnyFrame::Fd(CanFdFrame::new(CanId::Extended(0x1000), &[3; 64], false, true).unwrap()),
    ];
    for f in frames {
        let b = f.encode();
        let g = CanAnyFrame::decode(&b).unwrap();
        assert_eq!(g.encode(), b);
        assert_eq!(format!("{:?}", g), format!("{:?}", f));
    }
}

#[test]
fn decode_error_frame_buffer() {
    let b = [0x40, 0, 0, 0x20, 8, 0, 0, 0, 0, 0, 0, 0, 0, 0, 0, 0];
    match CanAnyFrame::decode(&b).unwrap() {
        CanAnyFrame::Error(e) => {
            assert_eq!(e.class, 0x40);
            assert!(e.report().bus_off);
        }
        other => panic!("not an error frame: {:?}", other),
    }
    assert_eq!(CanAnyFrame::decode(&b).unwrap().encode(), b.to_vec());
}

#[test]
fn decode_rejects_bad_buffers() {
    assert_eq!(CanAnyFrame::decode(&[0; 15]).unwrap_err(), DecodeError::UnknownSize);
    assert_eq!(CanAnyFrame::decode(&[]).unwrap_err(), DecodeError::UnknownSize);
    let mut b = [0u8; 16];
    b[4] = 9;
    assert_eq!(CanAnyFrame::decode(&b).unwrap_err(), DecodeError::Malformed);
    let mut b = [0u8; 16];
    b[4] = 2;
    b[12] = 1;
    assert_eq!(CanAnyFrame::decode(&b).unwrap_err(), DecodeError::Malformed);
    let mut b = [0u8; 16];
    b[1] = 0x08;
    assert_eq!(CanAnyFrame::decode(&b).unwrap_err(), DecodeError::Malformed);
    let mut b = [0u8; 72];
    b[4] = 9;
    assert_eq!(CanAnyFrame::decode(&b).unwrap_err(), DecodeError::Malformed);
}

#[test]
fn error_decoding_all_fields() {
    let d = [1, 2, 3, 4, 5, 6, 7, 8];
    let r = decode_error(0x3FF | 0x1000_0000, &d);
    assert_eq!(
        r,
        CanErrorReport {
            tx_timeout: true,
            lost_arbitration: Some(1),
            controller: Some(2),
            protocol: Some(ProtocolViolation { kind: 3, location: 4 }),
            transceiver: Some(5),
            no_ack: true,
            bus_off: true,
            bus_error: true,
            restarted: true,
            counters: Some(ErrorCounters { tx: 7, rx: 8 }),
            unrecognized: 0x1000_0000,
        }
    );
    let z = decode_error(0, &d);
    assert_eq!(z.lost_arbitration, None);
    assert_eq!(z.unrecognized, 0);
    assert!(!z.bus_off);
    let u = decode_error(0xFFFF_FFFF, &[0; 8]);
    assert_eq!(u.unrecognized, 0xFFFF_FC00);
}
