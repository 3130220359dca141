use socketcan::frame::{CanAnyFrame, CanDataFrame, CanFdFrame, CanRemoteFrame, DecodeError};
use socketcan::id::{CanId, ConstructionError};
use socketcan::socket::{accepts, CanFilter, CanSocket, IoErrorKind, SocketError};

#[test]
fn fd_frame_refused_without_fd_mode() {
    let s = CanSocket::open(3, false);
    let f = CanAnyFrame::Fd(CanFdFrame::new(CanId::Standard(1), &[1; 16], false, false).unwrap());
    assert_eq!(
        s.prepare_send(&f).unwrap_err(),
        SocketError::Construction(ConstructionError::WrongFrameType)
    );
    let fd = CanSocket::open(3, true);
    assert_eq!(fd.prepare_send(&f).unwrap(), f.encode());
    let c = CanAnyFrame::Normal(CanDataFrame::new(CanId::Standard(1), &[1]).unwrap());
    assert_eq!(s.prepare_send(&c).unwrap().len(), 16);
}

#[test]
fn filters_select_frames() {
    let mut s = CanSocket::open(1, false);
    s.set_filters(&[CanFilter::new(0x123, 0x7FF)]).unwrap();
    let hit = CanAnyFrame::Normal(CanDataFrame::new(CanId::Standard(0x123), &[1]).unwrap());
    let miss = CanAnyFrame::Normal(CanDataFrame::new(CanId::Standard(0x124), &[1]).unwrap());
    assert!(s.receive_bytes(&hit.encode()).unwrap().is_some());
    assert!(s.receive_bytes(&miss.encode()).unwrap().is_none());
}

#[test]
fn filter_rule_and_empty_list() {
    let f = CanFilter::new(0x120, 0x7F0);
    assert!(f.matches(0x12F));
    assert!(!f.matches(0x130));
    assert!(accepts(&[], 0xABC));
    assert!(accepts(&[CanFilter::new(1, 0x7FF), f], 0x125));
    assert!(!accepts(&[CanFilter::new(1, 0x7FF)], 0x125));
}

#[test]
fn error_frames_follow_error_mask() {
    let mut s = CanSocket::open(1, false);
    let b = [0x40, 0, 0, 0x20, 8, 0, 0, 0, 0, 0, 0, 0, 0, 0, 0, 0];
    assert!(s.receive_bytes(&b).unwrap().is_none());
    s.set_error_mask(0x40).unwrap();
    assert!(matches!(s.receive_bytes(&b).unwrap(), Some(CanAnyFrame::Error(_))));
}

#[test]
fn timeout_is_would_block() {
    let mut s = CanSocket::open(1, false);
    s.set_read_timeout(Some(10)).unwrap();
    assert_eq!(s.read_timeout_ms, Some(10));
    let e = s.receive_failed(IoErrorKind::TimedOut);
    assert_eq!(e, SocketError::WouldBlock);
    assert!(e.should_retry());
    assert_eq!(s.receive_failed(IoErrorKind::WouldBlock), SocketError::WouldBlock);
    let hard = s.receive_failed(IoErrorKind::Other(5));
    assert_eq!(hard, SocketError::Io(5));
    assert!(!hard.should_retry());
}

#[test]
fn closed_endpoint_refuses_everything() {
    let mut s = CanSocket::open(1, true);
    s.close();
    assert_eq!(s.set_loopback(false), Err(SocketError::NotOpen));
    assert_eq!(s.set_recv_own_msgs(true), Err(SocketError::NotOpen));
    assert_eq!(s.set_write_timeout(Some(1)), Err(SocketError::NotOpen));
    assert_eq!(s.set_nonblocking(true), Err(SocketError::NotOpen));
    let f = CanAnyFrame::Remote(CanRemoteFrame::new(CanId::Standard(1), 0).unwrap());
    assert_eq!(s.prepare_send(&f).unwrap_err(), SocketError::NotOpen);
    assert_eq!(s.receive_bytes(&f.encode()).unwrap_err(), SocketError::NotOpen);
    assert_eq!(s.receive_failed(IoErrorKind::TimedOut), SocketError::NotOpen);
}

#[test]
fn short_write_fails() {
    let s = CanSocket::open(1, false);
    assert_eq!(s.finish_send(16, 16), Ok(()));
    assert_eq!(
        s.finish_send(8, 16),
        Err(SocketError::ShortWrite { written: 8, expected: 16 })
    );
}

#[test]
fn fd_buffer_on_classic_endpoint() {
    let s = CanSocket::open(1, false);
    let f = CanAnyFrame::Fd(CanFdFrame::new(CanId::Standard(1), &[1; 8], false, false).unwrap());
    assert_eq!(
        s.receive_bytes(&f.encode()).unwrap_err(),
        SocketError::Decode(DecodeError::UnknownSize)
    );
    let s = CanSocket::open(1, true);
    assert!(s.receive_bytes(&f.encode()).unwrap().is_some());
}
