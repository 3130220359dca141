//! The raw transport endpoint: its configuration state, receive filtering,
//! and the decisions taken around each send and receive.
//!
//! The kernel calls themselves (creating, binding, writing, reading and
//! setting socket options) are made by the caller; this module decides
//! what is written, what a read result means, and whether a received frame
//! is delivered to the endpoint.
use crate::frame::{decode_spec, encode_spec, CanAnyFrame, DecodeError, FrameView};
use crate::id::ConstructionError;
use vstd::prelude::*;

verus! {

/// A receive filter: a frame with identifier `x` matches when
/// `x & mask == id & mask`.
#[derive(Debug, Clone, Copy, PartialEq, Eq, Structural)]
pub struct CanFilter {
    pub id: u32,
    pub mask: u32,
}

/// `x` matches the filter `f`.
pub open spec fn filter_matches(f: CanFilter, x: u32) -> bool {
    x & f.mask == f.id & f.mask
}

/// A frame with identifier `x` passes a filter list: the list is empty, or
/// one of its filters matches.
pub open spec fn filters_accept(fs: Seq<CanFilter>, x: u32) -> bool {
    fs.len() == 0 || exists|i: int| 0 <= i < fs.len() && filter_matches(#[trigger] fs[i], x)
}

impl CanFilter {
    /// A filter on identifier `id` under `mask`.
    pub fn new(id: u32, mask: u32) -> (r: CanFilter)
        ensures
            r.id == id && r.mask == mask,
    {
        CanFilter { id, mask }
    }

    /// Whether identifier `x` matches this filter.
    pub fn matches(&self, x: u32) -> (r: bool)
        ensures
            r == filter_matches(*self, x),
    {
        x & self.mask == self.id & self.mask
    }
}

/// Whether a frame with identifier `x` passes the filter list `fs`.
pub fn accepts(fs: &[CanFilter], x: u32) -> (r: bool)
    ensures
        r == filters_accept(fs@, x),
{
    if fs.len() == 0 {
        return true;
    }
    let mut i: usize = 0;
    while i < fs.len()
        invariant
            i <= fs.len(),
            forall|j: int| 0 <= j < i ==> !filter_matches(#[trigger] fs@[j], x),
        decreases fs.len() - i,
    {
        if fs[i].matches(x) {
            return true;
        }
        i = i + 1;
    }
    false
}

/// The kind of a failed kernel call, as the caller observed it.
#[derive(Debug, Clone, Copy, PartialEq, Eq, Structural)]
pub enum IoErrorKind {
    /// Non-blocking mode and nothing to do.
    WouldBlock,
    /// A configured timeout elapsed.
    TimedOut,
    /// A signal interrupted the call.
    Interrupted,
    /// Any other failure, with the system error code.
    Other(i32),
}

/// Why an operation on the endpoint failed.
#[derive(Debug, Clone, Copy, PartialEq, Eq, Structural)]
pub enum SocketError {
    /// The endpoint was closed.
    NotOpen,
    /// The frame cannot be sent on this endpoint.
    Construction(ConstructionError),
    /// A received buffer is not a frame.
    Decode(DecodeError),
    /// Nothing happened before the timeout, or in non-blocking mode: not a
    /// failure of the endpoint.
    WouldBlock,
    /// The call was interrupted before it did anything.
    Interrupted,
    /// The kernel wrote fewer bytes than the frame holds.
    ShortWrite { written: usize, expected: usize },
    /// A hard failure, with the system error code.
    Io(i32),
}

/// The error that a failed kernel call gives.
pub open spec fn io_error_spec(k: IoErrorKind) -> SocketError {
    match k {
        IoErrorKind::WouldBlock => SocketError::WouldBlock,
        IoErrorKind::TimedOut => SocketError::WouldBlock,
        IoErrorKind::Interrupted => SocketError::Interrupted,
        IoErrorKind::Other(c) => SocketError::Io(c),
    }
}

impl SocketError {
    /// The error that a failed kernel call gives: an elapsed timeout and an
    /// empty non-blocking endpoint are both `WouldBlock`.
    pub fn from_io(k: IoErrorKind) -> (r: SocketError)
        ensures
            r == io_error_spec(k),
    {
        match k {
            IoErrorKind::WouldBlock => SocketError::WouldBlock,
            IoErrorKind::TimedOut => SocketError::WouldBlock,
            IoErrorKind::Interrupted => SocketError::Interrupted,
            IoErrorKind::Other(c) => SocketError::Io(c),
        }
    }

    /// Whether the same call may simply be made again.
    pub fn should_retry(&self) -> (r: bool)
        ensures
            r == (*self is WouldBlock || *self is Interrupted),
    {
        match self {
            SocketError::WouldBlock => true,
            SocketError::Interrupted => true,
            _ => false,
        }
    }
}

/// The state of one raw endpoint bound to one interface.
#[derive(Debug)]
pub struct CanSocket {
    pub open: bool,
    pub fd_mode: bool,
    pub ifindex: u32,
    pub filters: Vec<CanFilter>,
    pub error_mask: u32,
    pub loopback: bool,
    pub recv_own_msgs: bool,
    pub read_timeout_ms: Option<u64>,
    pub write_timeout_ms: Option<u64>,
    pub nonblocking: bool,
}

/// The endpoint delivers frame `f`: an error frame when its class is in the
/// error mask, any other frame when its identifier passes the filters.
pub open spec fn delivers(s: &CanSocket, f: FrameView) -> bool {
    match f {
        FrameView::Error { class, .. } => class & s.error_mask != 0,
        FrameView::Data { id, .. } => filters_accept(s.filters@, id.address()),
        FrameView::Remote { id, .. } => filters_accept(s.filters@, id.address()),
        FrameView::Fd { id, .. } => filters_accept(s.filters@, id.address()),
    }
}

/// The identifier of a frame other than an error frame.
pub open spec fn frame_address(f: FrameView) -> u32 {
    match f {
        FrameView::Data { id, .. } => id.address(),
        FrameView::Remote { id, .. } => id.address(),
        FrameView::Fd { id, .. } => id.address(),
        FrameView::Error { .. } => 0,
    }
}

/// Under one filter `(id, mask)` an endpoint delivers a frame with address
/// `x` exactly when `x & mask == id & mask`; with no filters it delivers
/// every frame.
pub proof fn lemma_filter_delivery(s: &CanSocket, f: FrameView, flt: CanFilter)
    requires
        !(f is Error),
    ensures
        s.filters@.len() == 0 ==> delivers(s, f),
        s.filters@ == seq![flt] ==> (delivers(s, f) <==> frame_address(f) & flt.mask == flt.id
            & flt.mask),
{
    if s.filters@ == seq![flt] {
        if frame_address(f) & flt.mask == flt.id & flt.mask {
            assert(filter_matches(s.filters@[0], frame_address(f)));
        }
    }
}

/// `t` is the same endpoint as `s`: open or closed alike, on the same
/// interface, in the same FD mode.
pub open spec fn same_identity(s: &CanSocket, t: &CanSocket) -> bool {
    t.open == s.open && t.fd_mode == s.fd_mode && t.ifindex == s.ifindex
}

impl CanSocket {
    /// A freshly bound endpoint on interface `ifindex`: open, no filters
    /// (every frame accepted), no error classes delivered, local loopback
    /// on, own messages not received back, blocking without timeouts.
    pub fn open(ifindex: u32, fd_mode: bool) -> (r: CanSocket)
        ensures
            r.open && r.fd_mode == fd_mode && r.ifindex == ifindex,
            r.filters@.len() == 0,
            r.error_mask == 0,
            r.loopback && !r.recv_own_msgs && !r.nonblocking,
            r.read_timeout_ms is None && r.write_timeout_ms is None,
    {
        CanSocket {
            open: true,
            fd_mode,
            ifindex,
            filters: Vec::new(),
            error_mask: 0,
            loopback: true,
            recv_own_msgs: false,
            read_timeout_ms: None,
            write_timeout_ms: None,
            nonblocking: false,
        }
    }

    /// Releases the endpoint; every later operation fails with `NotOpen`.
    pub fn close(&mut self)
        ensures
            !final(self).open,
            final(self).fd_mode == old(self).fd_mode,
            final(self).ifindex == old(self).ifindex,
    {
        self.open = false;
    }

    /// Replaces the receive filters.
    pub fn set_filters(&mut self, fs: &[CanFilter]) -> (r: Result<(), SocketError>)
        ensures
            old(self).open ==> r is Ok && final(self).filters@ == fs@,
            !old(self).open ==> r == Err::<(), SocketError>(SocketError::NotOpen)
                && final(self).filters@ == old(self).filters@,
            same_identity(old(self), final(self)),
            final(self).error_mask == old(self).error_mask,
    {
        if !self.open {
            return Err(SocketError::NotOpen);
        }
        let mut v: Vec<CanFilter> = Vec::new();
        let mut i: usize = 0;
        while i < fs.len()
            invariant
                i <= fs.len(),
                v@ == fs@.subrange(0, i as int),
            decreases fs.len() - i,
        {
            v.push(fs[i]);
            i = i + 1;
            assert(v@ =~= fs@.subrange(0, i as int));
        }
        assert(fs@.subrange(0, i as int) =~= fs@);
        self.filters = v;
        Ok(())
    }

    /// Sets the error classes delivered as error frames.
    pub fn set_error_mask(&mut self, mask: u32) -> (r: Result<(), SocketError>)
        ensures
            old(self).open ==> r is Ok && final(self).error_mask == mask,
            !old(self).open ==> r == Err::<(), SocketError>(SocketError::NotOpen)
                && final(self).error_mask == old(self).error_mask,
            same_identity(old(self), final(self)),
            final(self).filters@ == old(self).filters@,
    {
        if !self.open {
            return Err(SocketError::NotOpen);
        }
        self.error_mask = mask;
        Ok(())
    }

    /// Sets whether sent frames are looped back to local endpoints.
    pub fn set_loopback(&mut self, on: bool) -> (r: Result<(), SocketError>)
        ensures
            old(self).open ==> r is Ok && final(self).loopback == on,
            !old(self).open ==> r == Err::<(), SocketError>(SocketError::NotOpen)
                && final(self).loopback == old(self).loopback,
            same_identity(old(self), final(self)),
            final(self).filters@ == old(self).filters@,
            final(self).error_mask == old(self).error_mask,
    {
        if !self.open {
            return Err(SocketError::NotOpen);
        }
        self.loopback = on;
        Ok(())
    }

    /// Sets whether this endpoint receives the frames it sent itself.
    pub fn set_recv_own_msgs(&mut self, on: bool) -> (r: Result<(), SocketError>)
        ensures
            old(self).open ==> r is Ok && final(self).recv_own_msgs == on,
            !old(self).open ==> r == Err::<(), SocketError>(SocketError::NotOpen)
                && final(self).recv_own_msgs == old(self).recv_own_msgs,
            same_identity(old(self), final(self)),
            final(self).filters@ == old(self).filters@,
            final(self).error_mask == old(self).error_mask,
    {
        if !self.open {
            return Err(SocketError::NotOpen);
        }
        self.recv_own_msgs = on;
        Ok(())
    }

    /// Bounds blocking reads; `None` blocks without limit.
    pub fn set_read_timeout(&mut self, ms: Option<u64>) -> (r: Result<(), SocketError>)
        ensures
            old(self).open ==> r is Ok && final(self).read_timeout_ms == ms,
            !old(self).open ==> r == Err::<(), SocketError>(SocketError::NotOpen)
                && final(self).read_timeout_ms == old(self).read_timeout_ms,
            same_identity(old(self), final(self)),
            final(self).filters@ == old(self).filters@,
            final(self).error_mask == old(self).error_mask,
    {
        if !self.open {
            return Err(SocketError::NotOpen);
        }
        self.read_timeout_ms = ms;
        Ok(())
    }

    /// Bounds blocking writes; `None` blocks without limit.
    pub fn set_write_timeout(&mut self, ms: Option<u64>) -> (r: Result<(), SocketError>)
        ensures
            old(self).open ==> r is Ok && final(self).write_timeout_ms == ms,
            !old(self).open ==> r == Err::<(), SocketError>(SocketError::NotOpen)
                && final(self).write_timeout_ms == old(self).write_timeout_ms,
            same_identity(old(self), final(self)),
            final(self).filters@ == old(self).filters@,
            final(self).error_mask == old(self).error_mask,
    {
        if !self.open {
            return Err(SocketError::NotOpen);
        }
        self.write_timeout_ms = ms;
        Ok(())
    }

    /// Sets non-blocking mode: calls then return `WouldBlock` at once
    /// instead of waiting.
    pub fn set_nonblocking(&mut self, on: bool) -> (r: Result<(), SocketError>)
        ensures
            old(self).open ==> r is Ok && final(self).nonblocking == on,
            !old(self).open ==> r == Err::<(), SocketError>(SocketError::NotOpen)
                && final(self).nonblocking == old(self).nonblocking,
            same_identity(old(self), final(self)),
            final(self).filters@ == old(self).filters@,
            final(self).error_mask == old(self).error_mask,
    {
        if !self.open {
            return Err(SocketError::NotOpen);
        }
        self.nonblocking = on;
        Ok(())
    }

    /// The bytes to write for frame `f`: its encoding, unless the endpoint
    /// is closed or `f` is an FD frame on an endpoint not opened for FD.
    pub fn prepare_send(&self, f: &CanAnyFrame) -> (r: Result<Vec<u8>, SocketError>)
        requires
            f@.wf(),
        ensures
            !self.open ==> r == Err::<Vec<u8>, SocketError>(SocketError::NotOpen),
            self.open && f@ is Fd && !self.fd_mode ==> r == Err::<Vec<u8>, SocketError>(
                SocketError::Construction(ConstructionError::WrongFrameType),
            ),
            self.open && (self.fd_mode || !(f@ is Fd)) ==> (r matches Ok(b) && b@ == encode_spec(
                f@,
            )),
    {
        if !self.open {
            return Err(SocketError::NotOpen);
        }
        if f.is_fd() && !self.fd_mode {
            return Err(SocketError::Construction(ConstructionError::WrongFrameType));
        }
        Ok(f.encode())
    }

    /// The result of writing a frame of `expected` bytes, of which the
    /// kernel took `written`: a frame is written whole or the send failed.
    pub fn finish_send(&self, written: usize, expected: usize) -> (r: Result<(), SocketError>)
        ensures
            written == expected ==> r is Ok,
            written != expected ==> r == Err::<(), SocketError>(
                SocketError::ShortWrite { written, expected },
            ),
    {
        if written == expected {
            Ok(())
        } else {
            Err(SocketError::ShortWrite { written, expected })
        }
    }

    /// The result of one read that returned `b`: `Ok(None)` when the frame
    /// is not for this endpoint under its filters and error mask, else the
    /// decoded frame. An FD structure counts as a frame only on an FD
    /// endpoint.
    pub fn receive_bytes(&self, b: &[u8]) -> (r: Result<Option<CanAnyFrame>, SocketError>)
        ensures
            !self.open ==> r == Err::<Option<CanAnyFrame>, SocketError>(SocketError::NotOpen),
            self.open && (decode_spec(b@) is None || (!self.fd_mode && b@.len() != 16)) ==> r is Err,
            r matches Ok(Some(f)) ==> self.open && decode_spec(b@) == Some(f@) && delivers(
                self,
                f@,
            ),
            r matches Ok(None) ==> decode_spec(b@) is Some && !delivers(
                self,
                decode_spec(b@).unwrap(),
            ),
            self.open && decode_spec(b@) is Some && (self.fd_mode || b@.len() == 16) ==> r is Ok,
    {
        if !self.open {
            return Err(SocketError::NotOpen);
        }
        if !self.fd_mode && b.len() != crate::frame::CAN_MTU {
            return Err(SocketError::Decode(DecodeError::UnknownSize));
        }
        match CanAnyFrame::decode(b) {
            Err(e) => Err(SocketError::Decode(e)),
            Ok(f) => {
                if self.delivers_frame(&f) {
                    Ok(Some(f))
                } else {
                    Ok(None)
                }
            },
        }
    }

    /// The result of a read that failed: a timeout or an empty non-blocking
    /// endpoint is `WouldBlock`, not a hard failure.
    pub fn receive_failed(&self, k: IoErrorKind) -> (r: SocketError)
        ensures
            !self.open ==> r == SocketError::NotOpen,
            self.open ==> r == io_error_spec(k),
    {
        if !self.open {
            return SocketError::NotOpen;
        }
        SocketError::from_io(k)
    }

    /// Whether this endpoint delivers frame `f`.
    pub fn delivers_frame(&self, f: &CanAnyFrame) -> (r: bool)
        ensures
            r == delivers(self, f@),
    {
        match f {
            CanAnyFrame::Error(e) => e.class & self.error_mask != 0,
            CanAnyFrame::Normal(d) => accepts(self.filters.as_slice(), d.id.as_raw()),
            CanAnyFrame::Remote(d) => accepts(self.filters.as_slice(), d.id.as_raw()),
            CanAnyFrame::Fd(d) => accepts(self.filters.as_slice(), d.id.as_raw()),
        }
    }
}

} // verus!
