//! The interface configuration channel: message framing, attribute walks,
//! sequence correlation and the bit-timing structure.
//!
//! Every exchange is one request, tagged with a fresh sequence number, and
//! one reply, which must carry the same number. The caller opens the
//! channel, writes the request bytes built here, reads one reply and hands
//! its bytes back for validation.
use crate::frame::{lemma_le32_read, le32, pad, push_le32, read_le32};
use vstd::prelude::*;

verus! {

/// Size of the message header.
pub const NLMSG_HDRLEN: usize = 16;

/// Reply type: an error code, zero for an acknowledgment.
pub const NLMSG_ERROR: u16 = 2;

/// Link message types.
pub const RTM_NEWLINK: u16 = 16;

pub const RTM_GETLINK: u16 = 18;

/// Header flags.
pub const NLM_F_REQUEST: u16 = 0x1;

pub const NLM_F_ACK: u16 = 0x4;

/// Link attributes.
pub const IFLA_IFNAME: u16 = 3;

pub const IFLA_LINKINFO: u16 = 18;

pub const IFLA_INFO_KIND: u16 = 1;

pub const IFLA_INFO_DATA: u16 = 2;

/// CAN link attributes.
pub const IFLA_CAN_BITTIMING: u16 = 1;

pub const IFLA_CAN_CLOCK: u16 = 3;

pub const IFLA_CAN_STATE: u16 = 4;

pub const IFLA_CAN_CTRLMODE: u16 = 5;

/// The administrative up flag of a link.
pub const IFF_UP: u32 = 0x1;

/// The error code the kernel gives for a link that does not exist.
pub const ENODEV: i32 = 19;

/// Why an exchange on the configuration channel failed.
#[derive(Debug, Clone, Copy, PartialEq, Eq, Structural)]
pub enum NlError {
    /// The reply is shorter than its header or its length field says.
    Truncated,
    /// The reply answers another request.
    SeqMismatch { expected: u32, found: u32 },
    /// No interface has the requested name or index.
    NotFound,
    /// The kernel refused the request, with its error code.
    Rejected(i32),
    /// An attribute or structure in the reply is malformed.
    Malformed,
}

/// What a valid reply holds.
#[derive(Debug, Clone, Copy, PartialEq, Eq, Structural)]
pub enum NlReply {
    /// The request was carried out.
    Ack,
    /// A message of type `kind` whose body is `b[16..len]`.
    Message { kind: u16, len: usize },
}

/// One attribute of a message: its type, and where its payload lies.
#[derive(Debug, Clone, Copy, PartialEq, Eq, Structural)]
pub struct NlAttr {
    pub kind: u16,
    pub start: usize,
    pub len: usize,
}

/// The bit-timing parameters of a CAN interface.
#[derive(Debug, Clone, Copy, PartialEq, Eq, Structural)]
pub struct CanBitTiming {
    pub bitrate: u32,
    pub sample_point: u32,
    pub tq: u32,
    pub prop_seg: u32,
    pub phase_seg1: u32,
    pub phase_seg2: u32,
    pub sjw: u32,
    pub brp: u32,
}

/// The two little-endian bytes of `h`.
pub open spec fn le16(h: u16) -> Seq<u8> {
    seq![(h & 0xff) as u8, (h >> 8) as u8]
}

/// The 16-bit word at `pos`.
pub open spec fn u16_at(s: Seq<u8>, pos: int) -> u16 {
    ((s[pos] as u16) | ((s[pos + 1] as u16) << 8)) as u16
}

/// The 32-bit word at `pos`.
pub open spec fn u32_at(s: Seq<u8>, pos: int) -> u32 {
    read_le32(s.subrange(pos, pos + 4))
}

/// `n` rounded up to a multiple of four.
pub open spec fn align4(n: int) -> int {
    (n + 3) / 4 * 4
}

/// The attributes laid out from `pos` up to `end`: each a 16-bit length
/// (header included, at least 4) and a 16-bit type, then the payload, the
/// next one starting at the aligned end of this one.
pub open spec fn attrs_from(s: Seq<u8>, pos: int, end: int) -> Option<Seq<NlAttr>>
    decreases end - pos,
{
    if pos >= end {
        Some(Seq::empty())
    } else if end - pos < 4 {
        None
    } else {
        let len = u16_at(s, pos) as int;
        if len < 4 || pos + len > end {
            None
        } else {
            let next = if pos + align4(len) > end {
                end
            } else {
                pos + align4(len)
            };
            let a = NlAttr { kind: u16_at(s, pos + 2), start: (pos + 4) as usize, len: (len - 4) as usize };
            match attrs_from(s, next, end) {
                None => None,
                Some(rest) => Some(seq![a] + rest),
            }
        }
    }
}

/// `acc` put before the attributes of `o`, if any.
pub open spec fn prepend(acc: Seq<NlAttr>, o: Option<Seq<NlAttr>>) -> Option<Seq<NlAttr>> {
    match o {
        None => None,
        Some(rest) => Some(acc + rest),
    }
}

/// The header bytes of a message.
pub open spec fn header_spec(len: u32, kind: u16, flags: u16, seq: u32, pid: u32) -> Seq<u8> {
    le32(len) + le16(kind) + le16(flags) + le32(seq) + le32(pid)
}

/// What the reply `s` to the request numbered `seq` means.
pub open spec fn reply_spec(s: Seq<u8>, seq: u32) -> Result<NlReply, NlError> {
    if s.len() < 16 || u32_at(s, 0) < 16 || u32_at(s, 0) > s.len() {
        Err(NlError::Truncated)
    } else if u32_at(s, 8) != seq {
        Err(NlError::SeqMismatch { expected: seq, found: u32_at(s, 8) })
    } else if u16_at(s, 4) == NLMSG_ERROR {
        if u32_at(s, 0) < 20 {
            Err(NlError::Truncated)
        } else if u32_at(s, 16) == 0 {
            Ok(NlReply::Ack)
        } else if u32_at(s, 16) as i32 == -ENODEV {
            Err(NlError::NotFound)
        } else {
            Err(NlError::Rejected(u32_at(s, 16) as i32))
        }
    } else {
        Ok(NlReply::Message { kind: u16_at(s, 4), len: u32_at(s, 0) as usize })
    }
}

/// The 32 bytes of a bit-timing structure.
pub open spec fn bittiming_spec(t: CanBitTiming) -> Seq<u8> {
    le32(t.bitrate) + le32(t.sample_point) + le32(t.tq) + le32(t.prop_seg) + le32(t.phase_seg1)
        + le32(t.phase_seg2) + le32(t.sjw) + le32(t.brp)
}

/// The bit-timing structure held by the 32 bytes at `pos`.
pub open spec fn bittiming_at(s: Seq<u8>, pos: int) -> CanBitTiming {
    CanBitTiming {
        bitrate: u32_at(s, pos),
        sample_point: u32_at(s, pos + 4),
        tq: u32_at(s, pos + 8),
        prop_seg: u32_at(s, pos + 12),
        phase_seg1: u32_at(s, pos + 16),
        phase_seg2: u32_at(s, pos + 20),
        sjw: u32_at(s, pos + 24),
        brp: u32_at(s, pos + 28),
    }
}

fn u16_at_exec(b: &[u8], pos: usize) -> (r: u16)
    requires
        pos + 2 <= b.len(),
    ensures
        r == u16_at(b@, pos as int),
{
    ((b[pos] as u16) | ((b[pos + 1] as u16) << 8)) as u16
}

fn u32_at_exec(b: &[u8], pos: usize) -> (r: u32)
    requires
        pos + 4 <= b.len(),
    ensures
        r == u32_at(b@, pos as int),
{
    let r = (b[pos] as u32) | ((b[pos + 1] as u32) << 8) | ((b[pos + 2] as u32) << 16) | ((b[pos
        + 3] as u32) << 24);
    assert(b@.subrange(pos as int, pos + 4)[0] == b@[pos as int]);
    assert(b@.subrange(pos as int, pos + 4)[1] == b@[pos + 1]);
    assert(b@.subrange(pos as int, pos + 4)[2] == b@[pos + 2]);
    assert(b@.subrange(pos as int, pos + 4)[3] == b@[pos + 3]);
    r
}

fn push_le16(v: &mut Vec<u8>, h: u16)
    requires
        old(v).len() + 2 <= usize::MAX,
    ensures
        final(v)@ == old(v)@ + le16(h),
{
    v.push((h & 0xff) as u8);
    v.push((h >> 8) as u8);
    assert(v@ =~= old(v)@ + le16(h));
}

/// The attributes laid out in `b[start..end]`; `None` when one of them
/// runs past `end` or has a length below its own header.
pub fn parse_attrs(b: &[u8], start: usize, end: usize) -> (r: Option<Vec<NlAttr>>)
    requires
        start <= end <= b.len(),
    ensures
        r matches Some(v) ==> attrs_from(b@, start as int, end as int) == Some(v@),
        r is None ==> attrs_from(b@, start as int, end as int) is None,
{
    let mut acc: Vec<NlAttr> = Vec::new();
    let mut pos: usize = start;
    while pos < end
        invariant
            start <= pos <= end <= b.len(),
            attrs_from(b@, start as int, end as int) == prepend(
                acc@,
                attrs_from(b@, pos as int, end as int),
            ),
        decreases end - pos,
    {
        if end - pos < 4 {
            return None;
        }
        let len = u16_at_exec(b, pos) as usize;
        if len < 4 || len > end - pos {
            return None;
        }
        let aligned: usize = (len + 3) / 4 * 4;
        let next: usize = if aligned > end - pos {
            end
        } else {
            pos + aligned
        };
        let a = NlAttr { kind: u16_at_exec(b, pos + 2), start: pos + 4, len: len - 4 };
        proof {
            let rest = attrs_from(b@, next as int, end as int);
            assert(attrs_from(b@, pos as int, end as int) == match rest {
                None => None,
                Some(r) => Some(seq![a] + r),
            });
            match rest {
                None => {},
                Some(r) => {
                    assert(acc@ + (seq![a] + r) =~= acc@.push(a) + r);
                },
            }
        }
        acc.push(a);
        pos = next;
    }
    assert(acc@ + Seq::<NlAttr>::empty() =~= acc@);
    Some(acc)
}

/// The first attribute of type `kind` in `attrs`, if any.
pub open spec fn first_of(attrs: Seq<NlAttr>, kind: u16) -> Option<NlAttr>
    decreases attrs.len(),
{
    if attrs.len() == 0 {
        None
    } else if attrs[0].kind == kind {
        Some(attrs[0])
    } else {
        first_of(attrs.drop_first(), kind)
    }
}

/// Every attribute of a walk lies inside the walked range.
proof fn lemma_attrs_in_bounds(s: Seq<NlAttr>, b: Seq<u8>, pos: int, end: int)
    requires
        attrs_from(b, pos, end) == Some(s),
        0 <= pos,
    ensures
        forall|i: int| 0 <= i < s.len() ==> (#[trigger] s[i]).start + s[i].len <= end,
    decreases end - pos,
{
    if pos < end {
        let len = u16_at(b, pos) as int;
        let next = if pos + align4(len) > end {
            end
        } else {
            pos + align4(len)
        };
        let rest = attrs_from(b, next, end).unwrap();
        lemma_attrs_in_bounds(rest, b, next, end);
        assert forall|i: int| 0 <= i < s.len() implies (#[trigger] s[i]).start + s[i].len <= end by {
            if i > 0 {
                assert(s[i] == rest[i - 1]);
            }
        }
    }
}

/// The first attribute of type `kind` in `attrs`, if any.
pub fn find_attr(attrs: &[NlAttr], kind: u16) -> (r: Option<NlAttr>)
    ensures
        r == first_of(attrs@, kind),
{
    let mut i: usize = 0;
    assert(attrs@.subrange(0, attrs.len() as int) =~= attrs@);
    while i < attrs.len()
        invariant
            i <= attrs.len(),
            first_of(attrs@, kind) == first_of(attrs@.subrange(i as int, attrs.len() as int), kind),
        decreases attrs.len() - i,
    {
        let ghost tail = attrs@.subrange(i as int, attrs.len() as int);
        assert(tail[0] == attrs@[i as int]);
        assert(tail.drop_first() =~= attrs@.subrange(i + 1, attrs.len() as int));
        if attrs[i].kind == kind {
            return Some(attrs[i]);
        }
        i = i + 1;
    }
    None
}

/// A request message: the header, then `body`.
pub fn build_request(kind: u16, flags: u16, seq: u32, body: &[u8]) -> (r: Vec<u8>)
    requires
        body.len() + 16 <= u32::MAX,
    ensures
        r@ == header_spec((body.len() + 16) as u32, kind, flags, seq, 0) + body@,
{
    let mut v: Vec<u8> = Vec::new();
    push_le32(&mut v, (body.len() + NLMSG_HDRLEN) as u32);
    push_le16(&mut v, kind);
    push_le16(&mut v, flags);
    push_le32(&mut v, seq);
    push_le32(&mut v, 0);
    let mut i: usize = 0;
    let ghost head = v@;
    while i < body.len()
        invariant
            i <= body.len(),
            head.len() == 16,
            v@ == head + body@.subrange(0, i as int),
        decreases body.len() - i,
    {
        v.push(body[i]);
        i = i + 1;
        assert(v@ =~= head + body@.subrange(0, i as int));
    }
    assert(body@.subrange(0, i as int) =~= body@);
    assert(head =~= header_spec((body.len() + 16) as u32, kind, flags, seq, 0));
    v
}

/// Validates the reply `b` to the request numbered `seq`: its header must
/// be whole and carry the same number; an error message becomes an
/// acknowledgment, `NotFound`, or the kernel's refusal.
pub fn parse_reply(b: &[u8], seq: u32) -> (r: Result<NlReply, NlError>)
    ensures
        r == reply_spec(b@, seq),
{
    if b.len() < NLMSG_HDRLEN {
        return Err(NlError::Truncated);
    }
    let len = u32_at_exec(b, 0);
    if len < 16 || len as usize > b.len() {
        return Err(NlError::Truncated);
    }
    let found = u32_at_exec(b, 8);
    if found != seq {
        return Err(NlError::SeqMismatch { expected: seq, found });
    }
    let kind = u16_at_exec(b, 4);
    if kind == NLMSG_ERROR {
        if len < 20 {
            return Err(NlError::Truncated);
        }
        let code = u32_at_exec(b, 16);
        if code == 0 {
            Ok(NlReply::Ack)
        } else if code as i32 == -ENODEV {
            Err(NlError::NotFound)
        } else {
            Err(NlError::Rejected(code as i32))
        }
    } else {
        Ok(NlReply::Message { kind, len: len as usize })
    }
}

/// The 32 wire bytes of a bit-timing structure.
pub fn encode_bittiming(t: &CanBitTiming) -> (r: Vec<u8>)
    ensures
        r@ == bittiming_spec(*t),
{
    let mut v: Vec<u8> = Vec::new();
    push_le32(&mut v, t.bitrate);
    push_le32(&mut v, t.sample_point);
    push_le32(&mut v, t.tq);
    push_le32(&mut v, t.prop_seg);
    push_le32(&mut v, t.phase_seg1);
    push_le32(&mut v, t.phase_seg2);
    push_le32(&mut v, t.sjw);
    push_le32(&mut v, t.brp);
    assert(v@ =~= bittiming_spec(*t));
    v
}

/// The bit-timing structure at `b[pos..pos + 32]`.
pub fn decode_bittiming(b: &[u8], pos: usize) -> (r: CanBitTiming)
    requires
        pos + 32 <= b.len(),
    ensures
        r == bittiming_at(b@, pos as int),
{
    CanBitTiming {
        bitrate: u32_at_exec(b, pos),
        sample_point: u32_at_exec(b, pos + 4),
        tq: u32_at_exec(b, pos + 8),
        prop_seg: u32_at_exec(b, pos + 12),
        phase_seg1: u32_at_exec(b, pos + 16),
        phase_seg2: u32_at_exec(b, pos + 20),
        sjw: u32_at_exec(b, pos + 24),
        brp: u32_at_exec(b, pos + 28),
    }
}

/// Decoding the bytes of a bit-timing structure gives it back.
pub proof fn lemma_bittiming_round_trip(t: CanBitTiming)
    ensures
        bittiming_at(bittiming_spec(t), 0) == t,
{
    let s = bittiming_spec(t);
    assert(s.subrange(0, 4) =~= le32(t.bitrate));
    assert(s.subrange(4, 8) =~= le32(t.sample_point));
    assert(s.subrange(8, 12) =~= le32(t.tq));
    assert(s.subrange(12, 16) =~= le32(t.prop_seg));
    assert(s.subrange(16, 20) =~= le32(t.phase_seg1));
    assert(s.subrange(20, 24) =~= le32(t.phase_seg2));
    assert(s.subrange(24, 28) =~= le32(t.sjw));
    assert(s.subrange(28, 32) =~= le32(t.brp));
    lemma_le32_read(t.bitrate);
    lemma_le32_read(t.sample_point);
    lemma_le32_read(t.tq);
    lemma_le32_read(t.prop_seg);
    lemma_le32_read(t.phase_seg1);
    lemma_le32_read(t.phase_seg2);
    lemma_le32_read(t.sjw);
    lemma_le32_read(t.brp);
}

/// The bytes of one attribute: its length (header included), its type, and
/// its payload padded to a multiple of four.
pub open spec fn attr_spec(kind: u16, payload: Seq<u8>) -> Seq<u8> {
    le16((payload.len() + 4) as u16) + le16(kind) + pad(payload, align4(payload.len() as int) as nat)
}

/// The fixed link header of a link message: family and type zero, then the
/// interface index, the flags and the mask of flags to change.
pub open spec fn ifinfo_spec(index: u32, flags: u32, change: u32) -> Seq<u8> {
    seq![0u8, 0u8, 0u8, 0u8] + le32(index) + le32(flags) + le32(change)
}

/// The kind string of CAN links, with its terminating zero.
pub open spec fn can_kind() -> Seq<u8> {
    seq![0x63u8, 0x61u8, 0x6eu8, 0u8]
}

/// The body of a request that sets the bit timing of link `index`.
pub open spec fn set_bittiming_body(index: u32, t: CanBitTiming) -> Seq<u8> {
    ifinfo_spec(index, 0, 0) + attr_spec(
        IFLA_LINKINFO,
        attr_spec(IFLA_INFO_KIND, can_kind()) + attr_spec(
            IFLA_INFO_DATA,
            attr_spec(IFLA_CAN_BITTIMING, bittiming_spec(t)),
        ),
    )
}

/// The body of a request that sets the control mode of link `index`.
pub open spec fn set_ctrlmode_body(index: u32, mask: u32, flags: u32) -> Seq<u8> {
    ifinfo_spec(index, 0, 0) + attr_spec(
        IFLA_LINKINFO,
        attr_spec(IFLA_INFO_KIND, can_kind()) + attr_spec(
            IFLA_INFO_DATA,
            attr_spec(IFLA_CAN_CTRLMODE, le32(mask) + le32(flags)),
        ),
    )
}

fn push_bytes(v: &mut Vec<u8>, b: &[u8])
    requires
        old(v).len() + b.len() <= usize::MAX,
    ensures
        final(v)@ == old(v)@ + b@,
{
    let ghost head = v@;
    let mut i: usize = 0;
    while i < b.len()
        invariant
            i <= b.len(),
            head.len() + b.len() <= usize::MAX,
            v@ == head + b@.subrange(0, i as int),
        decreases b.len() - i,
    {
        v.push(b[i]);
        i = i + 1;
        assert(v@ =~= head + b@.subrange(0, i as int));
    }
    assert(b@.subrange(0, i as int) =~= b@);
}

/// Appends one attribute with the given payload.
fn push_attr(v: &mut Vec<u8>, kind: u16, payload: &[u8])
    requires
        payload.len() + 4 <= 0xFFFF,
        old(v).len() + payload.len() + 8 <= usize::MAX,
    ensures
        final(v)@ == old(v)@ + attr_spec(kind, payload@),
{
    let ghost head = v@;
    push_le16(v, (payload.len() + 4) as u16);
    push_le16(v, kind);
    let ghost mid = v@;
    let mut i: usize = 0;
    let n: usize = (payload.len() + 3) / 4 * 4;
    while i < payload.len()
        invariant
            i <= payload.len() <= n,
            n == align4(payload.len() as int),
            mid.len() + n <= usize::MAX,
            v@ == mid + payload@.subrange(0, i as int),
        decreases payload.len() - i,
    {
        v.push(payload[i]);
        i = i + 1;
        assert(v@ =~= mid + payload@.subrange(0, i as int));
    }
    assert(payload@.subrange(0, i as int) =~= payload@);
    while i < n
        invariant
            payload.len() <= i <= n,
            mid.len() + n <= usize::MAX,
            v@ == mid + payload@ + Seq::new((i - payload.len()) as nat, |k: int| 0u8),
        decreases n - i,
    {
        v.push(0u8);
        i = i + 1;
        assert(v@ =~= mid + payload@ + Seq::new((i - payload.len()) as nat, |k: int| 0u8));
    }
    assert(v@ =~= head + attr_spec(kind, payload@));
}

fn ifinfo(index: u32, flags: u32, change: u32) -> (r: Vec<u8>)
    ensures
        r@ == ifinfo_spec(index, flags, change),
{
    let mut v: Vec<u8> = Vec::new();
    v.push(0u8);
    v.push(0u8);
    v.push(0u8);
    v.push(0u8);
    push_le32(&mut v, index);
    push_le32(&mut v, flags);
    push_le32(&mut v, change);
    assert(v@ =~= ifinfo_spec(index, flags, change));
    v
}

/// The request that asks for the link named `name` (without a terminating
/// zero); its reply carries the interface index.
pub fn resolve_request(seq: u32, name: &[u8]) -> (r: Vec<u8>)
    requires
        name.len() <= 0xFF00,
    ensures
        r@ == header_spec(
            (16 + 16 + attr_spec(IFLA_IFNAME, name@.push(0u8)).len()) as u32,
            RTM_GETLINK,
            NLM_F_REQUEST,
            seq,
            0,
        ) + ifinfo_spec(0, 0, 0) + attr_spec(IFLA_IFNAME, name@.push(0u8)),
{
    let mut body = ifinfo(0, 0, 0);
    let mut z: Vec<u8> = Vec::new();
    push_bytes(&mut z, name);
    z.push(0u8);
    assert(z@ =~= name@.push(0u8));
    push_attr(&mut body, IFLA_IFNAME, z.as_slice());
    let r = build_request(RTM_GETLINK, NLM_F_REQUEST, seq, body.as_slice());
    assert(r@ =~= header_spec(
        (16 + 16 + attr_spec(IFLA_IFNAME, name@.push(0u8)).len()) as u32,
        RTM_GETLINK,
        NLM_F_REQUEST,
        seq,
        0,
    ) + ifinfo_spec(0, 0, 0) + attr_spec(IFLA_IFNAME, name@.push(0u8)));
    r
}

/// The request that asks for the configuration of link `index`.
pub fn get_link_request(seq: u32, index: u32) -> (r: Vec<u8>)
    ensures
        r@ == header_spec(32, RTM_GETLINK, NLM_F_REQUEST, seq, 0) + ifinfo_spec(index, 0, 0),
{
    let body = ifinfo(index, 0, 0);
    build_request(RTM_GETLINK, NLM_F_REQUEST, seq, body.as_slice())
}

/// The request that brings link `index` administratively up or down.
pub fn set_state_request(seq: u32, index: u32, up: bool) -> (r: Vec<u8>)
    ensures
        r@ == header_spec(32, RTM_NEWLINK, NLM_F_REQUEST | NLM_F_ACK, seq, 0) + ifinfo_spec(
            index,
            if up {
                IFF_UP
            } else {
                0
            },
            IFF_UP,
        ),
{
    let body = ifinfo(
        index,
        if up {
            IFF_UP
        } else {
            0
        },
        IFF_UP,
    );
    build_request(RTM_NEWLINK, NLM_F_REQUEST | NLM_F_ACK, seq, body.as_slice())
}

/// Nests a CAN data attribute into the link info of a link message body.
fn link_info_body(index: u32, data_attr: &[u8]) -> (r: Vec<u8>)
    requires
        data_attr.len() <= 0x100,
    ensures
        r@ == ifinfo_spec(index, 0, 0) + attr_spec(
            IFLA_LINKINFO,
            attr_spec(IFLA_INFO_KIND, can_kind()) + attr_spec(IFLA_INFO_DATA, data_attr@),
        ),
{
    let mut kind: Vec<u8> = Vec::new();
    kind.push(0x63u8);
    kind.push(0x61u8);
    kind.push(0x6eu8);
    kind.push(0u8);
    assert(kind@ =~= can_kind());
    let mut info: Vec<u8> = Vec::new();
    push_attr(&mut info, IFLA_INFO_KIND, kind.as_slice());
    push_attr(&mut info, IFLA_INFO_DATA, data_attr);
    assert(info@ =~= attr_spec(IFLA_INFO_KIND, can_kind()) + attr_spec(IFLA_INFO_DATA, data_attr@));
    let mut body = ifinfo(index, 0, 0);
    push_attr(&mut body, IFLA_LINKINFO, info.as_slice());
    body
}

/// The request that sets the bit timing of link `index`; the kernel
/// refuses it while the link is up.
pub fn set_bittiming_request(seq: u32, index: u32, t: &CanBitTiming) -> (r: Vec<u8>)
    ensures
        r@ == header_spec(
            (16 + set_bittiming_body(index, *t).len()) as u32,
            RTM_NEWLINK,
            NLM_F_REQUEST | NLM_F_ACK,
            seq,
            0,
        ) + set_bittiming_body(index, *t),
{
    let bt = encode_bittiming(t);
    let mut data: Vec<u8> = Vec::new();
    push_attr(&mut data, IFLA_CAN_BITTIMING, bt.as_slice());
    let body = link_info_body(index, data.as_slice());
    assert(body@ =~= set_bittiming_body(index, *t));
    build_request(RTM_NEWLINK, NLM_F_REQUEST | NLM_F_ACK, seq, body.as_slice())
}

/// The request that sets the control mode flags under `mask` of link
/// `index`.
pub fn set_ctrlmode_request(seq: u32, index: u32, mask: u32, flags: u32) -> (r: Vec<u8>)
    ensures
        r@ == header_spec(
            (16 + set_ctrlmode_body(index, mask, flags).len()) as u32,
            RTM_NEWLINK,
            NLM_F_REQUEST | NLM_F_ACK,
            seq,
            0,
        ) + set_ctrlmode_body(index, mask, flags),
{
    let mut cm: Vec<u8> = Vec::new();
    push_le32(&mut cm, mask);
    push_le32(&mut cm, flags);
    let mut data: Vec<u8> = Vec::new();
    push_attr(&mut data, IFLA_CAN_CTRLMODE, cm.as_slice());
    let body = link_info_body(index, data.as_slice());
    assert(body@ =~= set_ctrlmode_body(index, mask, flags));
    build_request(RTM_NEWLINK, NLM_F_REQUEST | NLM_F_ACK, seq, body.as_slice())
}

/// The control mode of a link: which flags the mask covers, and their
/// values.
#[derive(Debug, Clone, Copy, PartialEq, Eq, Structural)]
pub struct CanCtrlMode {
    pub mask: u32,
    pub flags: u32,
}

/// The operational state of a CAN controller.
#[derive(Debug, Clone, Copy, PartialEq, Eq, Structural)]
pub enum CanState {
    ErrorActive,
    ErrorWarning,
    ErrorPassive,
    BusOff,
    Stopped,
    Sleeping,
    /// A state code this library does not know, kept as it came.
    Other(u32),
}

/// The state that a state code names.
pub open spec fn state_spec(code: u32) -> CanState {
    if code == 0 {
        CanState::ErrorActive
    } else if code == 1 {
        CanState::ErrorWarning
    } else if code == 2 {
        CanState::ErrorPassive
    } else if code == 3 {
        CanState::BusOff
    } else if code == 4 {
        CanState::Stopped
    } else if code == 5 {
        CanState::Sleeping
    } else {
        CanState::Other(code)
    }
}

impl CanState {
    /// The state that the kernel's state code names.
    pub fn from_code(code: u32) -> (r: CanState)
        ensures
            r == state_spec(code),
    {
        match code {
            0 => CanState::ErrorActive,
            1 => CanState::ErrorWarning,
            2 => CanState::ErrorPassive,
            3 => CanState::BusOff,
            4 => CanState::Stopped,
            5 => CanState::Sleeping,
            _ => CanState::Other(code),
        }
    }
}

/// Control mode flag: the controller loops frames back internally.
pub const CAN_CTRLMODE_LOOPBACK: u32 = 0x01;

/// Control mode flag: listen only, never acknowledge or send.
pub const CAN_CTRLMODE_LISTENONLY: u32 = 0x02;

/// Control mode flag: sample each bit three times.
pub const CAN_CTRLMODE_3_SAMPLES: u32 = 0x04;

/// Control mode flag: no automatic retransmission.
pub const CAN_CTRLMODE_ONE_SHOT: u32 = 0x08;

/// Control mode flag: report bus errors as error frames.
pub const CAN_CTRLMODE_BERR_REPORTING: u32 = 0x10;

/// Control mode flag: FD frames enabled.
pub const CAN_CTRLMODE_FD: u32 = 0x20;

impl CanCtrlMode {
    /// Whether the mode covers `flag` and turns it on.
    pub fn is_on(&self, flag: u32) -> (r: bool)
        ensures
            r == (self.mask & flag != 0 && self.flags & flag != 0),
    {
        self.mask & flag != 0 && self.flags & flag != 0
    }
}

/// A snapshot of a CAN link's configuration; a part the reply does not
/// carry is `None`.
#[derive(Debug, Clone, Copy, PartialEq, Eq, Structural)]
pub struct CanConfig {
    pub up: bool,
    pub bittiming: Option<CanBitTiming>,
    pub ctrlmode: Option<CanCtrlMode>,
    pub state: Option<CanState>,
    pub clock: Option<u32>,
}

/// What the CAN data attributes `cans` of a link whose up flag is `up`
/// give.
pub open spec fn can_config_spec(b: Seq<u8>, up: bool, cans: Seq<NlAttr>) -> CanConfig {
    CanConfig {
        up,
        bittiming: match first_of(cans, IFLA_CAN_BITTIMING) {
            Some(a) if a.len >= 32 => Some(bittiming_at(b, a.start as int)),
            _ => None,
        },
        ctrlmode: match first_of(cans, IFLA_CAN_CTRLMODE) {
            Some(a) if a.len >= 8 => Some(
                CanCtrlMode { mask: u32_at(b, a.start as int), flags: u32_at(b, a.start + 4) },
            ),
            _ => None,
        },
        state: match first_of(cans, IFLA_CAN_STATE) {
            Some(a) if a.len >= 4 => Some(state_spec(u32_at(b, a.start as int))),
            _ => None,
        },
        clock: match first_of(cans, IFLA_CAN_CLOCK) {
            Some(a) if a.len >= 4 => Some(u32_at(b, a.start as int)),
            _ => None,
        },
    }
}

/// A snapshot with only the up flag.
pub open spec fn bare_config(up: bool) -> CanConfig {
    CanConfig { up, bittiming: None, ctrlmode: None, state: None, clock: None }
}

/// The configuration that a link message `b[..len]` describes: the up flag
/// of its link header, and the CAN data nested in its link info; `None`
/// when an attribute walk fails.
pub open spec fn config_spec(b: Seq<u8>, len: int) -> Option<CanConfig> {
    let up = u32_at(b, 24) & IFF_UP != 0;
    match attrs_from(b, 32, len) {
        None => None,
        Some(top) => match first_of(top, IFLA_LINKINFO) {
            None => Some(bare_config(up)),
            Some(li) => match attrs_from(b, li.start as int, li.start + li.len) {
                None => None,
                Some(info) => match first_of(info, IFLA_INFO_DATA) {
                    None => Some(bare_config(up)),
                    Some(d) => match attrs_from(b, d.start as int, d.start + d.len) {
                        None => None,
                        Some(cans) => Some(can_config_spec(b, up, cans)),
                    },
                },
            },
        },
    }
}

/// The interface index that the reply to a resolve request names.
pub fn resolve_reply(b: &[u8], seq: u32) -> (r: Result<u32, NlError>)
    ensures
        r == match reply_spec(b@, seq) {
            Err(e) => Err(e),
            Ok(NlReply::Ack) => Err(NlError::Malformed),
            Ok(NlReply::Message { kind, len }) => if kind == RTM_NEWLINK && len >= 32 {
                Ok(u32_at(b@, 20))
            } else {
                Err(NlError::Malformed)
            },
        },
{
    match parse_reply(b, seq) {
        Err(e) => Err(e),
        Ok(NlReply::Ack) => Err(NlError::Malformed),
        Ok(NlReply::Message { kind, len }) => {
            if kind == RTM_NEWLINK && len >= 32 {
                Ok(u32_at_exec(b, 20))
            } else {
                Err(NlError::Malformed)
            }
        },
    }
}

fn can_config(b: &[u8], up: bool, cans: &[NlAttr], end: usize) -> (r: CanConfig)
    requires
        end <= b.len(),
        forall|i: int| 0 <= i < cans.len() ==> (#[trigger] cans@[i]).start + cans@[i].len <= end,
    ensures
        r == can_config_spec(b@, up, cans@),
{
    proof {
        lemma_first_of_member(cans@, IFLA_CAN_BITTIMING);
        lemma_first_of_member(cans@, IFLA_CAN_CTRLMODE);
        lemma_first_of_member(cans@, IFLA_CAN_STATE);
        lemma_first_of_member(cans@, IFLA_CAN_CLOCK);
    }
    let bittiming = match find_attr(cans, IFLA_CAN_BITTIMING) {
        Some(a) if a.len >= 32 => Some(decode_bittiming(b, a.start)),
        _ => None,
    };
    let ctrlmode = match find_attr(cans, IFLA_CAN_CTRLMODE) {
        Some(a) if a.len >= 8 => Some(
            CanCtrlMode { mask: u32_at_exec(b, a.start), flags: u32_at_exec(b, a.start + 4) },
        ),
        _ => None,
    };
    let state = match find_attr(cans, IFLA_CAN_STATE) {
        Some(a) if a.len >= 4 => Some(CanState::from_code(u32_at_exec(b, a.start))),
        _ => None,
    };
    let clock = match find_attr(cans, IFLA_CAN_CLOCK) {
        Some(a) if a.len >= 4 => Some(u32_at_exec(b, a.start)),
        _ => None,
    };
    CanConfig { up, bittiming, ctrlmode, state, clock }
}

/// The first attribute of a type is one of the attributes.
proof fn lemma_first_of_member(attrs: Seq<NlAttr>, kind: u16)
    ensures
        first_of(attrs, kind) matches Some(a) ==> exists|i: int|
            0 <= i < attrs.len() && attrs[i] == a,
    decreases attrs.len(),
{
    if attrs.len() > 0 && attrs[0].kind != kind {
        lemma_first_of_member(attrs.drop_first(), kind);
        if first_of(attrs, kind) is Some {
            let i = choose|i: int|
                0 <= i < attrs.drop_first().len() && attrs.drop_first()[i] == first_of(
                    attrs,
                    kind,
                ).unwrap();
            assert(attrs[i + 1] == first_of(attrs, kind).unwrap());
        }
    } else if attrs.len() > 0 {
        assert(attrs[0] == first_of(attrs, kind).unwrap());
    }
}

/// Walks the attributes of `b[start..end]`, mapping a failed walk to
/// `Malformed`.
fn walk(b: &[u8], start: usize, end: usize) -> (r: Result<Vec<NlAttr>, NlError>)
    requires
        start <= end <= b.len(),
    ensures
        r matches Ok(v) ==> attrs_from(b@, start as int, end as int) == Some(v@) && forall|i: int|
            0 <= i < v.len() ==> (#[trigger] v@[i]).start + v@[i].len <= end,
        r is Err ==> attrs_from(b@, start as int, end as int) is None && r == Err::<
            Vec<NlAttr>,
            NlError,
        >(NlError::Malformed),
{
    match parse_attrs(b, start, end) {
        Some(v) => {
            proof {
                lemma_attrs_in_bounds(v@, b@, start as int, end as int);
            }
            Ok(v)
        },
        None => Err(NlError::Malformed),
    }
}

/// The configuration snapshot that the reply to a get-link request
/// carries.
pub fn config_reply(b: &[u8], seq: u32) -> (r: Result<CanConfig, NlError>)
    ensures
        r == match reply_spec(b@, seq) {
            Err(e) => Err(e),
            Ok(NlReply::Ack) => Err(NlError::Malformed),
            Ok(NlReply::Message { kind, len }) => if kind == RTM_NEWLINK && len >= 32 {
                match config_spec(b@, len as int) {
                    Some(c) => Ok(c),
                    None => Err(NlError::Malformed),
                }
            } else {
                Err(NlError::Malformed)
            },
        },
{
    let len = match parse_reply(b, seq) {
        Err(e) => {
            return Err(e);
        },
        Ok(NlReply::Ack) => {
            return Err(NlError::Malformed);
        },
        Ok(NlReply::Message { kind, len }) => {
            if kind != RTM_NEWLINK || len < 32 {
                return Err(NlError::Malformed);
            }
            len
        },
    };
    let up = u32_at_exec(b, 24) & IFF_UP != 0;
    let top = walk(b, 32, len)?;
    proof {
        lemma_first_of_member(top@, IFLA_LINKINFO);
    }
    let li = match find_attr(top.as_slice(), IFLA_LINKINFO) {
        None => {
            return Ok(CanConfig { up, bittiming: None, ctrlmode: None, state: None, clock: None });
        },
        Some(a) => a,
    };
    let info = walk(b, li.start, li.start + li.len)?;
    proof {
        lemma_first_of_member(info@, IFLA_INFO_DATA);
    }
    let d = match find_attr(info.as_slice(), IFLA_INFO_DATA) {
        None => {
            return Ok(CanConfig { up, bittiming: None, ctrlmode: None, state: None, clock: None });
        },
        Some(a) => a,
    };
    let cans = walk(b, d.start, d.start + d.len)?;
    Ok(can_config(b, up, cans.as_slice(), d.start + d.len))
}

proof fn lemma_u16_le16(s: Seq<u8>, pos: int, h: u16)
    requires
        0 <= pos,
        pos + 2 <= s.len(),
        s.subrange(pos, pos + 2) == le16(h),
    ensures
        u16_at(s, pos) == h,
{
    assert(s[pos] == s.subrange(pos, pos + 2)[0]);
    assert(s[pos + 1] == s.subrange(pos, pos + 2)[1]);
    let b0 = (h & 0xff) as u8;
    let b1 = (h >> 8) as u8;
    assert(((b0 as u16) | ((b1 as u16) << 8)) as u16 == h) by (bit_vector)
        requires
            b0 == (h & 0xff) as u8,
            b1 == (h >> 8) as u8,
    ;
}

/// A walk that starts at an attribute takes it, then walks on from its
/// aligned end.
proof fn lemma_attr_cons(s: Seq<u8>, pos: int, end: int, kind: u16, p: Seq<u8>)
    requires
        0 <= pos,
        p.len() + 4 <= 0xFFFF,
        p.len() % 4 == 0,
        pos + p.len() + 4 <= end <= s.len(),
        s.subrange(pos, pos + p.len() + 4) == attr_spec(kind, p),
    ensures
        attrs_from(s, pos, end) == prepend(
            seq![NlAttr { kind, start: (pos + 4) as usize, len: p.len() as usize }],
            attrs_from(s, pos + p.len() + 4, end),
        ),
{
    let a = attr_spec(kind, p);
    assert(align4(p.len() as int) == p.len());
    assert(align4(p.len() + 4int) == p.len() + 4);
    assert(s.subrange(pos, pos + 2) =~= a.subrange(0, 2));
    assert(a.subrange(0, 2) =~= le16((p.len() + 4) as u16));
    lemma_u16_le16(s, pos, (p.len() + 4) as u16);
    assert(s.subrange(pos + 2, pos + 4) =~= a.subrange(2, 4));
    assert(a.subrange(2, 4) =~= le16(kind));
    lemma_u16_le16(s, pos + 2, kind);
    match attrs_from(s, pos + p.len() + 4, end) {
        None => {},
        Some(rest) => {
            assert(seq![NlAttr { kind, start: (pos + 4) as usize, len: p.len() as usize }] + rest
                =~= seq![NlAttr { kind, start: (pos + 4) as usize, len: p.len() as usize }] + rest);
        },
    }
}

proof fn lemma_bittiming_at_sub(b: Seq<u8>, pos: int, t: CanBitTiming)
    requires
        0 <= pos,
        pos + 32 <= b.len(),
        b.subrange(pos, pos + 32) == bittiming_spec(t),
    ensures
        bittiming_at(b, pos) == t,
{
    let bs = bittiming_spec(t);
    lemma_bittiming_round_trip(t);
    assert(b.subrange(pos, pos + 4) =~= bs.subrange(0, 4));
    assert(b.subrange(pos + 4, pos + 8) =~= bs.subrange(4, 8));
    assert(b.subrange(pos + 8, pos + 12) =~= bs.subrange(8, 12));
    assert(b.subrange(pos + 12, pos + 16) =~= bs.subrange(12, 16));
    assert(b.subrange(pos + 16, pos + 20) =~= bs.subrange(16, 20));
    assert(b.subrange(pos + 20, pos + 24) =~= bs.subrange(20, 24));
    assert(b.subrange(pos + 24, pos + 28) =~= bs.subrange(24, 28));
    assert(b.subrange(pos + 28, pos + 32) =~= bs.subrange(28, 32));
}

/// The byte layout of a link message carrying a set-bit-timing body.
proof fn lemma_set_body_layout(hdr: Seq<u8>, index: u32, t: CanBitTiming)
    requires
        hdr.len() == 16,
    ensures
        ({
            let b = hdr + set_bittiming_body(index, t);
            let bt_attr = attr_spec(IFLA_CAN_BITTIMING, bittiming_spec(t));
            let info = attr_spec(IFLA_INFO_KIND, can_kind()) + attr_spec(IFLA_INFO_DATA, bt_attr);
            &&& b.len() == 84
            &&& info.len() == 48
            &&& bt_attr.len() == 36
            &&& b.subrange(32, 84) == attr_spec(IFLA_LINKINFO, info)
            &&& b.subrange(36, 44) == attr_spec(IFLA_INFO_KIND, can_kind())
            &&& b.subrange(44, 84) == attr_spec(IFLA_INFO_DATA, bt_attr)
            &&& b.subrange(48, 84) == bt_attr
            &&& b.subrange(52, 84) == bittiming_spec(t)
        }),
{
    let b = hdr + set_bittiming_body(index, t);
    let bt = bittiming_spec(t);
    let bt_attr = attr_spec(IFLA_CAN_BITTIMING, bt);
    let kind_attr = attr_spec(IFLA_INFO_KIND, can_kind());
    let data_attr = attr_spec(IFLA_INFO_DATA, bt_attr);
    let info = kind_attr + data_attr;
    let li_attr = attr_spec(IFLA_LINKINFO, info);
    assert(bt.len() == 32);
    assert(align4(32) == 32);
    assert(bt_attr.len() == 36);
    assert(align4(36) == 36);
    assert(align4(4) == 4);
    assert(data_attr.len() == 40);
    assert(kind_attr.len() == 8);
    assert(align4(48) == 48);
    assert(li_attr.len() == 52);
    assert(b.len() == 84);
    assert(b.subrange(32, 84) =~= li_attr);
    assert(li_attr.subrange(4, 52) =~= info);
    assert(b.subrange(36, 44) =~= kind_attr);
    assert(b.subrange(44, 84) =~= data_attr);
    assert(data_attr.subrange(4, 40) =~= bt_attr);
    assert(b.subrange(48, 84) =~= bt_attr);
    assert(bt_attr.subrange(4, 36) =~= bt);
    assert(b.subrange(52, 84) =~= bt);
}

/// The walk of a link message laid out as a set-bit-timing body finds
/// the bit timing.
proof fn lemma_walk_set_body(b: Seq<u8>, t: CanBitTiming, info: Seq<u8>, bt_attr: Seq<u8>)
    requires
        b.len() == 84,
        info.len() == 48,
        bt_attr.len() == 36,
        bt_attr == attr_spec(IFLA_CAN_BITTIMING, bittiming_spec(t)),
        b.subrange(32, 84) == attr_spec(IFLA_LINKINFO, info),
        b.subrange(36, 44) == attr_spec(IFLA_INFO_KIND, can_kind()),
        b.subrange(44, 84) == attr_spec(IFLA_INFO_DATA, bt_attr),
        b.subrange(48, 84) == bt_attr,
        b.subrange(52, 84) == bittiming_spec(t),
    ensures
        config_spec(b, 84) matches Some(c) && c.bittiming == Some(t),
{
    let bt = bittiming_spec(t);
    lemma_attr_cons(b, 32, 84, IFLA_LINKINFO, info);
    assert(attrs_from(b, 84, 84) == Some(Seq::<NlAttr>::empty()));
    let li = NlAttr { kind: IFLA_LINKINFO, start: 36usize, len: 48usize };
    assert(seq![li] + Seq::<NlAttr>::empty() =~= seq![li]);
    assert(attrs_from(b, 32, 84) == Some(seq![li]));
    assert(first_of(seq![li], IFLA_LINKINFO) == Some(li));
    assert(can_kind().len() == 4);
    lemma_attr_cons(b, 36, 84, IFLA_INFO_KIND, can_kind());
    lemma_attr_cons(b, 44, 84, IFLA_INFO_DATA, bt_attr);
    let ka = NlAttr { kind: IFLA_INFO_KIND, start: 40usize, len: 4usize };
    let da = NlAttr { kind: IFLA_INFO_DATA, start: 48usize, len: 36usize };
    assert(seq![da] + Seq::<NlAttr>::empty() =~= seq![da]);
    assert(attrs_from(b, 44, 84) == Some(seq![da]));
    assert(seq![ka] + seq![da] =~= seq![ka, da]);
    assert(attrs_from(b, 36, 84) == Some(seq![ka, da]));
    assert(seq![ka, da].drop_first() =~= seq![da]);
    assert(first_of(seq![da], IFLA_INFO_DATA) == Some(da));
    assert(first_of(seq![ka, da], IFLA_INFO_DATA) == Some(da));
    assert(bt.len() == 32);
    lemma_attr_cons(b, 48, 84, IFLA_CAN_BITTIMING, bt);
    let ba = NlAttr { kind: IFLA_CAN_BITTIMING, start: 52usize, len: 32usize };
    assert(seq![ba] + Seq::<NlAttr>::empty() =~= seq![ba]);
    assert(attrs_from(b, 48, 84) == Some(seq![ba]));
    assert(first_of(seq![ba], IFLA_CAN_BITTIMING) == Some(ba));
    lemma_bittiming_at_sub(b, 52, t);
}

/// Setting and then getting the bit timing gives it back: a link message
/// whose body is that of a set-bit-timing request describes a CAN link
/// with exactly that bit timing.
pub proof fn lemma_set_get_bittiming(hdr: Seq<u8>, index: u32, t: CanBitTiming)
    requires
        hdr.len() == 16,
    ensures
        config_spec(hdr + set_bittiming_body(index, t), 84) matches Some(c) && c.bittiming == Some(
            t,
        ),
{
    let bt_attr = attr_spec(IFLA_CAN_BITTIMING, bittiming_spec(t));
    let info = attr_spec(IFLA_INFO_KIND, can_kind()) + attr_spec(IFLA_INFO_DATA, bt_attr);
    lemma_set_body_layout(hdr, index, t);
    lemma_walk_set_body(hdr + set_bittiming_body(index, t), t, info, bt_attr);
}

} // verus!
