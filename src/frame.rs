//! Frame variants and their exact kernel wire layout.
//!
//! A classic frame (data, remote or error) travels as a 16-byte structure:
//! the identifier word (address with the format, remote and error flags,
//! little-endian), the length byte, three reserved zero bytes, and an
//! 8-byte data area padded with zeros. An FD frame travels as a 72-byte
//! structure: the identifier word, the length byte, the FD flag byte, two
//! reserved zero bytes and a 64-byte data area padded with zeros.
use crate::id::{CanId, ConstructionError, EFF_MASK};
use vstd::prelude::*;

verus! {

/// Identifier word flag: extended (29-bit) format.
pub const EFF_FLAG: u32 = 0x8000_0000;

/// Identifier word flag: remote transmission request.
pub const RTR_FLAG: u32 = 0x4000_0000;

/// Identifier word flag: error frame.
pub const ERR_FLAG: u32 = 0x2000_0000;

/// Size of a classic frame on the wire.
pub const CAN_MTU: usize = 16;

/// Size of an FD frame on the wire.
pub const CANFD_MTU: usize = 72;

/// Largest payload of a classic frame.
pub const CAN_MAX_DLEN: usize = 8;

/// Largest payload of an FD frame.
pub const CANFD_MAX_DLEN: usize = 64;

/// FD flag: bit-rate switch for the data phase.
pub const CANFD_BRS: u8 = 0x01;

/// FD flag: error state indicator of the sender.
pub const CANFD_ESI: u8 = 0x02;

/// FD flag: marks the structure as an FD frame.
pub const CANFD_FDF: u8 = 0x04;

/// Why a byte buffer is not a frame.
#[derive(Debug, Clone, Copy, PartialEq, Eq, Structural)]
pub enum DecodeError {
    /// The buffer has neither the classic nor the FD frame size.
    UnknownSize,
    /// A length, flag, reserved byte or padding byte is out of place.
    Malformed,
}

/// The mathematical content of a frame.
pub enum FrameView {
    Data { id: CanId, data: Seq<u8> },
    Remote { id: CanId, dlc: u8 },
    Error { class: u32, data: Seq<u8> },
    Fd { id: CanId, flags: u8, data: Seq<u8> },
}

/// A classic data frame: up to 8 payload bytes.
#[derive(Debug, Clone)]
pub struct CanDataFrame {
    pub id: CanId,
    pub data: Vec<u8>,
}

/// A classic remote frame: asks for `dlc` bytes under its identifier.
#[derive(Debug, Clone, Copy)]
pub struct CanRemoteFrame {
    pub id: CanId,
    pub dlc: u8,
}

/// An error frame: an error-class bitmask and eight detail bytes.
#[derive(Debug, Clone, Copy)]
pub struct CanErrorFrame {
    pub class: u32,
    pub data: [u8; 8],
}

/// An FD frame: a payload of one of the permitted lengths up to 64 bytes,
/// and the FD flag byte.
#[derive(Debug, Clone)]
pub struct CanFdFrame {
    pub id: CanId,
    pub flags: u8,
    pub data: Vec<u8>,
}

/// Any frame that a raw endpoint sends or receives.
#[derive(Debug, Clone)]
pub enum CanAnyFrame {
    Normal(CanDataFrame),
    Remote(CanRemoteFrame),
    Error(CanErrorFrame),
    Fd(CanFdFrame),
}

/// The payload lengths that an FD frame can carry.
pub open spec fn fd_len_ok(n: int) -> bool {
    (0 <= n <= 8) || n == 12 || n == 16 || n == 20 || n == 24 || n == 32 || n == 48 || n == 64
}

impl FrameView {
    pub open spec fn wf(self) -> bool {
        match self {
            FrameView::Data { id, data } => id.wf() && data.len() <= 8,
            FrameView::Remote { id, dlc } => id.wf() && dlc <= 8,
            FrameView::Error { class, data } => class <= 0x1FFF_FFFF && data.len() == 8,
            FrameView::Fd { id, flags, data } => id.wf() && flags <= 7 && fd_len_ok(
                data.len() as int,
            ),
        }
    }
}

impl View for CanAnyFrame {
    type V = FrameView;

    open spec fn view(&self) -> FrameView {
        match self {
            CanAnyFrame::Normal(f) => FrameView::Data { id: f.id, data: f.data@ },
            CanAnyFrame::Remote(f) => FrameView::Remote { id: f.id, dlc: f.dlc },
            CanAnyFrame::Error(f) => FrameView::Error { class: f.class, data: f.data@ },
            CanAnyFrame::Fd(f) => FrameView::Fd { id: f.id, flags: f.flags, data: f.data@ },
        }
    }
}

/// The four little-endian bytes of `w`.
pub open spec fn le32(w: u32) -> Seq<u8> {
    seq![(w & 0xff) as u8, ((w >> 8) & 0xff) as u8, ((w >> 16) & 0xff) as u8, (w >> 24) as u8]
}

/// The word whose little-endian bytes start `s`.
pub open spec fn read_le32(s: Seq<u8>) -> u32 {
    (s[0] as u32) | ((s[1] as u32) << 8) | ((s[2] as u32) << 16) | ((s[3] as u32) << 24)
}

/// `n` zero bytes.
pub open spec fn zeros(n: nat) -> Seq<u8> {
    Seq::new(n, |i: int| 0u8)
}

/// `data` followed by zeros up to `n` bytes.
pub open spec fn pad(data: Seq<u8>, n: nat) -> Seq<u8> {
    data + zeros((n - data.len()) as nat)
}

/// The identifier word of `id`: its address, with the format flag for the
/// extended form.
pub open spec fn id_word(id: CanId) -> u32 {
    match id {
        CanId::Standard(a) => a as u32,
        CanId::Extended(a) => a | EFF_FLAG,
    }
}

/// The identifier that a word names, looking at the format flag and the
/// 29 address bits; a standard word with bits above the 11th is invalid.
pub open spec fn id_from_word(w: u32) -> Option<CanId> {
    if w & EFF_FLAG != 0 {
        Some(CanId::Extended(w & EFF_MASK))
    } else if w & EFF_MASK <= 0x7FF {
        Some(CanId::Standard((w & EFF_MASK) as u16))
    } else {
        None
    }
}

/// The wire bytes of a frame.
pub open spec fn encode_spec(f: FrameView) -> Seq<u8> {
    match f {
        FrameView::Data { id, data } => le32(id_word(id)) + seq![data.len() as u8, 0u8, 0u8, 0u8]
            + pad(data, 8),
        FrameView::Remote { id, dlc } => le32(id_word(id) | RTR_FLAG) + seq![dlc, 0u8, 0u8, 0u8]
            + zeros(8),
        FrameView::Error { class, data } => le32(class | ERR_FLAG) + seq![8u8, 0u8, 0u8, 0u8]
            + data,
        FrameView::Fd { id, flags, data } => le32(id_word(id)) + seq![
            data.len() as u8,
            flags,
            0u8,
            0u8,
        ] + pad(data, 64),
    }
}

/// The frame that a classic 16-byte buffer holds, if any.
pub open spec fn decode_classic_spec(b: Seq<u8>) -> Option<FrameView> {
    let w = read_le32(b);
    let len = b[4];
    let payload = b.subrange(8, 16);
    if b[5] != 0 || b[6] != 0 || b[7] != 0 {
        None
    } else if w & ERR_FLAG != 0 {
        if w & (EFF_FLAG | RTR_FLAG) == 0 && len == 8 {
            Some(FrameView::Error { class: w & EFF_MASK, data: payload })
        } else {
            None
        }
    } else if len > 8 {
        None
    } else {
        match id_from_word(w) {
            None => None,
            Some(id) => if w & RTR_FLAG != 0 {
                if payload == zeros(8) {
                    Some(FrameView::Remote { id, dlc: len })
                } else {
                    None
                }
            } else {
                let data = payload.subrange(0, len as int);
                if payload == pad(data, 8) {
                    Some(FrameView::Data { id, data })
                } else {
                    None
                }
            },
        }
    }
}

/// The frame that a 72-byte FD buffer holds, if any.
pub open spec fn decode_fd_spec(b: Seq<u8>) -> Option<FrameView> {
    let w = read_le32(b);
    let len = b[4];
    let flags = b[5];
    let payload = b.subrange(8, 72);
    let data = payload.subrange(0, len as int);
    if b[6] != 0 || b[7] != 0 || w & (RTR_FLAG | ERR_FLAG) != 0 || flags > 7 || !fd_len_ok(
        len as int,
    ) || payload != pad(data, 64) {
        None
    } else {
        match id_from_word(w) {
            None => None,
            Some(id) => Some(FrameView::Fd { id, flags, data }),
        }
    }
}

/// The frame that a wire buffer holds, if any: the buffer's size selects
/// the layout.
pub open spec fn decode_spec(b: Seq<u8>) -> Option<FrameView> {
    if b.len() == 16 {
        decode_classic_spec(b)
    } else if b.len() == 72 {
        decode_fd_spec(b)
    } else {
        None
    }
}

pub(crate) proof fn lemma_le32_read(w: u32)
    ensures
        read_le32(le32(w)) == w,
{
    let b0 = (w & 0xff) as u8;
    let b1 = ((w >> 8) & 0xff) as u8;
    let b2 = ((w >> 16) & 0xff) as u8;
    let b3 = (w >> 24) as u8;
    assert(le32(w)[0] == b0 && le32(w)[1] == b1 && le32(w)[2] == b2 && le32(w)[3] == b3);
    assert((b0 as u32) | ((b1 as u32) << 8) | ((b2 as u32) << 16) | ((b3 as u32) << 24) == w)
        by (bit_vector)
        requires
            b0 == (w & 0xff) as u8,
            b1 == ((w >> 8) & 0xff) as u8,
            b2 == ((w >> 16) & 0xff) as u8,
            b3 == (w >> 24) as u8,
    ;
}

proof fn lemma_read_le32(s: Seq<u8>)
    requires
        s.len() >= 4,
    ensures
        le32(read_le32(s)) == s.subrange(0, 4),
{
    let b0 = s[0];
    let b1 = s[1];
    let b2 = s[2];
    let b3 = s[3];
    let w = read_le32(s);
    assert(w == (b0 as u32) | ((b1 as u32) << 8) | ((b2 as u32) << 16) | ((b3 as u32) << 24));
    assert((w & 0xff) as u8 == b0 && ((w >> 8) & 0xff) as u8 == b1 && ((w >> 16) & 0xff) as u8
        == b2 && (w >> 24) as u8 == b3) by (bit_vector)
        requires
            w == (b0 as u32) | ((b1 as u32) << 8) | ((b2 as u32) << 16) | ((b3 as u32) << 24),
    ;
    assert(le32(w) =~= s.subrange(0, 4));
}

proof fn lemma_id_word(id: CanId)
    requires
        id.wf(),
    ensures
        id_word(id) & (RTR_FLAG | ERR_FLAG) == 0,
        id_word(id) & ERR_FLAG == 0,
        id_word(id) & RTR_FLAG == 0,
        (id_word(id) | RTR_FLAG) & ERR_FLAG == 0,
        (id_word(id) | RTR_FLAG) & RTR_FLAG != 0,
        id_from_word(id_word(id)) == Some(id),
        id_from_word(id_word(id) | RTR_FLAG) == Some(id),
{
    match id {
        CanId::Standard(a) => {
            let w = a as u32;
            assert(w & (RTR_FLAG | ERR_FLAG) == 0 && w & ERR_FLAG == 0 && w & RTR_FLAG == 0 && (w
                | RTR_FLAG) & ERR_FLAG == 0 && (w | RTR_FLAG) & RTR_FLAG != 0 && w & EFF_FLAG == 0
                && w & EFF_MASK == w && (w | RTR_FLAG) & EFF_FLAG == 0 && (w | RTR_FLAG) & EFF_MASK
                == w) by (bit_vector)
                requires
                    w <= 0x7FF,
            ;
        },
        CanId::Extended(a) => {
            let w = a | EFF_FLAG;
            assert(w & (RTR_FLAG | ERR_FLAG) == 0 && w & ERR_FLAG == 0 && w & RTR_FLAG == 0 && (w
                | RTR_FLAG) & ERR_FLAG == 0 && (w | RTR_FLAG) & RTR_FLAG != 0 && w & EFF_FLAG != 0
                && w & EFF_MASK == a && (w | RTR_FLAG) & EFF_FLAG != 0 && (w | RTR_FLAG) & EFF_MASK
                == a) by (bit_vector)
                requires
                    a <= 0x1FFF_FFFF,
                    w == a | EFF_FLAG,
            ;
        },
    }
}

proof fn lemma_word_id(w: u32, id: CanId)
    requires
        w & ERR_FLAG == 0,
        id_from_word(w) == Some(id),
    ensures
        id.wf(),
        w & RTR_FLAG == 0 ==> id_word(id) == w,
        w & RTR_FLAG != 0 ==> id_word(id) | RTR_FLAG == w,
{
    if w & EFF_FLAG != 0 {
        let a = w & EFF_MASK;
        assert(a <= 0x1FFF_FFFF && (w & RTR_FLAG == 0 ==> a | EFF_FLAG == w) && (w & RTR_FLAG != 0
            ==> (a | EFF_FLAG) | RTR_FLAG == w)) by (bit_vector)
            requires
                w & ERR_FLAG == 0,
                w & EFF_FLAG != 0,
                a == w & EFF_MASK,
        ;
    } else {
        let a = w & EFF_MASK;
        assert((w & RTR_FLAG == 0 ==> (a as u16) as u32 == w) && (w & RTR_FLAG != 0 ==> ((
        a as u16) as u32) | RTR_FLAG == w)) by (bit_vector)
            requires
                w & ERR_FLAG == 0,
                w & EFF_FLAG == 0,
                a == w & EFF_MASK,
                a <= 0x7FF,
        ;
    }
}

/// Decoding the encoding of a valid frame gives the frame back.
pub proof fn lemma_decode_encode(f: FrameView)
    requires
        f.wf(),
    ensures
        decode_spec(encode_spec(f)) == Some(f),
{
    let b = encode_spec(f);
    match f {
        FrameView::Data { id, data } => {
            lemma_id_word(id);
            lemma_le32_read(id_word(id));
            assert(read_le32(b) == read_le32(le32(id_word(id))));
            assert(b.subrange(8, 16) =~= pad(data, 8));
            assert(b.subrange(8, 16).subrange(0, data.len() as int) =~= data);
        },
        FrameView::Remote { id, dlc } => {
            lemma_id_word(id);
            lemma_le32_read(id_word(id) | RTR_FLAG);
            assert(read_le32(b) == read_le32(le32(id_word(id) | RTR_FLAG)));
            assert(b.subrange(8, 16) =~= zeros(8));
        },
        FrameView::Error { class, data } => {
            let w = class | ERR_FLAG;
            assert(w & ERR_FLAG != 0 && w & (EFF_FLAG | RTR_FLAG) == 0 && w & EFF_MASK == class)
                by (bit_vector)
                requires
                    class <= 0x1FFF_FFFF,
                    w == class | ERR_FLAG,
            ;
            lemma_le32_read(w);
            assert(read_le32(b) == read_le32(le32(w)));
            assert(b.subrange(8, 16) =~= data);
        },
        FrameView::Fd { id, flags, data } => {
            lemma_id_word(id);
            lemma_le32_read(id_word(id));
            assert(read_le32(b) == read_le32(le32(id_word(id))));
            assert(b.subrange(8, 72) =~= pad(data, 64));
            assert(b.subrange(8, 72).subrange(0, data.len() as int) =~= data);
        },
    }
}

/// A buffer that decodes to a frame is exactly that frame's encoding, and
/// the frame is valid.
pub proof fn lemma_encode_decode(b: Seq<u8>)
    requires
        decode_spec(b) is Some,
    ensures
        decode_spec(b).unwrap().wf(),
        encode_spec(decode_spec(b).unwrap()) == b,
{
    let f = decode_spec(b).unwrap();
    let w = read_le32(b);
    lemma_read_le32(b);
    if b.len() == 16 {
        let payload = b.subrange(8, 16);
        if w & ERR_FLAG != 0 {
            assert(w & EFF_MASK <= 0x1FFF_FFFF && (w & EFF_MASK) | ERR_FLAG == w) by (bit_vector)
                requires
                    w & ERR_FLAG != 0,
                    w & (EFF_FLAG | RTR_FLAG) == 0,
            ;
            assert(encode_spec(f) =~= b);
        } else {
            let id = id_from_word(w).unwrap();
            lemma_word_id(w, id);
            assert(encode_spec(f) =~= b);
        }
    } else {
        let id = id_from_word(w).unwrap();
        assert(w & ERR_FLAG == 0 && w & RTR_FLAG == 0) by (bit_vector)
            requires
                w & (RTR_FLAG | ERR_FLAG) == 0,
        ;
        lemma_word_id(w, id);
        let payload = b.subrange(8, 72);
        let data = payload.subrange(0, b[4] as int);
        assert(payload == pad(data, 64));
        assert(data.len() == b[4] as int);
        assert(f == FrameView::Fd { id, flags: b[5], data });
        assert(b =~= b.subrange(0, 4) + seq![b[4], b[5], 0u8, 0u8] + payload);
        assert(encode_spec(f) =~= b);
    }
}

/// A buffer whose bytes from `l` on are zero is its first `l` bytes padded.
proof fn lemma_pad_zero_tail(s: Seq<u8>, l: int, n: nat)
    requires
        s.len() == n,
        0 <= l <= n,
    ensures
        (s == pad(s.subrange(0, l), n)) <==> (forall|i: int| l <= i < n ==> s[i] == 0),
{
    if forall|i: int| l <= i < n ==> s[i] == 0 {
        assert(s =~= pad(s.subrange(0, l), n));
    }
    if s == pad(s.subrange(0, l), n) {
        assert forall|i: int| l <= i < n implies s[i] == 0 by {
            assert(pad(s.subrange(0, l), n)[i] == 0);
        }
    }
}

pub(crate) fn push_le32(v: &mut Vec<u8>, w: u32)
    requires
        old(v).len() + 4 <= usize::MAX,
    ensures
        final(v)@ == old(v)@ + le32(w),
{
    v.push((w & 0xff) as u8);
    v.push(((w >> 8) & 0xff) as u8);
    v.push(((w >> 16) & 0xff) as u8);
    v.push((w >> 24) as u8);
    assert(v@ =~= old(v)@ + le32(w));
}

fn push_padded(v: &mut Vec<u8>, data: &[u8], n: usize)
    requires
        data.len() <= n,
        old(v).len() + n <= usize::MAX,
    ensures
        final(v)@ == old(v)@ + pad(data@, n as nat),
{
    let ghost start = v@;
    let mut i: usize = 0;
    while i < data.len()
        invariant
            i <= data.len() <= n,
            start.len() + n <= usize::MAX,
            v@ == start + data@.subrange(0, i as int),
        decreases data.len() - i,
    {
        v.push(data[i]);
        i = i + 1;
        assert(v@ =~= start + data@.subrange(0, i as int));
    }
    assert(data@.subrange(0, i as int) =~= data@);
    while i < n
        invariant
            data.len() <= i <= n,
            start.len() + n <= usize::MAX,
            v@ == start + data@ + zeros((i - data.len()) as nat),
        decreases n - i,
    {
        v.push(0u8);
        i = i + 1;
        assert(v@ =~= start + data@ + zeros((i - data.len()) as nat));
    }
    assert(v@ =~= start + pad(data@, n as nat));
}

fn word_of(id: CanId) -> (r: u32)
    ensures
        r == id_word(id),
{
    match id {
        CanId::Standard(a) => a as u32,
        CanId::Extended(a) => a | EFF_FLAG,
    }
}

fn id_of_word(w: u32) -> (r: Option<CanId>)
    ensures
        r == id_from_word(w),
{
    if w & EFF_FLAG != 0 {
        Some(CanId::Extended(w & EFF_MASK))
    } else if w & EFF_MASK <= 0x7FF {
        Some(CanId::Standard((w & EFF_MASK) as u16))
    } else {
        None
    }
}

pub(crate) fn read_word(b: &[u8]) -> (r: u32)
    requires
        b.len() >= 4,
    ensures
        r == read_le32(b@),
{
    (b[0] as u32) | ((b[1] as u32) << 8) | ((b[2] as u32) << 16) | ((b[3] as u32) << 24)
}

/// Whether `b[start..end]` holds only zeros.
fn all_zero(b: &[u8], start: usize, end: usize) -> (r: bool)
    requires
        start <= end <= b.len(),
    ensures
        r == (forall|i: int| start <= i < end ==> b@[i] == 0),
{
    let mut i: usize = start;
    while i < end
        invariant
            start <= i <= end <= b.len(),
            forall|j: int| start <= j < i ==> b@[j] == 0,
        decreases end - i,
    {
        if b[i] != 0 {
            return false;
        }
        i = i + 1;
    }
    true
}

fn copy_range(b: &[u8], start: usize, end: usize) -> (r: Vec<u8>)
    requires
        start <= end <= b.len(),
    ensures
        r@ == b@.subrange(start as int, end as int),
{
    let mut v: Vec<u8> = Vec::new();
    let mut i: usize = start;
    while i < end
        invariant
            start <= i <= end <= b.len(),
            v@ == b@.subrange(start as int, i as int),
        decreases end - i,
    {
        v.push(b[i]);
        i = i + 1;
        assert(v@ =~= b@.subrange(start as int, i as int));
    }
    v
}

/// Whether an FD frame can carry `n` payload bytes.
pub fn fd_len_valid(n: usize) -> (r: bool)
    ensures
        r == fd_len_ok(n as int),
{
    n <= 8 || n == 12 || n == 16 || n == 20 || n == 24 || n == 32 || n == 48 || n == 64
}

impl CanDataFrame {
    /// Builds a data frame; fails when the payload exceeds 8 bytes.
    pub fn new(id: CanId, data: &[u8]) -> (r: Result<CanDataFrame, ConstructionError>)
        requires
            id.wf(),
        ensures
            data.len() <= 8 <==> r is Ok,
            r matches Ok(f) ==> f.id == id && f.data@ == data@,
            r matches Err(e) ==> e == ConstructionError::TooMuchData,
    {
        if data.len() > CAN_MAX_DLEN {
            return Err(ConstructionError::TooMuchData);
        }
        Ok(CanDataFrame { id, data: copy_range(data, 0, data.len()) })
    }
}

impl CanRemoteFrame {
    /// Builds a remote frame asking for `dlc` bytes; fails when `dlc`
    /// exceeds 8.
    pub fn new(id: CanId, dlc: usize) -> (r: Result<CanRemoteFrame, ConstructionError>)
        requires
            id.wf(),
        ensures
            dlc <= 8 <==> r is Ok,
            r matches Ok(f) ==> f.id == id && f.dlc == dlc,
            r matches Err(e) ==> e == ConstructionError::TooMuchData,
    {
        if dlc > CAN_MAX_DLEN {
            return Err(ConstructionError::TooMuchData);
        }
        Ok(CanRemoteFrame { id, dlc: dlc as u8 })
    }
}

/// The FD flag byte for the given bit-rate switch and error state bits.
pub open spec fn fd_flags(brs: bool, esi: bool) -> u8 {
    (CANFD_FDF + (if brs { CANFD_BRS } else { 0u8 }) + (if esi { CANFD_ESI } else { 0u8 })) as u8
}

impl CanFdFrame {
    /// Builds an FD frame; fails when the payload exceeds 64 bytes or its
    /// length is not one an FD frame can carry.
    pub fn new(id: CanId, data: &[u8], brs: bool, esi: bool) -> (r: Result<
        CanFdFrame,
        ConstructionError,
    >)
        requires
            id.wf(),
        ensures
            fd_len_ok(data.len() as int) <==> r is Ok,
            r matches Ok(f) ==> f.id == id && f.data@ == data@ && f.flags == fd_flags(brs, esi),
            data.len() > 64 ==> r == Err::<CanFdFrame, ConstructionError>(
                ConstructionError::TooMuchData,
            ),
            data.len() <= 64 && !fd_len_ok(data.len() as int) ==> r == Err::<
                CanFdFrame,
                ConstructionError,
            >(ConstructionError::InvalidFdLength),
    {
        if data.len() > CANFD_MAX_DLEN {
            return Err(ConstructionError::TooMuchData);
        }
        if !fd_len_valid(data.len()) {
            return Err(ConstructionError::InvalidFdLength);
        }
        let flags: u8 = CANFD_FDF + (if brs { CANFD_BRS } else { 0u8 }) + (if esi { CANFD_ESI } else { 0u8 });
        Ok(CanFdFrame { id, flags, data: copy_range(data, 0, data.len()) })
    }

    /// Whether the data phase switches to the higher bit-rate.
    pub fn is_brs(&self) -> (r: bool)
        ensures
            r == (self.flags & CANFD_BRS != 0),
    {
        self.flags & CANFD_BRS != 0
    }

    /// Whether the sender was error passive.
    pub fn is_esi(&self) -> (r: bool)
        ensures
            r == (self.flags & CANFD_ESI != 0),
    {
        self.flags & CANFD_ESI != 0
    }
}

impl CanAnyFrame {
    /// Whether the frame is an FD frame, which only an FD endpoint carries.
    pub fn is_fd(&self) -> (r: bool)
        ensures
            r == (self@ is Fd),
    {
        match self {
            CanAnyFrame::Fd(_) => true,
            _ => false,
        }
    }

    /// The size of the frame's wire structure.
    pub fn wire_size(&self) -> (r: usize)
        ensures
            r == (if self@ is Fd { CANFD_MTU } else { CAN_MTU }),
    {
        if self.is_fd() { CANFD_MTU } else { CAN_MTU }
    }

    /// The wire bytes of the frame.
    pub fn encode(&self) -> (r: Vec<u8>)
        requires
            self@.wf(),
        ensures
            r@ == encode_spec(self@),
            r@.len() == (if self@ is Fd { CANFD_MTU } else { CAN_MTU }),
    {
        let mut v: Vec<u8> = Vec::new();
        match self {
            CanAnyFrame::Normal(f) => {
                push_le32(&mut v, word_of(f.id));
                v.push(f.data.len() as u8);
                v.push(0u8);
                v.push(0u8);
                v.push(0u8);
                push_padded(&mut v, f.data.as_slice(), CAN_MAX_DLEN);
                assert(v@ =~= encode_spec(self@));
            },
            CanAnyFrame::Remote(f) => {
                push_le32(&mut v, word_of(f.id) | RTR_FLAG);
                v.push(f.dlc);
                v.push(0u8);
                v.push(0u8);
                v.push(0u8);
                push_padded(&mut v, &[], CAN_MAX_DLEN);
                assert(pad(Seq::<u8>::empty(), 8) =~= zeros(8));
                assert(v@ =~= encode_spec(self@));
            },
            CanAnyFrame::Error(f) => {
                push_le32(&mut v, f.class | ERR_FLAG);
                v.push(8u8);
                v.push(0u8);
                v.push(0u8);
                v.push(0u8);
                push_padded(&mut v, &f.data, CAN_MAX_DLEN);
                assert(pad(f.data@, 8) =~= f.data@);
                assert(v@ =~= encode_spec(self@));
            },
            CanAnyFrame::Fd(f) => {
                push_le32(&mut v, word_of(f.id));
                v.push(f.data.len() as u8);
                v.push(f.flags);
                v.push(0u8);
                v.push(0u8);
                push_padded(&mut v, f.data.as_slice(), CANFD_MAX_DLEN);
                assert(v@ =~= encode_spec(self@));
            },
        }
        v
    }

    /// The frame that a wire buffer holds: its size selects the classic or
    /// the FD layout, and every length, flag, reserved and padding byte
    /// must be as encoding would write it.
    pub fn decode(b: &[u8]) -> (r: Result<CanAnyFrame, DecodeError>)
        ensures
            r matches Ok(f) ==> decode_spec(b@) == Some(f@),
            r is Err ==> decode_spec(b@) is None,
            r == Err::<CanAnyFrame, DecodeError>(DecodeError::UnknownSize) <==> (b.len() != CAN_MTU
                && b.len() != CANFD_MTU),
    {
        if b.len() == CAN_MTU {
            Self::decode_classic(b)
        } else if b.len() == CANFD_MTU {
            Self::decode_fd(b)
        } else {
            Err(DecodeError::UnknownSize)
        }
    }

    fn decode_classic(b: &[u8]) -> (r: Result<CanAnyFrame, DecodeError>)
        requires
            b.len() == 16,
        ensures
            r matches Ok(f) ==> decode_classic_spec(b@) == Some(f@),
            r is Err ==> decode_classic_spec(b@) is None && r == Err::<CanAnyFrame, DecodeError>(
                DecodeError::Malformed,
            ),
    {
        let w = read_word(b);
        let len = b[4];
        let ghost payload = b@.subrange(8, 16);
        if b[5] != 0 || b[6] != 0 || b[7] != 0 {
            return Err(DecodeError::Malformed);
        }
        if w & ERR_FLAG != 0 {
            if w & (EFF_FLAG | RTR_FLAG) == 0 && len == 8 {
                let data: [u8; 8] = [b[8], b[9], b[10], b[11], b[12], b[13], b[14], b[15]];
                assert(data@ =~= payload);
                return Ok(CanAnyFrame::Error(CanErrorFrame { class: w & EFF_MASK, data }));
            }
            return Err(DecodeError::Malformed);
        }
        if len > 8 {
            return Err(DecodeError::Malformed);
        }
        let id = match id_of_word(w) {
            Some(id) => id,
            None => {
                return Err(DecodeError::Malformed);
            },
        };
        if w & RTR_FLAG != 0 {
            proof {
                lemma_pad_zero_tail(payload, 0, 8);
                assert(payload.subrange(0, 0) =~= Seq::<u8>::empty());
                assert(pad(Seq::<u8>::empty(), 8) =~= zeros(8));
            }
            if all_zero(b, 8, 16) {
                assert(forall|i: int| 0 <= i < 8 ==> payload[i] == b@[8 + i]);
                return Ok(CanAnyFrame::Remote(CanRemoteFrame { id, dlc: len }));
            }
            assert(payload[0] == b@[8] && payload[1] == b@[9] && payload[2] == b@[10] && payload[3] == b@[11]);
            assert(payload[4] == b@[12] && payload[5] == b@[13] && payload[6] == b@[14] && payload[7] == b@[15]);
            return Err(DecodeError::Malformed);
        }
        let end: usize = 8 + len as usize;
        proof {
            lemma_pad_zero_tail(payload, len as int, 8);
        }
        if all_zero(b, end, 16) {
            assert(forall|i: int| len <= i < 8 ==> payload[i] == b@[8 + i]);
            let data = copy_range(b, 8, end);
            assert(data@ =~= payload.subrange(0, len as int));
            return Ok(CanAnyFrame::Normal(CanDataFrame { id, data }));
        }
        assert(forall|i: int| len <= i < 8 ==> payload[i] == b@[8 + i]);
        proof {
            if forall|i: int| len <= i < 8 ==> payload[i] == 0 {
                assert forall|j: int| end <= j < 16 implies b@[j] == 0 by {
                    assert(payload[j - 8] == b@[j]);
                }
            }
        }
        Err(DecodeError::Malformed)
    }

    fn decode_fd(b: &[u8]) -> (r: Result<CanAnyFrame, DecodeError>)
        requires
            b.len() == 72,
        ensures
            r matches Ok(f) ==> decode_fd_spec(b@) == Some(f@),
            r is Err ==> decode_fd_spec(b@) is None && r == Err::<CanAnyFrame, DecodeError>(
                DecodeError::Malformed,
            ),
    {
        let w = read_word(b);
        let len = b[4];
        let flags = b[5];
        let ghost payload = b@.subrange(8, 72);
        if b[6] != 0 || b[7] != 0 || w & (RTR_FLAG | ERR_FLAG) != 0 || flags > 7 || !fd_len_valid(
            len as usize,
        ) {
            return Err(DecodeError::Malformed);
        }
        let end: usize = 8 + len as usize;
        proof {
            lemma_pad_zero_tail(payload, len as int, 64);
        }
        assert(forall|i: int| len <= i < 64 ==> payload[i] == b@[8 + i]);
        if !all_zero(b, end, 72) {
            proof {
            if forall|i: int| len <= i < 64 ==> payload[i] == 0 {
                assert forall|j: int| end <= j < 72 implies b@[j] == 0 by {
                    assert(payload[j - 8] == b@[j]);
                }
            }
        }
            return Err(DecodeError::Malformed);
        }
        match id_of_word(w) {
            Some(id) => {
                let data = copy_range(b, 8, end);
                assert(data@ =~= payload.subrange(0, len as int));
                Ok(CanAnyFrame::Fd(CanFdFrame { id, flags, data }))
            },
            None => Err(DecodeError::Malformed),
        }
    }
}

} // verus!
