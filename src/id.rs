//! CAN identifiers: standard (11-bit) and extended (29-bit) addresses.
use core::cmp::Ordering;
use embedded_can::{ExtendedId, Id, StandardId};
use vstd::prelude::*;

verus! {

/// The largest standard (11-bit) address.
pub const SFF_MASK: u32 = 0x7FF;

/// The largest extended (29-bit) address.
pub const EFF_MASK: u32 = 0x1FFF_FFFF;

/// Errors raised while building identifiers or frames, before any kernel call.
#[derive(Debug, Clone, Copy, PartialEq, Eq, Structural)]
pub enum ConstructionError {
    /// The address does not fit the identifier's format.
    IdTooLarge,
    /// The payload is longer than the frame variant allows.
    TooMuchData,
    /// The payload length is not one of the lengths an FD frame can carry.
    InvalidFdLength,
    /// The frame variant cannot be sent on this endpoint.
    WrongFrameType,
}

/// A bus identifier: its format and its address.
///
/// A standard and an extended identifier with the same numeric address are
/// distinct bus identities.
#[derive(Debug, Clone, Copy, PartialEq, Eq, Structural, Hash)]
pub enum CanId {
    Standard(u16),
    Extended(u32),
}

impl CanId {
    /// The address lies in the range of the identifier's format.
    pub open spec fn wf(self) -> bool {
        match self {
            CanId::Standard(a) => a <= 0x7FF,
            CanId::Extended(a) => a <= 0x1FFF_FFFF,
        }
    }

    /// The numeric address, without any format flag.
    pub open spec fn address(self) -> u32 {
        match self {
            CanId::Standard(a) => a as u32,
            CanId::Extended(a) => a,
        }
    }

    pub open spec fn extended_spec(self) -> bool {
        self is Extended
    }

    /// Builds a standard identifier; fails when `raw` exceeds 11 bits.
    pub fn standard(raw: u16) -> (r: Result<CanId, ConstructionError>)
        ensures
            raw <= 0x7FF ==> r == Ok::<CanId, ConstructionError>(CanId::Standard(raw)),
            raw > 0x7FF ==> r == Err::<CanId, ConstructionError>(ConstructionError::IdTooLarge),
    {
        match standard_new(raw) {
            Some(a) => Ok(CanId::Standard(a)),
            None => Err(ConstructionError::IdTooLarge),
        }
    }

    /// Builds an extended identifier; fails when `raw` exceeds 29 bits.
    pub fn extended(raw: u32) -> (r: Result<CanId, ConstructionError>)
        ensures
            raw <= 0x1FFF_FFFF ==> r == Ok::<CanId, ConstructionError>(CanId::Extended(raw)),
            raw > 0x1FFF_FFFF ==> r == Err::<CanId, ConstructionError>(
                ConstructionError::IdTooLarge,
            ),
    {
        match extended_new(raw) {
            Some(a) => Ok(CanId::Extended(a)),
            None => Err(ConstructionError::IdTooLarge),
        }
    }

    /// Builds a standard identifier when `raw` fits 11 bits, else an extended
    /// one when it fits 29 bits.
    pub fn from_raw(raw: u32) -> (r: Result<CanId, ConstructionError>)
        ensures
            raw <= 0x7FF ==> r == Ok::<CanId, ConstructionError>(CanId::Standard(raw as u16)),
            0x7FF < raw <= 0x1FFF_FFFF ==> r == Ok::<CanId, ConstructionError>(
                CanId::Extended(raw),
            ),
            raw > 0x1FFF_FFFF ==> r == Err::<CanId, ConstructionError>(
                ConstructionError::IdTooLarge,
            ),
    {
        if raw <= SFF_MASK {
            CanId::standard(raw as u16)
        } else {
            CanId::extended(raw)
        }
    }

    /// Whether the identifier is in extended (29-bit) form.
    pub fn is_extended(&self) -> (r: bool)
        ensures
            r == self.extended_spec(),
    {
        match self {
            CanId::Standard(_) => false,
            CanId::Extended(_) => true,
        }
    }

    /// The numeric address.
    pub fn as_raw(&self) -> (r: u32)
        ensures
            r == self.address(),
    {
        match self {
            CanId::Standard(a) => *a as u32,
            CanId::Extended(a) => *a,
        }
    }

    /// Compares two identifiers by bus priority: `Less` means that `self`
    /// wins arbitration against `other`.
    pub fn priority_cmp(&self, other: &CanId) -> (r: Ordering)
        requires
            self.wf(),
            other.wf(),
        ensures
            r == compare(priority_key(*self), priority_key(*other)),
    {
        id_cmp(*self, *other)
    }
}

/// The position of an identifier in arbitration: the 11 base bits, then the
/// IDE bit (clear for standard form), then the 18 low bits of an extended
/// address. A smaller key wins the bus.
pub open spec fn priority_key(id: CanId) -> int {
    match id {
        CanId::Standard(a) => a * 0x80000,
        CanId::Extended(a) => (a / 0x40000) * 0x80000 + 0x40000 + a % 0x40000,
    }
}

/// Three-way comparison of two integers.
pub open spec fn compare(x: int, y: int) -> Ordering {
    if x < y {
        Ordering::Less
    } else if x > y {
        Ordering::Greater
    } else {
        Ordering::Equal
    }
}

/// `a` wins arbitration against `b`.
pub open spec fn higher_priority(a: CanId, b: CanId) -> bool {
    priority_key(a) < priority_key(b)
}

/// Relies on embedded_can's `StandardId::new`: `Some` exactly when `raw` fits
/// 11 bits, holding `raw`.
#[verifier::external_body]
fn standard_new(raw: u16) -> (r: Option<u16>)
    ensures
        raw <= 0x7FF ==> r == Some(raw),
        raw > 0x7FF ==> r is None,
{
    StandardId::new(raw).map(|s| s.as_raw())
}

/// Relies on embedded_can's `ExtendedId::new`: `Some` exactly when `raw` fits
/// 29 bits, holding `raw`.
#[verifier::external_body]
fn extended_new(raw: u32) -> (r: Option<u32>)
    ensures
        raw <= 0x1FFF_FFFF ==> r == Some(raw),
        raw > 0x1FFF_FFFF ==> r is None,
{
    ExtendedId::new(raw).map(|e| e.as_raw())
}

/// Relies on embedded_can's `Ord for Id`, which orders identifiers by the
/// tuple (base 11 bits, IDE bit, low 18 bits of an extended address).
#[verifier::external_body]
fn id_cmp(a: CanId, b: CanId) -> (r: Ordering)
    requires
        a.wf(),
        b.wf(),
    ensures
        r == compare(priority_key(a), priority_key(b)),
{
    let ia: Id = match a {
        CanId::Standard(x) => Id::Standard(StandardId::new(x).unwrap()),
        CanId::Extended(x) => Id::Extended(ExtendedId::new(x).unwrap()),
    };
    let ib: Id = match b {
        CanId::Standard(x) => Id::Standard(StandardId::new(x).unwrap()),
        CanId::Extended(x) => Id::Extended(ExtendedId::new(x).unwrap()),
    };
    ia.cmp(&ib)
}

/// Distinct identifiers never share an arbitration key.
proof fn lemma_priority_key_injective(a: CanId, b: CanId)
    requires
        a.wf(),
        b.wf(),
        priority_key(a) == priority_key(b),
    ensures
        a == b,
{
    match (a, b) {
        (CanId::Standard(x), CanId::Standard(y)) => {},
        (CanId::Standard(x), CanId::Extended(y)) => {
            let q = y as int / 0x40000;
            let m = y as int % 0x40000;
            assert(x as int * 0x80000 == q * 0x80000 + 0x40000 + m);
            assert(false) by (nonlinear_arith)
                requires
                    x as int * 0x80000 == q * 0x80000 + 0x40000 + m,
                    0 <= m < 0x40000,
            ;
        },
        (CanId::Extended(x), CanId::Standard(y)) => {
            let q = x as int / 0x40000;
            let m = x as int % 0x40000;
            assert(false) by (nonlinear_arith)
                requires
                    y as int * 0x80000 == q * 0x80000 + 0x40000 + m,
                    0 <= m < 0x40000,
            ;
        },
        (CanId::Extended(x), CanId::Extended(y)) => {
            let qx = x as int / 0x40000;
            let mx = x as int % 0x40000;
            let qy = y as int / 0x40000;
            let my = y as int % 0x40000;
            assert(qx == qy && mx == my) by (nonlinear_arith)
                requires
                    qx * 0x80000 + mx == qy * 0x80000 + my,
                    0 <= mx < 0x40000,
                    0 <= my < 0x40000,
            ;
            assert(x as int == qx * 0x40000 + mx);
            assert(y as int == qy * 0x40000 + my);
        },
    }
}

/// Within one format, the lower address has the smaller arbitration key.
proof fn lemma_priority_key_monotone(a: CanId, b: CanId)
    requires
        a.wf(),
        b.wf(),
        a.extended_spec() == b.extended_spec(),
        a.address() < b.address(),
    ensures
        priority_key(a) < priority_key(b),
{
    match (a, b) {
        (CanId::Extended(x), CanId::Extended(y)) => {
            let qx = x as int / 0x40000;
            let mx = x as int % 0x40000;
            let qy = y as int / 0x40000;
            let my = y as int % 0x40000;
            assert(x as int == qx * 0x40000 + mx);
            assert(y as int == qy * 0x40000 + my);
            assert(qx * 0x80000 + mx < qy * 0x80000 + my) by (nonlinear_arith)
                requires
                    qx * 0x40000 + mx < qy * 0x40000 + my,
                    0 <= mx < 0x40000,
                    0 <= my < 0x40000,
            ;
        },
        _ => {},
    }
}

/// Bus priority is a strict total order on valid identifiers: no identifier
/// beats itself, the relation is transitive, any two distinct identifiers
/// are ordered one way, and within one format the lower address wins.
pub proof fn lemma_priority_order(a: CanId, b: CanId, c: CanId)
    requires
        a.wf(),
        b.wf(),
        c.wf(),
    ensures
        !higher_priority(a, a),
        higher_priority(a, b) && higher_priority(b, c) ==> higher_priority(a, c),
        a != b ==> (higher_priority(a, b) || higher_priority(b, a)),
        higher_priority(a, b) ==> !higher_priority(b, a),
        a.extended_spec() == b.extended_spec() && a.address() < b.address()
            ==> higher_priority(a, b),
{
    if priority_key(a) == priority_key(b) {
        lemma_priority_key_injective(a, b);
    }
    if a.extended_spec() == b.extended_spec() && a.address() < b.address() {
        lemma_priority_key_monotone(a, b);
    }
}

} // verus!
