//! Decoding of error frames into a structured diagnostic.
use crate::frame::CanErrorFrame;
use vstd::prelude::*;

verus! {

/// Error class: transmission timed out.
pub const ERR_TX_TIMEOUT: u32 = 0x0001;

/// Error class: arbitration lost; detail byte 0 holds the bit position.
pub const ERR_LOSTARB: u32 = 0x0002;

/// Error class: controller problem; detail byte 1 holds the sub-code.
pub const ERR_CRTL: u32 = 0x0004;

/// Error class: protocol violation; detail bytes 2 and 3 hold its type
/// and location.
pub const ERR_PROT: u32 = 0x0008;

/// Error class: transceiver status; detail byte 4 holds it.
pub const ERR_TRX: u32 = 0x0010;

/// Error class: no acknowledgment on transmission.
pub const ERR_ACK: u32 = 0x0020;

/// Error class: bus off.
pub const ERR_BUSOFF: u32 = 0x0040;

/// Error class: bus error.
pub const ERR_BUSERROR: u32 = 0x0080;

/// Error class: the controller restarted.
pub const ERR_RESTARTED: u32 = 0x0100;

/// Error class: error counters; detail bytes 6 and 7 hold the transmit and
/// receive counters.
pub const ERR_CNT: u32 = 0x0200;

/// Every error class this decoder knows.
pub const ERR_KNOWN: u32 = 0x03FF;

/// A protocol violation: its type bits and its location code.
#[derive(Debug, Clone, Copy, PartialEq, Eq, Structural)]
pub struct ProtocolViolation {
    pub kind: u8,
    pub location: u8,
}

/// The bus error counters.
#[derive(Debug, Clone, Copy, PartialEq, Eq, Structural)]
pub struct ErrorCounters {
    pub tx: u8,
    pub rx: u8,
}

/// What an error frame reports: each condition of the closed set, with its
/// detail where it has one, and the class bits that no condition names.
#[derive(Debug, Clone, Copy, PartialEq, Eq, Structural)]
pub struct CanErrorReport {
    pub tx_timeout: bool,
    pub lost_arbitration: Option<u8>,
    pub controller: Option<u8>,
    pub protocol: Option<ProtocolViolation>,
    pub transceiver: Option<u8>,
    pub no_ack: bool,
    pub bus_off: bool,
    pub bus_error: bool,
    pub restarted: bool,
    pub counters: Option<ErrorCounters>,
    pub unrecognized: u32,
}

/// `Some(v)` when the class bit is set.
pub open spec fn when_set<T>(class: u32, bit: u32, v: T) -> Option<T> {
    if class & bit != 0 {
        Some(v)
    } else {
        None
    }
}

/// The report that an error class bitmask and its eight detail bytes give.
pub open spec fn report_spec(class: u32, d: Seq<u8>) -> CanErrorReport {
    CanErrorReport {
        tx_timeout: class & ERR_TX_TIMEOUT != 0,
        lost_arbitration: when_set(class, ERR_LOSTARB, d[0]),
        controller: when_set(class, ERR_CRTL, d[1]),
        protocol: when_set(class, ERR_PROT, ProtocolViolation { kind: d[2], location: d[3] }),
        transceiver: when_set(class, ERR_TRX, d[4]),
        no_ack: class & ERR_ACK != 0,
        bus_off: class & ERR_BUSOFF != 0,
        bus_error: class & ERR_BUSERROR != 0,
        restarted: class & ERR_RESTARTED != 0,
        counters: when_set(class, ERR_CNT, ErrorCounters { tx: d[6], rx: d[7] }),
        unrecognized: class & !ERR_KNOWN,
    }
}

fn detail_if<T>(class: u32, bit: u32, v: T) -> (r: Option<T>)
    ensures
        r == when_set(class, bit, v),
{
    if class & bit != 0 {
        Some(v)
    } else {
        None
    }
}

/// Decodes an error class bitmask and its detail bytes. Total: every input
/// gives a report, and class bits outside the known set are kept in
/// `unrecognized`.
pub fn decode_error(class: u32, data: &[u8; 8]) -> (r: CanErrorReport)
    ensures
        r == report_spec(class, data@),
{
    CanErrorReport {
        tx_timeout: class & ERR_TX_TIMEOUT != 0,
        lost_arbitration: detail_if(class, ERR_LOSTARB, data[0]),
        controller: detail_if(class, ERR_CRTL, data[1]),
        protocol: detail_if(
            class,
            ERR_PROT,
            ProtocolViolation { kind: data[2], location: data[3] },
        ),
        transceiver: detail_if(class, ERR_TRX, data[4]),
        no_ack: class & ERR_ACK != 0,
        bus_off: class & ERR_BUSOFF != 0,
        bus_error: class & ERR_BUSERROR != 0,
        restarted: class & ERR_RESTARTED != 0,
        counters: detail_if(class, ERR_CNT, ErrorCounters { tx: data[6], rx: data[7] }),
        unrecognized: class & !ERR_KNOWN,
    }
}

/// No class bit is lost: the bits of the known conditions and the
/// unrecognized remainder together give back the whole bitmask.
pub proof fn lemma_report_keeps_class(class: u32, d: Seq<u8>)
    requires
        d.len() == 8,
    ensures
        (class & ERR_KNOWN) | report_spec(class, d).unrecognized == class,
        report_spec(class, d).unrecognized & ERR_KNOWN == 0,
        report_spec(class, d).unrecognized == 0 <==> class & !ERR_KNOWN == 0,
{
    assert((class & ERR_KNOWN) | (class & !ERR_KNOWN) == class && (class & !ERR_KNOWN) & ERR_KNOWN
        == 0) by (bit_vector);
}

impl CanErrorFrame {
    /// The diagnostic that this error frame carries.
    pub fn report(&self) -> (r: CanErrorReport)
        ensures
            r == report_spec(self.class, self.data@),
    {
        decode_error(self.class, &self.data)
    }
}

} // verus!
