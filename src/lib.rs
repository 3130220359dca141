//! Access to CAN buses exposed by the Linux kernel as network devices.
//!
//! The library holds the protocol logic: identifiers and their bus
//! priority, the frame variants and their exact kernel wire layout, the
//! decoding of error frames, receive filtering and the state of a raw
//! transport endpoint, and the message framing of the interface
//! configuration channel.
pub mod errors;
pub mod frame;
pub mod id;
pub mod nl;
pub mod socket;
