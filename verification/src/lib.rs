//! A bridge that forwards CAN frames over TCP, in both directions, on Linux.
//!
//! Frames from a CAN interface are converted to a form that does not depend on the host
//! ([`can_to_wire`]) and go out over TCP as records ([`send_wire`]). Records that come in over TCP
//! ([`recv_wire`]) are converted back ([`wire_to_can`]) and written to the CAN interface. The
//! kernel loops what is written back to the socket that the bridge reads from; a
//! [`LoopbackFilter`] knows those frames by their hash ([`frame_hash`]), so that they do not go
//! round in a circle.
//!
//! The library decides and computes; sockets, threads and clocks belong to its user. The modules
//! [`bridge`] and [`session`] say what that user does next, [`link`] whether the interface came
//! back after it was down, and [`faults`] which errors are ridden out.
//!
//! What is true of several calls together, and of every call whatever it is given, stands in
//! [`laws`] and in a module of laws beside each of the others, such as [`bridge_laws`].
pub mod attribute;
pub mod attribute_laws;
pub mod bridge;
pub mod bridge_laws;
pub mod codec;
pub mod codec_laws;
pub mod error;
pub mod fault_laws;
pub mod faults;
pub mod filter;
pub mod filter_laws;
pub mod frame;
pub mod frame_laws;
pub mod hash;
pub mod laws;
pub mod link;
pub mod link_laws;
pub mod session;
pub mod session_laws;
pub mod varint;
pub mod wire;

pub use crate::codec::recv_wire;
pub use crate::codec::send_wire;
pub use crate::codec::WireReader;
pub use crate::error::WireError;
pub use crate::filter::DedupMsg;
pub use crate::filter::LoopbackFilter;
pub use crate::frame::can_to_wire;
pub use crate::frame::wire_to_can;
pub use crate::frame::CanFrame;
pub use crate::frame::CanId;
pub use crate::hash::frame_hash;
pub use crate::wire::WireFrameV1;
pub use crate::wire::FLAG_BRS;
pub use crate::wire::FLAG_EFF;
pub use crate::wire::FLAG_ERR;
pub use crate::wire::FLAG_ESI;
pub use crate::wire::FLAG_FD;
pub use crate::wire::FLAG_RTR;
