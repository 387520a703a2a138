//! The frame that travels over TCP.
use vstd::prelude::*;

verus! {

/// Extended frame format (29-bit identifier).
pub const FLAG_EFF: u8 = 0x01;

/// Remote transmission request.
pub const FLAG_RTR: u8 = 0x02;

/// Error frame.
pub const FLAG_ERR: u8 = 0x04;

/// CAN FD frame.
pub const FLAG_FD: u8 = 0x08;

/// Bit rate switch.
pub const FLAG_BRS: u8 = 0x10;

/// Error state indicator.
pub const FLAG_ESI: u8 = 0x20;

/// A CAN frame as it travels over TCP: independent of the host's architecture, with the numeric
/// identifier apart from the flags.
#[derive(Debug, PartialEq)]
pub struct WireFrameV1 {
    /// Version of the format.
    pub version: u8,
    /// Any of the `FLAG_` bits.
    pub flags: u8,
    /// The identifier, 11 bits wide or, with [`FLAG_EFF`], 29 bits.
    pub can_id: u32,
    /// The payload.
    pub data: Vec<u8>,
}

/// What a [`WireFrameV1`] holds.
#[verifier::ext_equal]
pub struct WireView {
    pub version: u8,
    pub flags: u8,
    pub can_id: u32,
    pub data: Seq<u8>,
}

impl View for WireFrameV1 {
    type V = WireView;

    open spec fn view(&self) -> WireView {
        WireView {
            version: self.version,
            flags: self.flags,
            can_id: self.can_id,
            data: self.data@,
        }
    }
}

/// A frame of the current version, which is version one.
pub open spec fn wire_v1(can_id: u32, data: Seq<u8>, flags: u8) -> WireView {
    WireView { version: 1, flags, can_id, data }
}

impl WireFrameV1 {
    /// Makes a frame of the current version.
    pub fn new(can_id: u32, data: &[u8], flags: u8) -> (frame: Self)
        ensures
            frame@ == wire_v1(can_id, data@, flags),
    {
        WireFrameV1 { version: 1, flags, can_id, data: vstd::slice::slice_to_vec(data) }
    }
}

} // verus!
