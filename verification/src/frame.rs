//! CAN frames, and their conversion to and from the frames that travel over TCP.
use vstd::prelude::*;

use socketcan::EmbeddedFrame;

use crate::error::WireError;
use crate::wire;
use crate::wire::WireFrameV1;
use crate::wire::WireView;
use crate::wire::FLAG_BRS;
use crate::wire::FLAG_EFF;
use crate::wire::FLAG_ERR;
use crate::wire::FLAG_ESI;
use crate::wire::FLAG_FD;
use crate::wire::FLAG_RTR;

verus! {

/// A CAN identifier.
#[derive(Debug, Clone, Copy, PartialEq, Eq, Structural)]
pub enum CanId {
    /// An identifier of 11 bits.
    Standard(u16),
    /// An identifier of 29 bits.
    Extended(u32),
}

impl CanId {
    /// The identifier fits into its bits.
    pub open spec fn valid(self) -> bool {
        match self {
            CanId::Standard(raw) => raw <= 0x7FF,
            CanId::Extended(raw) => raw <= 0x1FFF_FFFF,
        }
    }

    /// The numeric identifier.
    pub open spec fn number(self) -> u32 {
        match self {
            CanId::Standard(raw) => raw as u32,
            CanId::Extended(raw) => raw,
        }
    }

    /// The flag that tells the width of the identifier.
    pub open spec fn flag(self) -> u8 {
        match self {
            CanId::Standard(_) => 0,
            CanId::Extended(_) => FLAG_EFF,
        }
    }
}

/// A frame on a CAN bus.
#[derive(Debug, PartialEq, Eq)]
pub enum CanFrame {
    /// A classic frame, with up to 8 bytes of data, and whether it is a remote request.
    Normal { id: CanId, remote: bool, data: Vec<u8> },
    /// A remote request, for so many bytes.
    Remote { id: CanId, dlc: usize },
    /// A report of an error on the bus.
    Error { data: Vec<u8> },
    /// A CAN FD frame, with up to 64 bytes of data, whether the bit rate switches for the data, and
    /// the error state that the sender indicates.
    Fd { id: CanId, brs: bool, esi: bool, data: Vec<u8> },
}

/// What a [`CanFrame`] holds.
#[verifier::ext_equal]
pub enum CanView {
    Normal { id: CanId, remote: bool, data: Seq<u8> },
    Remote { id: CanId, dlc: usize },
    Error { data: Seq<u8> },
    Fd { id: CanId, brs: bool, esi: bool, data: Seq<u8> },
}

impl View for CanFrame {
    type V = CanView;

    open spec fn view(&self) -> CanView {
        match self {
            CanFrame::Normal { id, remote, data } => CanView::Normal {
                id: *id,
                remote: *remote,
                data: data@,
            },
            CanFrame::Remote { id, dlc } => CanView::Remote { id: *id, dlc: *dlc },
            CanFrame::Error { data } => CanView::Error { data: data@ },
            CanFrame::Fd { id, brs, esi, data } => CanView::Fd {
                id: *id,
                brs: *brs,
                esi: *esi,
                data: data@,
            },
        }
    }
}

/// The least number of data bytes, from `n` up, that a CAN FD frame can have.
pub open spec fn fd_len(n: nat) -> nat {
    if n <= 8 {
        n
    } else if n <= 12 {
        12
    } else if n <= 16 {
        16
    } else if n <= 20 {
        20
    } else if n <= 24 {
        24
    } else if n <= 32 {
        32
    } else if n <= 48 {
        48
    } else {
        64
    }
}

/// The data with zero bytes behind them, up to a length that a CAN FD frame can have.
pub open spec fn fd_padded(data: Seq<u8>) -> Seq<u8> {
    data + Seq::new((fd_len(data.len()) - data.len()) as nat, |i: int| 0u8)
}

impl CanView {
    /// A frame that can be on a bus.
    pub open spec fn valid(self) -> bool {
        match self {
            CanView::Normal { id, remote, data } => id.valid() && !remote && data.len() <= 8,
            CanView::Remote { id, dlc } => id.valid() && dlc <= 8,
            CanView::Error { data } => data.len() <= 8,
            CanView::Fd { id, brs: _, esi: _, data } => id.valid() && data.len() <= 64 && fd_len(
                data.len(),
            ) == data.len(),
        }
    }
}

/// A flag, or nothing.
pub open spec fn flag_if(on: bool, flag: u8) -> u8 {
    if on {
        flag
    } else {
        0
    }
}

/// The frame that stands for a CAN frame on the wire. The length that a remote request asks for
/// is not carried over, nor is anything of an error frame but its data.
pub open spec fn wire_of(frame: CanView) -> WireView {
    match frame {
        CanView::Normal { id, remote, data } => wire::wire_v1(
            id.number(),
            data,
            id.flag() | flag_if(remote, FLAG_RTR),
        ),
        CanView::Remote { id, dlc: _ } => wire::wire_v1(
            id.number(),
            Seq::empty(),
            id.flag() | FLAG_RTR,
        ),
        CanView::Error { data } => wire::wire_v1(0, data, FLAG_ERR),
        CanView::Fd { id, brs, esi, data } => wire::wire_v1(
            id.number(),
            data,
            id.flag() | FLAG_FD | flag_if(brs, FLAG_BRS) | flag_if(esi, FLAG_ESI),
        ),
    }
}

/// Whether a flag is set.
pub open spec fn has(flags: u8, flag: u8) -> bool {
    flags & flag != 0
}

/// The identifier of a frame from the wire, if it fits into its bits.
pub open spec fn id_of(wire: WireView) -> Result<CanId, WireError> {
    if has(wire.flags, FLAG_EFF) {
        if wire.can_id <= 0x1FFF_FFFF {
            Ok(CanId::Extended(wire.can_id))
        } else {
            Err(WireError::InvalidExtendedId)
        }
    } else {
        if wire.can_id <= 0x7FF {
            Ok(CanId::Standard(wire.can_id as u16))
        } else {
            Err(WireError::InvalidStandardId)
        }
    }
}

/// The CAN frame that a frame from the wire stands for. Error frames are refused before anything
/// else is looked at, then identifiers that do not fit; a CAN FD frame is never a remote request.
pub open spec fn can_of(wire: WireView) -> Result<CanView, WireError> {
    let len = wire.data.len();
    if has(wire.flags, FLAG_ERR) {
        Err(WireError::ErrorFrame)
    } else {
        match id_of(wire) {
            Err(e) => Err(e),
            Ok(id) => if has(wire.flags, FLAG_FD) {
                if len <= 64 {
                    Ok(
                        CanView::Fd {
                            id,
                            brs: has(wire.flags, FLAG_BRS),
                            esi: has(wire.flags, FLAG_ESI),
                            data: fd_padded(wire.data),
                        },
                    )
                } else {
                    Err(WireError::FdFrame)
                }
            } else if has(wire.flags, FLAG_RTR) {
                if len <= 8 {
                    Ok(CanView::Remote { id, dlc: len as usize })
                } else {
                    Err(WireError::RemoteFrame)
                }
            } else {
                if len <= 8 {
                    Ok(CanView::Normal { id, remote: false, data: wire.data })
                } else {
                    Err(WireError::DataFrame)
                }
            },
        }
    }
}

/// `socketcan::StandardId::new`: the identifier, if it fits into 11 bits.
#[verifier::external_body]
fn standard_id(raw: u16) -> (r: Option<u16>)
    ensures
        r == if raw <= 0x7FF {
            Some(raw)
        } else {
            None
        },
{
    socketcan::StandardId::new(raw).map(|id| id.as_raw())
}

/// `socketcan::ExtendedId::new`: the identifier, if it fits into 29 bits.
#[verifier::external_body]
fn extended_id(raw: u32) -> (r: Option<u32>)
    ensures
        r == if raw <= 0x1FFF_FFFF {
            Some(raw)
        } else {
            None
        },
{
    socketcan::ExtendedId::new(raw).map(|id| id.as_raw())
}

/// `socketcan::CanDataFrame::new`: a classic data frame with the identifier and the data, if there
/// are at most 8 bytes of them.
#[verifier::external_body]
fn data_frame(id: CanId, data: &[u8]) -> (r: Option<CanFrame>)
    requires
        id.valid(),
    ensures
        r is Some <==> data@.len() <= 8,
        r is Some ==> r->Some_0@ == (CanView::Normal { id, remote: false, data: data@ }),
{
    let id = match id {
        CanId::Standard(raw) => socketcan::Id::from(socketcan::StandardId::new(raw)?),
        CanId::Extended(raw) => socketcan::Id::from(socketcan::ExtendedId::new(raw)?),
    };
    let frame = socketcan::CanDataFrame::new(id, data)?;
    let id = match frame.id() {
        socketcan::Id::Standard(id) => CanId::Standard(id.as_raw()),
        socketcan::Id::Extended(id) => CanId::Extended(id.as_raw()),
    };
    Some(CanFrame::Normal { id, remote: frame.is_remote_frame(), data: frame.data().to_vec() })
}

/// `socketcan::CanFdFrame::new`: a CAN FD frame with the identifier and the data, if there are at
/// most 64 bytes of them. Data of a length that a CAN FD frame cannot have get zero bytes behind
/// them, see [`fd_padded`]. `set_brs` and `set_esi` then set the two bits of the frame as given.
#[verifier::external_body]
fn fd_frame(id: CanId, brs: bool, esi: bool, data: &[u8]) -> (r: Option<CanFrame>)
    requires
        id.valid(),
    ensures
        r is Some <==> data@.len() <= 64,
        r is Some ==> r->Some_0@ == (CanView::Fd { id, brs, esi, data: fd_padded(data@) }),
{
    let id = match id {
        CanId::Standard(raw) => socketcan::Id::from(socketcan::StandardId::new(raw)?),
        CanId::Extended(raw) => socketcan::Id::from(socketcan::ExtendedId::new(raw)?),
    };
    let mut frame = socketcan::CanFdFrame::new(id, data)?;
    frame.set_brs(brs);
    frame.set_esi(esi);
    let id = match frame.id() {
        socketcan::Id::Standard(id) => CanId::Standard(id.as_raw()),
        socketcan::Id::Extended(id) => CanId::Extended(id.as_raw()),
    };
    let (brs, esi) = (frame.is_brs(), frame.is_esi());
    Some(CanFrame::Fd { id, brs, esi, data: frame.data().to_vec() })
}

/// `socketcan::CanRemoteFrame::new_remote`: a remote request with the identifier, for so many
/// bytes, if they are at most 8.
#[verifier::external_body]
fn remote_frame(id: CanId, dlc: usize) -> (r: Option<CanFrame>)
    requires
        id.valid(),
    ensures
        r is Some <==> dlc <= 8,
        r is Some ==> r->Some_0@ == (CanView::Remote { id, dlc }),
{
    let id = match id {
        CanId::Standard(raw) => socketcan::Id::from(socketcan::StandardId::new(raw)?),
        CanId::Extended(raw) => socketcan::Id::from(socketcan::ExtendedId::new(raw)?),
    };
    let frame = socketcan::CanRemoteFrame::new_remote(id, dlc)?;
    let id = match frame.id() {
        socketcan::Id::Standard(id) => CanId::Standard(id.as_raw()),
        socketcan::Id::Extended(id) => CanId::Extended(id.as_raw()),
    };
    Some(CanFrame::Remote { id, dlc: frame.dlc() })
}

/// The numeric identifier and the flag for its width.
fn split_id(id: CanId) -> (r: (u32, u8))
    ensures
        r == (id.number(), id.flag()),
{
    match id {
        CanId::Standard(raw) => (raw as u32, 0),
        CanId::Extended(raw) => (raw, FLAG_EFF),
    }
}

/// A flag, or nothing.
fn pick(on: bool, flag: u8) -> (r: u8)
    ensures
        r == flag_if(on, flag),
{
    if on {
        flag
    } else {
        0
    }
}

/// Converts a CAN frame to the frame that travels over TCP.
pub fn can_to_wire(frame: &CanFrame) -> (wire: WireFrameV1)
    ensures
        wire@ == wire_of(frame@),
{
    match frame {
        CanFrame::Normal { id, remote, data } => {
            let (can_id, eff) = split_id(*id);
            WireFrameV1::new(can_id, data.as_slice(), eff | pick(*remote, FLAG_RTR))
        },
        CanFrame::Fd { id, brs, esi, data } => {
            let (can_id, eff) = split_id(*id);
            let flags: u8 = eff | FLAG_FD | pick(*brs, FLAG_BRS) | pick(*esi, FLAG_ESI);
            WireFrameV1::new(can_id, data.as_slice(), flags)
        },
        CanFrame::Remote { id, dlc: _ } => {
            let (can_id, eff) = split_id(*id);
            let wire = WireFrameV1::new(can_id, &[], eff | FLAG_RTR);
            assert(wire@.data =~= Seq::<u8>::empty());
            wire
        },
        CanFrame::Error { data } => WireFrameV1::new(0, data.as_slice(), FLAG_ERR),
    }
}

/// Converts a frame from TCP to a CAN frame. Error frames are refused: they typically cannot be
/// written to a bus.
pub fn wire_to_can(wire: &WireFrameV1) -> (r: Result<CanFrame, WireError>)
    ensures
        match r {
            Ok(frame) => can_of(wire@) == Ok::<CanView, WireError>(frame@),
            Err(e) => can_of(wire@) == Err::<CanView, WireError>(e),
        },
{
    if wire.flags & FLAG_ERR != 0 {
        return Err(WireError::ErrorFrame);
    }
    let id = if wire.flags & FLAG_EFF != 0 {
        match extended_id(wire.can_id) {
            Some(raw) => CanId::Extended(raw),
            None => return Err(WireError::InvalidExtendedId),
        }
    } else {
        if wire.can_id > 0xFFFF {
            return Err(WireError::InvalidStandardId);
        }
        match standard_id(wire.can_id as u16) {
            Some(raw) => CanId::Standard(raw),
            None => return Err(WireError::InvalidStandardId),
        }
    };
    if wire.flags & FLAG_FD != 0 {
        let brs = wire.flags & FLAG_BRS != 0;
        let esi = wire.flags & FLAG_ESI != 0;
        match fd_frame(id, brs, esi, wire.data.as_slice()) {
            Some(frame) => Ok(frame),
            None => Err(WireError::FdFrame),
        }
    } else if wire.flags & FLAG_RTR != 0 {
        match remote_frame(id, wire.data.len()) {
            Some(frame) => Ok(frame),
            None => Err(WireError::RemoteFrame),
        }
    } else {
        match data_frame(id, wire.data.as_slice()) {
            Some(frame) => Ok(frame),
            None => Err(WireError::DataFrame),
        }
    }
}

} // verus!
