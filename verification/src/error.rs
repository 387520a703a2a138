//! The errors of the bridge, and how they read.
use vstd::prelude::*;

verus! {

/// Why a frame could not be sent, received or converted.
#[derive(Debug, Clone, Copy, PartialEq, Eq, Structural)]
pub enum WireError {
    /// The frame could not be serialized.
    Serialize,
    /// The serialized frame, of the given length, is longer than a record may be.
    PayloadTooLarge(usize),
    /// The stream ended before the length of a record was read.
    ReadLength,
    /// The stream ended before the payload of a record was read.
    ReadPayload,
    /// The payload is not a serialized frame.
    Deserialize,
    /// The frame carries the given number of data bytes, more than any CAN frame can.
    DataTooLarge(usize),
    /// Error frames come from the controller and cannot be written to a bus.
    ErrorFrame,
    /// The identifier does not fit into 29 bits.
    InvalidExtendedId,
    /// The identifier does not fit into 11 bits.
    InvalidStandardId,
    /// The data do not fit into a CAN FD frame.
    FdFrame,
    /// The requested length does not fit into a remote frame.
    RemoteFrame,
    /// The data do not fit into a classic CAN frame.
    DataFrame,
}

/// The decimal digit for a number below ten.
pub open spec fn digit(n: nat) -> char {
    (('0' as u32) + n) as char
}

/// A number in decimal notation.
pub open spec fn decimal(n: nat) -> Seq<char>
    decreases n,
{
    if n < 10 {
        seq![digit(n)]
    } else {
        decimal(n / 10).push(digit(n % 10))
    }
}

impl WireError {
    /// The message for this error.
    pub open spec fn text(self) -> Seq<char> {
        match self {
            WireError::Serialize => "Failed to serialize frame"@,
            WireError::PayloadTooLarge(n) => "Payload too large: "@ + decimal(n as nat)
                + " bytes"@,
            WireError::ReadLength => "Failed to read length"@,
            WireError::ReadPayload => "Failed to read payload"@,
            WireError::Deserialize => "Failed to deserialize frame"@,
            WireError::DataTooLarge(n) => "Data too large: "@ + decimal(n as nat) + " bytes"@,
            WireError::ErrorFrame => "Cannot transmit error frames"@,
            WireError::InvalidExtendedId => "Invalid extended ID"@,
            WireError::InvalidStandardId => "Invalid standard ID"@,
            WireError::FdFrame => "Failed to create CAN FD data frame"@,
            WireError::RemoteFrame => "Failed to create remote frame"@,
            WireError::DataFrame => "Failed to create data frame"@,
        }
    }

    /// The message for this error.
    pub fn to_string(&self) -> (message: String)
        ensures
            message@ == self.text(),
    {
        match self {
            WireError::Serialize => "Failed to serialize frame".to_owned(),
            WireError::PayloadTooLarge(n) => counted("Payload too large: ", *n),
            WireError::ReadLength => "Failed to read length".to_owned(),
            WireError::ReadPayload => "Failed to read payload".to_owned(),
            WireError::Deserialize => "Failed to deserialize frame".to_owned(),
            WireError::DataTooLarge(n) => counted("Data too large: ", *n),
            WireError::ErrorFrame => "Cannot transmit error frames".to_owned(),
            WireError::InvalidExtendedId => "Invalid extended ID".to_owned(),
            WireError::InvalidStandardId => "Invalid standard ID".to_owned(),
            WireError::FdFrame => "Failed to create CAN FD data frame".to_owned(),
            WireError::RemoteFrame => "Failed to create remote frame".to_owned(),
            WireError::DataFrame => "Failed to create data frame".to_owned(),
        }
    }
}

/// A message that ends in a number of bytes.
fn counted(prefix: &str, n: usize) -> (message: String)
    ensures
        message@ == prefix@ + decimal(n as nat) + " bytes"@,
{
    let mut message = prefix.to_owned();
    append_decimal(&mut message, n);
    message.append(" bytes");
    message
}

/// The digit for a number below ten.
fn digit_str(n: usize) -> (s: &'static str)
    requires
        n < 10,
    ensures
        s@ == seq![digit(n as nat)],
{
    proof {
        reveal_strlit("0");
        reveal_strlit("1");
        reveal_strlit("2");
        reveal_strlit("3");
        reveal_strlit("4");
        reveal_strlit("5");
        reveal_strlit("6");
        reveal_strlit("7");
        reveal_strlit("8");
        reveal_strlit("9");
    }
    match n {
        0 => "0",
        1 => "1",
        2 => "2",
        3 => "3",
        4 => "4",
        5 => "5",
        6 => "6",
        7 => "7",
        8 => "8",
        _ => "9",
    }
}

/// Writes a number in decimal notation behind a text.
fn append_decimal(text: &mut String, n: usize)
    ensures
        final(text)@ == old(text)@ + decimal(n as nat),
    decreases n,
{
    if n >= 10 {
        append_decimal(text, n / 10);
    }
    text.append(digit_str(n % 10));
    assert(text@ =~= old(text)@ + decimal(n as nat));
}

} // verus!
