//! Requests to a control module and what comes back, as plain values: what the
//! sequences of this library decide on, and what a transport carries out.

use vstd::prelude::*;

use crate::text::{hex_upper, push_hex};

verus! {

/// Why a flash did not complete.
#[derive(Debug, Clone)]
pub enum FlashError {
    /// The control module refused a service.
    NegativeResponse { service: String, code: u8 },
    /// Nothing answered in time.
    Timeout,
    /// The interface failed.
    Interface(String),
    /// The seed-key authentication failed.
    AuthFailed,
    /// A block cannot be flashed as it is configured.
    Config(String),
}

/// What an error says.
pub enum Trouble {
    NegativeResponse(Seq<char>, u8),
    Timeout,
    Interface(Seq<char>),
    AuthFailed,
    Config(Seq<char>),
}

impl View for FlashError {
    type V = Trouble;

    open spec fn view(&self) -> Trouble {
        match self {
            FlashError::NegativeResponse { service, code } => Trouble::NegativeResponse(
                service@,
                *code,
            ),
            FlashError::Timeout => Trouble::Timeout,
            FlashError::Interface(why) => Trouble::Interface(why@),
            FlashError::AuthFailed => Trouble::AuthFailed,
            FlashError::Config(why) => Trouble::Config(why@),
        }
    }
}

impl Trouble {
    /// What the user is told.
    pub open spec fn text(self) -> Seq<char> {
        match self {
            Trouble::NegativeResponse(service, code) => "UDS negative response: service="@ + service
                + ", code=0x"@ + hex_upper(code as nat, 2),
            Trouble::Timeout => "Timeout waiting for ECU response"@,
            Trouble::Interface(why) => "Interface error: "@ + why,
            Trouble::AuthFailed => "SA2 seed-key authentication failed"@,
            Trouble::Config(why) => "Block configuration error: "@ + why,
        }
    }
}

impl FlashError {
    /// What the user is told.
    pub fn message(&self) -> (s: String)
        ensures
            s@ == self@.text(),
    {
        match self {
            FlashError::NegativeResponse { service, code } => {
                let mut s = "UDS negative response: service=".to_owned();
                s.push_str(service.as_str());
                s.push_str(", code=0x");
                push_hex(&mut s, *code as u64, 2);
                s
            },
            FlashError::Timeout => "Timeout waiting for ECU response".to_owned(),
            FlashError::Interface(why) => {
                let mut s = "Interface error: ".to_owned();
                s.push_str(why.as_str());
                s
            },
            FlashError::AuthFailed => "SA2 seed-key authentication failed".to_owned(),
            FlashError::Config(why) => {
                let mut s = "Block configuration error: ".to_owned();
                s.push_str(why.as_str());
                s
            },
        }
    }
}

/// How a request failed.
#[derive(Debug, Clone, Copy, PartialEq, Eq, Structural)]
pub enum FaultKind {
    /// Nothing answered in time.
    Timeout,
    /// The control module refused.
    Negative,
    /// Anything else.
    Other,
}

/// A failed request.
#[derive(Debug, Clone)]
pub struct UdsFault {
    pub kind: FaultKind,
    /// The failure in words.
    pub text: String,
}

impl UdsFault {
    /// The error a failed request turns into.
    pub open spec fn trouble(self) -> Trouble {
        if self.kind == FaultKind::Timeout {
            Trouble::Timeout
        } else {
            Trouble::Interface(self.text@)
        }
    }

    /// The error a failed request turns into.
    pub fn to_error(&self) -> (r: FlashError)
        ensures
            r@ == self.trouble(),
    {
        match self.kind {
            FaultKind::Timeout => FlashError::Timeout,
            _ => FlashError::Interface(self.text.clone()),
        }
    }
}

/// What is to be done next on the way to the control module.
#[derive(Debug, Clone)]
pub enum Action {
    /// DiagnosticSessionControl.
    Session(u8),
    /// RoutineControl, start.
    Routine(u16, Vec<u8>),
    TesterPresent,
    ReadDid(u16),
    WriteDid(u16, Vec<u8>),
    /// SecurityAccess, with the key where there is one.
    SecurityAccess(u8, Vec<u8>),
    /// RequestDownload.
    Download { compression: u8, encryption: u8, address: u8, size: Vec<u8> },
    /// TransferData.
    Transfer(u8, Vec<u8>),
    TransferExit,
    Reset(u8),
    /// The raw request `3E 10 02`, answered as [`crate::flash`] describes.
    SwitchPatch,
    /// Turn a seed into a key.
    ComputeKey(u32),
    /// Ask how many bytes of a patch go next into a block at an offset.
    PatchChunk(u8, usize),
    /// Wait for a number of milliseconds.
    Wait(u64),
    /// The sequence is over.
    Finished,
    /// The sequence has failed.
    Failed(FlashError),
}

/// An action as a value.
pub enum Act {
    Session(u8),
    Routine(u16, Seq<u8>),
    TesterPresent,
    ReadDid(u16),
    WriteDid(u16, Seq<u8>),
    SecurityAccess(u8, Seq<u8>),
    Download { compression: u8, encryption: u8, address: u8, size: Seq<u8> },
    Transfer(u8, Seq<u8>),
    TransferExit,
    Reset(u8),
    SwitchPatch,
    ComputeKey(u32),
    PatchChunk(u8, usize),
    Wait(u64),
    Finished,
    Failed(Trouble),
}

impl View for Action {
    type V = Act;

    open spec fn view(&self) -> Act {
        match self {
            Action::Session(s) => Act::Session(*s),
            Action::Routine(id, data) => Act::Routine(*id, data@),
            Action::TesterPresent => Act::TesterPresent,
            Action::ReadDid(did) => Act::ReadDid(*did),
            Action::WriteDid(did, data) => Act::WriteDid(*did, data@),
            Action::SecurityAccess(level, key) => Act::SecurityAccess(*level, key@),
            Action::Download { compression, encryption, address, size } => Act::Download {
                compression: *compression,
                encryption: *encryption,
                address: *address,
                size: size@,
            },
            Action::Transfer(counter, data) => Act::Transfer(*counter, data@),
            Action::TransferExit => Act::TransferExit,
            Action::Reset(kind) => Act::Reset(*kind),
            Action::SwitchPatch => Act::SwitchPatch,
            Action::ComputeKey(seed) => Act::ComputeKey(*seed),
            Action::PatchChunk(target, offset) => Act::PatchChunk(*target, *offset),
            Action::Wait(ms) => Act::Wait(*ms),
            Action::Finished => Act::Finished,
            Action::Failed(e) => Act::Failed(e@),
        }
    }
}

/// What an action came to.
#[derive(Debug, Clone)]
pub enum Reply {
    /// Carried out.
    Done,
    /// Answered with data.
    Data(Vec<u8>),
    /// A key that was computed.
    Key(u32),
    /// Answered with a size: of the largest transfer, or of the next patch chunk.
    Size(usize),
    /// Failed.
    Fault(UdsFault),
}

} // verus!
