//! The vocabulary of a flash: options, progress, the emission DTC clear, the
//! SwitchPatch fallback, read-only probes and the data-record sweep.
//!
//! The sequence itself stands in [`crate::sequence`].

use vstd::prelude::*;

use crate::bytes::to_vec;
use crate::identify::ChannelIdentification;
use crate::immo::{ImmoSnapshot, ImmoSupport};
use crate::interface::Interface;
use crate::module::FlashInfo;
use crate::text::{
    chars_of, hex_bytes, hex_upper, joined, lossy_utf8, push_hex, push_hex_bytes, str_eq, utf8_lossy,
};
use crate::uds::{FlashError, Trouble};
use crate::unlock::UnlockProbe;

verus! {

/// Response timeout for an ECU that is known to be there, in milliseconds.
///
/// Erasing a large block, or the block checksum routine, can run for many
/// seconds between response-pending frames.
pub const FLASH_TIMEOUT: u64 = 30_000;

/// Response timeout for finding out whether an ECU is there, in milliseconds.
pub const IDENT_TIMEOUT: u64 = 1_000;

/// ISO-TP padding byte of every frame that is sent.
pub const TX_PADDING_BYTE: u8 = 0x55;

/// The tester address of the emission DTC clear.
pub const OBD_TESTER_ID: u32 = 0x700;

/// The ECU address of the emission DTC clear.
pub const OBD_ECU_ID: u32 = 0x7E8;

/// How long the emission DTC clear and SwitchPatch wait for each answer, in
/// milliseconds.
pub const ANSWER_TIMEOUT: u64 = 5_000;

/// The configuration of an ISO-TP channel.
#[derive(Debug, Clone, Copy, PartialEq, Eq, Structural)]
pub struct IsoTpSettings {
    /// Tester to control module.
    pub tx_id: u32,
    /// Control module to tester.
    pub rx_id: u32,
    /// Response timeout in milliseconds.
    pub timeout: u64,
    /// Padding byte; `None` leaves it to the transport.
    pub padding: Option<u8>,
    /// Separation time between consecutive frames, in microseconds.
    pub separation_time_min: Option<u32>,
}

/// The diagnostic channel of a module, with a response timeout.
pub open spec fn channel_settings(flash_info: FlashInfo, timeout: u64) -> IsoTpSettings {
    IsoTpSettings {
        tx_id: flash_info.control_module_identifier.txid,
        rx_id: flash_info.control_module_identifier.rxid,
        timeout,
        padding: Some(TX_PADDING_BYTE),
        separation_time_min: None,
    }
}

/// ISO-TP configuration for a module's diagnostic channel.
pub fn make_isotp_config(flash_info: &FlashInfo) -> (r: IsoTpSettings)
    ensures
        r == channel_settings(*flash_info, FLASH_TIMEOUT),
{
    make_isotp_config_with_timeout(flash_info, FLASH_TIMEOUT)
}

/// [`make_isotp_config`] with an explicit response timeout: how long to wait is
/// a property of the question being asked, not of the module.
pub fn make_isotp_config_with_timeout(flash_info: &FlashInfo, timeout: u64) -> (r: IsoTpSettings)
    ensures
        r == channel_settings(*flash_info, timeout),
{
    IsoTpSettings {
        tx_id: flash_info.control_module_identifier.txid,
        rx_id: flash_info.control_module_identifier.rxid,
        timeout,
        padding: Some(TX_PADDING_BYTE),
        separation_time_min: None,
    }
}

/// What the OBD-II emission DTC clear did.
///
/// Best effort, a failure never aborts a flash, but never silent: an ECU refuses
/// the programming precondition while emission DTCs are stored.
#[derive(Debug, Clone, PartialEq, Eq)]
pub enum DtcClearOutcome {
    /// The ECU answered `0x44`.
    Cleared,
    /// The ECU answered a negative response other than `0x78`.
    Refused { nrc: u8 },
    /// Something answered, but not to the service that was asked for.
    Unexpected(Vec<u8>),
    /// Nothing answered before the timeout.
    Silent,
    /// The clear could not be sent at all.
    Failed(String),
}

/// An outcome as a value.
pub enum Dtc {
    Cleared,
    Refused(u8),
    Unexpected(Seq<u8>),
    Silent,
    Failed(Seq<char>),
}

impl View for DtcClearOutcome {
    type V = Dtc;

    open spec fn view(&self) -> Dtc {
        match self {
            DtcClearOutcome::Cleared => Dtc::Cleared,
            DtcClearOutcome::Refused { nrc } => Dtc::Refused(*nrc),
            DtcClearOutcome::Unexpected(bytes) => Dtc::Unexpected(bytes@),
            DtcClearOutcome::Silent => Dtc::Silent,
            DtcClearOutcome::Failed(why) => Dtc::Failed(why@),
        }
    }
}

/// Bytes as a bracketed list of two-digit hexadecimal numbers.
pub open spec fn hex_list(bytes: Seq<u8>) -> Seq<char> {
    "["@ + joined(bytes.map_values(|b: u8| hex_upper(b as nat, 2)), ", "@) + "]"@
}

fn push_hex_list(s: &mut String, bytes: &Vec<u8>)
    ensures
        final(s)@ == old(s)@ + hex_list(bytes@),
{
    let ghost parts = bytes@.map_values(|b: u8| hex_upper(b as nat, 2));
    s.push_str("[");
    let ghost start = s@;
    let mut i: usize = 0;
    assert(parts.take(0) == Seq::<Seq<char>>::empty());
    assert(s@ == start + joined(parts.take(0), ", "@));
    while i < bytes.len()
        invariant
            i <= bytes@.len(),
            parts == bytes@.map_values(|b: u8| hex_upper(b as nat, 2)),
            s@ == start + joined(parts.take(i as int), ", "@),
        decreases bytes@.len() - i,
    {
        let ghost next = parts.take(i + 1);
        assert(next.drop_last() == parts.take(i as int));
        assert(next.last() == parts[i as int]);
        if i > 0 {
            s.push_str(", ");
        }
        push_hex(s, bytes[i] as u64, 2);
        assert(s@ == start + joined(next, ", "@)) by {
            if i == 0 {
                assert(joined(parts.take(0), ", "@) == Seq::<char>::empty());
            }
        }
        i = i + 1;
    }
    assert(parts.take(i as int) == parts);
    s.push_str("]");
}

impl Dtc {
    /// What the user is told.
    pub open spec fn text(self) -> Seq<char> {
        match self {
            Dtc::Cleared => "emission DTCs cleared"@,
            Dtc::Refused(nrc) => "the ECU refused the DTC clear (NRC 0x"@ + hex_upper(nrc as nat, 2)
                + ")"@,
            Dtc::Unexpected(bytes) => "unexpected answer to the DTC clear: "@ + hex_list(bytes),
            Dtc::Silent => "no answer to the DTC clear"@,
            Dtc::Failed(why) => "could not send the DTC clear: "@ + why,
        }
    }
}

impl DtcClearOutcome {
    /// Whether the ECU confirmed the clear.
    pub fn is_cleared(&self) -> (r: bool)
        ensures
            r == (self@ is Cleared),
    {
        match self {
            DtcClearOutcome::Cleared => true,
            _ => false,
        }
    }

    /// What the user is told.
    pub fn message(&self) -> (s: String)
        ensures
            s@ == self@.text(),
    {
        match self {
            DtcClearOutcome::Cleared => "emission DTCs cleared".to_owned(),
            DtcClearOutcome::Refused { nrc } => {
                let mut s = "the ECU refused the DTC clear (NRC 0x".to_owned();
                push_hex(&mut s, *nrc as u64, 2);
                s.push_str(")");
                s
            },
            DtcClearOutcome::Unexpected(bytes) => {
                let mut s = "unexpected answer to the DTC clear: ".to_owned();
                push_hex_list(&mut s, bytes);
                s
            },
            DtcClearOutcome::Silent => "no answer to the DTC clear".to_owned(),
            DtcClearOutcome::Failed(why) => {
                let mut s = "could not send the DTC clear: ".to_owned();
                s.push_str(why.as_str());
                s
            },
        }
    }
}

/// What came in on a transport that is listened to.
#[derive(Debug, Clone)]
pub enum Incoming {
    /// A message.
    Message(Vec<u8>),
    /// The transport failed; holds why.
    Fault(String),
    /// The transport closed.
    Closed,
    /// Nothing came in time.
    TimedOut,
}

/// Whether a message only says that the answer is still to come.
pub open spec fn response_pending(m: Seq<u8>) -> bool {
    m.len() >= 3 && m[0] == 0x7F && m[2] == 0x78
}

fn is_pending(m: &Vec<u8>) -> (r: bool)
    ensures
        r == response_pending(m@),
{
    m.len() >= 3 && m[0] == 0x7F && m[2] == 0x78
}

/// What an incoming message makes of the emission DTC clear. `None`: keep
/// waiting.
pub open spec fn dtc_outcome(i: Incoming) -> Option<Dtc> {
    match i {
        Incoming::Message(m) => if response_pending(m@) {
            None
        } else if m@.len() > 0 && m@[0] == 0x44 {
            Some(Dtc::Cleared)
        } else if m@.len() >= 3 && m@[0] == 0x7F && m@[1] == 0x04 {
            Some(Dtc::Refused(m@[2]))
        } else {
            Some(Dtc::Unexpected(m@))
        },
        Incoming::Fault(why) => Some(Dtc::Failed(why@)),
        Incoming::Closed => Some(Dtc::Failed("the transport closed"@)),
        Incoming::TimedOut => Some(Dtc::Silent),
    }
}

/// The request of the emission DTC clear: OBD-II mode 04.
pub fn obd_dtc_clear_request() -> (r: Vec<u8>)
    ensures
        r@ == seq![0x04u8],
{
    vec![0x04]
}

/// Judge what came in while waiting for the answer to the emission DTC clear.
/// Every responsePending is consumed and waited out: leaving it would leak the
/// answer into whatever runs next.
pub fn classify_dtc_answer(incoming: &Incoming) -> (r: Option<DtcClearOutcome>)
    ensures
        r is Some <==> dtc_outcome(*incoming) is Some,
        r matches Some(o) ==> dtc_outcome(*incoming) == Some(o@),
{
    match incoming {
        Incoming::Message(m) => {
            if is_pending(m) {
                None
            } else if m.len() > 0 && m[0] == 0x44 {
                Some(DtcClearOutcome::Cleared)
            } else if m.len() >= 3 && m[0] == 0x7F && m[1] == 0x04 {
                Some(DtcClearOutcome::Refused { nrc: m[2] })
            } else {
                Some(DtcClearOutcome::Unexpected(to_vec(m.as_slice())))
            }
        },
        Incoming::Fault(why) => Some(DtcClearOutcome::Failed(why.clone())),
        Incoming::Closed => Some(DtcClearOutcome::Failed("the transport closed".to_owned())),
        Incoming::TimedOut => Some(DtcClearOutcome::Silent),
    }
}

/// The raw SwitchPatch request.
pub fn switchpatch_request() -> (r: Vec<u8>)
    ensures
        r@ == seq![0x3Eu8, 0x10, 0x02],
{
    let r: Vec<u8> = vec![0x3E, 0x10, 0x02];
    assert(r@ == seq![0x3Eu8, 0x10, 0x02]);
    r
}

/// What an incoming message makes of SwitchPatch. `None`: keep waiting. Both the
/// echo of the service and that of the session it stands for are accepted.
pub open spec fn switchpatch_outcome(i: Incoming) -> Option<Result<(), Trouble>> {
    match i {
        Incoming::Message(m) => if m@.len() == 0 || response_pending(m@) {
            None
        } else if m@[0] == 0x7E || m@[0] == 0x50 {
            Some(Ok(()))
        } else if m@[0] == 0x7F {
            Some(
                Err(
                    Trouble::NegativeResponse(
                        "SwitchPatch (3E 10 02)"@,
                        if m@.len() >= 3 {
                            m@[2]
                        } else {
                            0
                        },
                    ),
                ),
            )
        } else {
            Some(
                Err(
                    Trouble::Interface(
                        "SwitchPatch: unexpected response SID 0x"@ + hex_upper(m@[0] as nat, 2),
                    ),
                ),
            )
        },
        Incoming::Fault(why) => Some(Err(Trouble::Interface(why@))),
        Incoming::Closed => Some(Err(Trouble::Timeout)),
        Incoming::TimedOut => Some(Err(Trouble::Timeout)),
    }
}

/// Judge what came in while waiting for the answer to SwitchPatch.
pub fn classify_switchpatch_answer(incoming: &Incoming) -> (r: Option<Result<(), FlashError>>)
    ensures
        match r {
            None => switchpatch_outcome(*incoming) is None,
            Some(Ok(())) => switchpatch_outcome(*incoming) == Some(Ok::<(), Trouble>(())),
            Some(Err(e)) => switchpatch_outcome(*incoming) == Some(Err::<(), Trouble>(e@)),
        },
{
    match incoming {
        Incoming::Message(m) => {
            if m.len() == 0 || is_pending(m) {
                None
            } else if m[0] == 0x7E || m[0] == 0x50 {
                Some(Ok(()))
            } else if m[0] == 0x7F {
                let code: u8 = if m.len() >= 3 {
                    m[2]
                } else {
                    0
                };
                Some(
                    Err(
                        FlashError::NegativeResponse {
                            service: "SwitchPatch (3E 10 02)".to_owned(),
                            code,
                        },
                    ),
                )
            } else {
                let mut why = "SwitchPatch: unexpected response SID 0x".to_owned();
                push_hex(&mut why, m[0] as u64, 2);
                Some(Err(FlashError::Interface(why)))
            }
        },
        Incoming::Fault(why) => Some(Err(FlashError::Interface(why.clone()))),
        Incoming::Closed => Some(Err(FlashError::Timeout)),
        Incoming::TimedOut => Some(Err(FlashError::Timeout)),
    }
}

/// Progress events of a flash.
#[derive(Debug, Clone)]
pub enum ProgressUpdate {
    /// The emission DTC clear before programming.
    ClearingDtcs,
    /// What that clear did, whether or not it worked.
    DtcsCleared(DtcClearOutcome),
    /// Opening the extended diagnostic session.
    Connecting,
    /// The VIN was read from the ECU.
    ReadVin { vin: String },
    /// Checking the programming precondition.
    CheckingPreconditions,
    /// Upgrading to the programming session.
    ProgrammingSession,
    /// The normal programming-session request was refused and the SwitchPatch
    /// fallback was accepted. No evidence that the ECU is unlocked.
    SwitchPatchUsed,
    /// Seed-key authentication.
    Authenticating,
    /// Writing the workshop code.
    WritingWorkshopCode,
    /// Starting to flash a block.
    FlashingBlock { name: String, index: usize, total: usize },
    /// Erasing the block.
    BlockErasing { name: String },
    /// Requesting the download.
    BlockDownloading { name: String },
    /// Bytes of the block that are sent.
    BlockTransferProgress { name: String, bytes_sent: usize, bytes_total: usize },
    /// Verifying the block checksum.
    BlockChecksum { name: String },
    /// The block is finished.
    BlockComplete { index: usize },
    /// Verifying the programming dependencies.
    Verifying,
    /// Resetting the ECU.
    EcuReset,
    /// The flash finished successfully.
    Complete,
    /// The flash failed.
    Error(String),
}

/// A progress event as a value.
pub enum Progress {
    ClearingDtcs,
    DtcsCleared(Dtc),
    Connecting,
    ReadVin(Seq<char>),
    CheckingPreconditions,
    ProgrammingSession,
    SwitchPatchUsed,
    Authenticating,
    WritingWorkshopCode,
    FlashingBlock(Seq<char>, usize, usize),
    BlockErasing(Seq<char>),
    BlockDownloading(Seq<char>),
    BlockTransferProgress(Seq<char>, usize, usize),
    BlockChecksum(Seq<char>),
    BlockComplete(usize),
    Verifying,
    EcuReset,
    Complete,
    Error(Seq<char>),
}

impl View for ProgressUpdate {
    type V = Progress;

    open spec fn view(&self) -> Progress {
        match self {
            ProgressUpdate::ClearingDtcs => Progress::ClearingDtcs,
            ProgressUpdate::DtcsCleared(o) => Progress::DtcsCleared(o@),
            ProgressUpdate::Connecting => Progress::Connecting,
            ProgressUpdate::ReadVin { vin } => Progress::ReadVin(vin@),
            ProgressUpdate::CheckingPreconditions => Progress::CheckingPreconditions,
            ProgressUpdate::ProgrammingSession => Progress::ProgrammingSession,
            ProgressUpdate::SwitchPatchUsed => Progress::SwitchPatchUsed,
            ProgressUpdate::Authenticating => Progress::Authenticating,
            ProgressUpdate::WritingWorkshopCode => Progress::WritingWorkshopCode,
            ProgressUpdate::FlashingBlock { name, index, total } => Progress::FlashingBlock(
                name@,
                *index,
                *total,
            ),
            ProgressUpdate::BlockErasing { name } => Progress::BlockErasing(name@),
            ProgressUpdate::BlockDownloading { name } => Progress::BlockDownloading(name@),
            ProgressUpdate::BlockTransferProgress { name, bytes_sent, bytes_total } =>
                Progress::BlockTransferProgress(name@, *bytes_sent, *bytes_total),
            ProgressUpdate::BlockChecksum { name } => Progress::BlockChecksum(name@),
            ProgressUpdate::BlockComplete { index } => Progress::BlockComplete(*index),
            ProgressUpdate::Verifying => Progress::Verifying,
            ProgressUpdate::EcuReset => Progress::EcuReset,
            ProgressUpdate::Complete => Progress::Complete,
            ProgressUpdate::Error(why) => Progress::Error(why@),
        }
    }
}

/// Several progress events as values.
pub open spec fn told(v: Seq<ProgressUpdate>) -> Seq<Progress> {
    v.map_values(|p: ProgressUpdate| p@)
}

/// Options of a flash.
#[derive(Debug, Clone)]
pub struct FlashOptions {
    /// Whether to apply the CBOOT patch.
    pub patch_cboot: bool,
    /// Physical interface to use.
    pub interface: Interface,
    /// Separation time in microseconds, in place of the module's own.
    pub stmin_override: Option<u32>,
    /// Workshop code written before the first block.
    pub workshop_code: [u8; 9],
}

/// The separation time of a flash: the module's own unless another was asked
/// for, not a global constant.
pub open spec fn separation_time(stmin_override: Option<u32>, flash_info: FlashInfo) -> u32 {
    match stmin_override {
        Some(us) => us,
        None => flash_info.default_stmin_us,
    }
}

/// The channel a flash uses.
pub fn flash_channel(flash_info: &FlashInfo, timeout: u64, stmin_override: Option<u32>) -> (r:
    IsoTpSettings)
    ensures
        r == (IsoTpSettings {
            separation_time_min: Some(separation_time(stmin_override, *flash_info)),
            ..channel_settings(*flash_info, timeout)
        }),
{
    let mut r = make_isotp_config_with_timeout(flash_info, timeout);
    r.separation_time_min = Some(
        match stmin_override {
            Some(us) => us,
            None => flash_info.default_stmin_us,
        },
    );
    r
}

/// The channel of the emission DTC clear.
pub fn obd_channel() -> (r: IsoTpSettings)
    ensures
        r == (IsoTpSettings {
            tx_id: OBD_TESTER_ID,
            rx_id: OBD_ECU_ID,
            timeout: 2_000,
            padding: None,
            separation_time_min: None,
        }),
{
    IsoTpSettings {
        tx_id: OBD_TESTER_ID,
        rx_id: OBD_ECU_ID,
        timeout: 2_000,
        padding: None,
        separation_time_min: None,
    }
}

/// Whether the emission DTC clear needs the device for itself: a hardware
/// ISO 15765 channel is bound to its addresses, and the driver opens no second
/// one while it is held.
pub fn obd_clear_needs_own_device(interface: &Interface) -> (r: bool)
    ensures
        r == !interface@.raw_can(),
{
    !crate::interface::supports_raw_can(interface)
}

/// The parts of a flash, from the first emission DTC clear to the last.
#[derive(Debug, Clone, Copy, PartialEq, Eq, Structural)]
pub enum FlashPart {
    /// Clear the DTCs over a device of its own.
    ClearAlone,
    /// Open the session.
    Open,
    /// Clear the DTCs over the open session.
    ClearShared,
    /// Run the flash sequence.
    Run,
    /// Clear the DTCs over the open session again, after the reboot.
    ClearSharedAgain,
    /// Close the session; tells whether the flash worked.
    Close { flashed: bool },
    /// Clear the DTCs over a device of its own again, after the reboot.
    ClearAloneAgain,
    /// Over; tells whether the flash worked.
    Over { flashed: bool },
}

/// The first part of a flash.
pub open spec fn first_part(own_device: bool) -> FlashPart {
    if own_device {
        FlashPart::ClearAlone
    } else {
        FlashPart::Open
    }
}

/// The part that follows one that worked or did not.
pub open spec fn next_part(own_device: bool, part: FlashPart, worked: bool) -> FlashPart {
    match part {
        FlashPart::ClearAlone => FlashPart::Open,
        FlashPart::Open => if !worked {
            FlashPart::Over { flashed: false }
        } else if own_device {
            FlashPart::Run
        } else {
            FlashPart::ClearShared
        },
        FlashPart::ClearShared => FlashPart::Run,
        FlashPart::Run => if worked && !own_device {
            FlashPart::ClearSharedAgain
        } else {
            FlashPart::Close { flashed: worked }
        },
        FlashPart::ClearSharedAgain => FlashPart::Close { flashed: true },
        FlashPart::Close { flashed } => if flashed && own_device {
            FlashPart::ClearAloneAgain
        } else {
            FlashPart::Over { flashed }
        },
        FlashPart::ClearAloneAgain => FlashPart::Over { flashed: true },
        FlashPart::Over { flashed } => FlashPart::Over { flashed },
    }
}

/// Start a flash.
pub fn begin_flash(own_device: bool) -> (r: FlashPart)
    ensures
        r == first_part(own_device),
{
    if own_device {
        FlashPart::ClearAlone
    } else {
        FlashPart::Open
    }
}

/// Go on with a flash.
pub fn continue_flash(own_device: bool, part: FlashPart, worked: bool) -> (r: FlashPart)
    ensures
        r == next_part(own_device, part, worked),
{
    match part {
        FlashPart::ClearAlone => FlashPart::Open,
        FlashPart::Open => {
            if !worked {
                FlashPart::Over { flashed: false }
            } else if own_device {
                FlashPart::Run
            } else {
                FlashPart::ClearShared
            }
        },
        FlashPart::ClearShared => FlashPart::Run,
        FlashPart::Run => {
            if worked && !own_device {
                FlashPart::ClearSharedAgain
            } else {
                FlashPart::Close { flashed: worked }
            }
        },
        FlashPart::ClearSharedAgain => FlashPart::Close { flashed: true },
        FlashPart::Close { flashed } => {
            if flashed && own_device {
                FlashPart::ClearAloneAgain
            } else {
                FlashPart::Over { flashed }
            }
        },
        FlashPart::ClearAloneAgain => FlashPart::Over { flashed: true },
        FlashPart::Over { flashed } => FlashPart::Over { flashed },
    }
}

/// The parts of a whole flash, given whether the session opens and whether the
/// sequence works; `n` bounds how many are listed.
pub open spec fn parts(own_device: bool, opens: bool, flashes: bool, from: FlashPart, n: nat) -> Seq<
    FlashPart,
>
    decreases n,
{
    if n == 0 {
        Seq::empty()
    } else {
        let worked = if from is Open {
            opens
        } else {
            flashes
        };
        seq![from] + parts(
            own_device,
            opens,
            flashes,
            next_part(own_device, from, worked),
            (n - 1) as nat,
        )
    }
}

/// A flash clears the DTCs before it, over whatever device can; clears them again
/// exactly where it worked; and closes exactly what it opened. On a hardware
/// ISO 15765 interface both clears happen while no session is open.
pub proof fn law_order_of_a_flash(own_device: bool, opens: bool, flashes: bool)
    ensures
        ({
            let all = parts(own_device, opens, flashes, first_part(own_device), 6);
            let over = FlashPart::Over { flashed: opens && flashes };
            if own_device {
                if !opens {
                    all.take(3) == seq![FlashPart::ClearAlone, FlashPart::Open, over]
                } else if !flashes {
                    all.take(5) == seq![
                        FlashPart::ClearAlone,
                        FlashPart::Open,
                        FlashPart::Run,
                        (FlashPart::Close { flashed: false }),
                        over,
                    ]
                } else {
                    all == seq![
                        FlashPart::ClearAlone,
                        FlashPart::Open,
                        FlashPart::Run,
                        (FlashPart::Close { flashed: true }),
                        FlashPart::ClearAloneAgain,
                        over,
                    ]
                }
            } else {
                if !opens {
                    all.take(2) == seq![FlashPart::Open, over]
                } else if !flashes {
                    all.take(5) == seq![
                        FlashPart::Open,
                        FlashPart::ClearShared,
                        FlashPart::Run,
                        (FlashPart::Close { flashed: false }),
                        over,
                    ]
                } else {
                    all == seq![
                        FlashPart::Open,
                        FlashPart::ClearShared,
                        FlashPart::Run,
                        FlashPart::ClearSharedAgain,
                        (FlashPart::Close { flashed: true }),
                        over,
                    ]
                }
            }
        }),
{
    reveal_with_fuel(parts, 7);
}

/// A read-only question to ask an ECU.
#[derive(Debug, Clone)]
pub enum ProbeKind {
    /// Which supported module answers on the channel.
    Identify,
    /// Whether the CBOOT is patched. Leaves the ECU in the bootloader.
    UnlockState,
    /// The immobilizer snapshot.
    Immobilizer(ImmoSupport),
    /// Reset the ECU, for example to bring it out of the bootloader.
    Reset,
}

/// The answer to a [`ProbeKind`].
#[derive(Debug, Clone)]
pub enum ProbeOutcome<'a> {
    Identify(Option<ChannelIdentification<'a>>),
    UnlockState(UnlockProbe),
    Immobilizer(ImmoSnapshot),
    Reset,
}

/// Whether the emission DTCs are cleared before a probe, over a device of their
/// own: the unlock probe enters the programming session.
pub fn probe_clears_first(what: &ProbeKind, interface: &Interface) -> (r: bool)
    ensures
        r == (what is UnlockState && !interface@.raw_can()),
{
    match what {
        ProbeKind::UnlockState => obd_clear_needs_own_device(interface),
        _ => false,
    }
}

/// A record of the data-record sweep.
#[derive(Debug, Clone)]
pub struct DataRecord {
    pub address: u16,
    pub description: String,
    /// Whether the record is text; else it is shown as hexadecimal bytes.
    pub text: bool,
}

/// A line of a listing.
pub struct Line {
    pub key: Seq<char>,
    pub value: Seq<char>,
}

/// The lines of a listing.
pub open spec fn lines_of(v: Seq<(String, String)>) -> Seq<Line> {
    v.map_values(|l: (String, String)| Line { key: l.0@, value: l.1@ })
}

/// A listing with one more line: it takes the place of one with the same key.
pub open spec fn with_line(lines: Seq<Line>, line: Line) -> Seq<Line>
    decreases lines.len(),
{
    if lines.len() == 0 {
        seq![line]
    } else if lines[0].key == line.key {
        seq![line] + lines.skip(1)
    } else {
        seq![lines[0]] + with_line(lines.skip(1), line)
    }
}

/// What is listed for the answer to a record, where `decoded` is its text.
pub open spec fn record_line(record: DataRecord, bytes: Seq<u8>, decoded: Seq<char>) -> Line {
    Line {
        key: if record.description@.len() == 0 {
            "DID 0x"@ + hex_upper(record.address as nat, 4)
        } else {
            record.description@
        },
        value: if record.text {
            decoded
        } else {
            hex_bytes(bytes)
        },
    }
}

fn put_line(lines: &mut Vec<(String, String)>, key: String, value: String)
    ensures
        lines_of(final(lines)@) == with_line(
            lines_of(old(lines)@),
            (Line { key: key@, value: value@ }),
        ),
{
    let ghost all = lines_of(lines@);
    let ghost line = Line { key: key@, value: value@ };
    let mut i: usize = 0;
    assert(all.skip(0) == all);
    assert(all.take(0) + with_line(all.skip(0), line) == with_line(all, line));
    while i < lines.len()
        invariant
            i <= lines@.len(),
            lines@ == old(lines)@,
            all == lines_of(lines@),
            line == (Line { key: key@, value: value@ }),
            with_line(all, line) == all.take(i as int) + with_line(all.skip(i as int), line),
        decreases lines@.len() - i,
    {
        let ghost rest = all.skip(i as int);
        assert(rest[0] == all[i as int]);
        assert(rest.skip(1) == all.skip(i + 1));
        if str_eq(lines[i].0.as_str(), key.as_str()) {
            lines.set(i, (key, value));
            assert(lines_of(lines@) == all.take(i as int) + (seq![line] + all.skip(i + 1)));
            return;
        }
        assert(all.take(i as int) + (seq![rest[0]] + with_line(rest.skip(1), line)) == all.take(
            i + 1,
        ) + with_line(all.skip(i + 1), line));
        i = i + 1;
    }
    assert(all.take(i as int) == all);
    assert(all.skip(i as int).len() == 0);
    lines.push((key, value));
    assert(lines_of(lines@) == all + seq![line]);
}

/// List the answer to a record, given its text.
pub fn list_record(
    lines: &mut Vec<(String, String)>,
    record: &DataRecord,
    bytes: &[u8],
    decoded: &str,
)
    ensures
        lines_of(final(lines)@) == with_line(
            lines_of(old(lines)@),
            record_line(*record, bytes@, decoded@),
        ),
{
    let mut key = String::new();
    if chars_of(record.description.as_str()).len() == 0 {
        key.push_str("DID 0x");
        push_hex(&mut key, record.address as u64, 4);
        assert(key@ == "DID 0x"@ + hex_upper(record.address as nat, 4));
    } else {
        key.push_str(record.description.as_str());
        assert(key@ == record.description@);
    }
    let mut value = String::new();
    if record.text {
        value.push_str(decoded);
        assert(value@ == decoded@);
    } else {
        push_hex_bytes(&mut value, bytes);
        assert(value@ == hex_bytes(bytes@));
    }
    put_line(lines, key, value);
}

/// What a sweep lists: one line per record that answered, a later record
/// replacing an earlier one of the same name.
pub open spec fn sweep(answers: Seq<(DataRecord, Option<Vec<u8>>)>) -> Seq<Line>
    decreases answers.len(),
{
    if answers.len() == 0 {
        Seq::empty()
    } else {
        let before = sweep(answers.drop_last());
        let (record, answer) = answers.last();
        match answer {
            Some(bytes) => with_line(before, record_line(record, bytes@, utf8_lossy(bytes@))),
            None => before,
        }
    }
}

/// List the answers of the data-record sweep by human description. A record that
/// was refused is not listed.
pub fn list_records(answers: &Vec<(DataRecord, Option<Vec<u8>>)>) -> (r: Vec<(String, String)>)
    ensures
        lines_of(r@) == sweep(answers@),
{
    let mut lines: Vec<(String, String)> = Vec::new();
    let mut i: usize = 0;
    assert(answers@.take(0) == Seq::<(DataRecord, Option<Vec<u8>>)>::empty());
    assert(lines_of(lines@) == Seq::<Line>::empty());
    while i < answers.len()
        invariant
            i <= answers@.len(),
            lines_of(lines@) == sweep(answers@.take(i as int)),
        decreases answers@.len() - i,
    {
        let ghost next = answers@.take(i + 1);
        assert(next.drop_last() == answers@.take(i as int));
        assert(next.last() == answers@[i as int]);
        let record = &answers[i].0;
        if let Some(bytes) = &answers[i].1 {
            let decoded = lossy_utf8(bytes.as_slice());
            list_record(&mut lines, record, bytes.as_slice(), decoded.as_str());
        }
        i = i + 1;
    }
    assert(answers@.take(i as int) == answers@);
    lines
}

/// No name is listed twice.
pub proof fn law_a_name_is_listed_once(answers: Seq<(DataRecord, Option<Vec<u8>>)>, i: int, j: int)
    requires
        0 <= i < j < sweep(answers).len(),
    ensures
        sweep(answers)[i].key != sweep(answers)[j].key,
    decreases answers.len(),
{
    let (record, answer) = answers.last();
    let before = sweep(answers.drop_last());
    assert forall|a: int, b: int| 0 <= a < b < before.len() implies before[a].key
        != before[b].key by {
        law_a_name_is_listed_once(answers.drop_last(), a, b);
    }
    if let Some(bytes) = answer {
        lemma_with_line_unique(before, record_line(record, bytes@, utf8_lossy(bytes@)));
    }
}

proof fn lemma_with_line_unique(lines: Seq<Line>, line: Line)
    requires
        forall|a: int, b: int| 0 <= a < b < lines.len() ==> lines[a].key != lines[b].key,
    ensures
        forall|a: int, b: int|
            0 <= a < b < with_line(lines, line).len() ==> with_line(lines, line)[a].key
                != with_line(lines, line)[b].key,
        forall|a: int|
            0 <= a < with_line(lines, line).len() ==> (with_line(lines, line)[a].key == line.key
                || exists|b: int|
                0 <= b < lines.len() && (#[trigger] lines[b]).key == with_line(lines, line)[a].key),
    decreases lines.len(),
{
    if lines.len() > 0 {
        let rest = lines.skip(1);
        assert forall|a: int, b: int| 0 <= a < b < rest.len() implies rest[a].key != rest[b].key by {
            assert(rest[a] == lines[a + 1]);
            assert(rest[b] == lines[b + 1]);
        }
        lemma_with_line_unique(rest, line);
        let r = with_line(lines, line);
        if lines[0].key == line.key {
            assert forall|a: int| 0 <= a < r.len() implies (r[a].key == line.key || exists|b: int|
                0 <= b < lines.len() && (#[trigger] lines[b]).key == r[a].key) by {
                if a > 0 {
                    assert(r[a] == lines[a]);
                }
            }
            assert forall|a: int, b: int| 0 <= a < b < r.len() implies r[a].key != r[b].key by {
                assert(r[b] == lines[b]);
                if a == 0 {
                    assert(lines[0].key != lines[b].key);
                } else {
                    assert(r[a] == lines[a]);
                }
            }
        } else {
            let t = with_line(rest, line);
            assert(r == seq![lines[0]] + t);
            assert forall|a: int| 0 <= a < t.len() implies t[a].key != lines[0].key by {
                if t[a].key != line.key {
                    let b = choose|b: int|
                        0 <= b < rest.len() && (#[trigger] rest[b]).key == t[a].key;
                    assert(rest[b] == lines[b + 1]);
                    assert(lines[0].key != lines[b + 1].key);
                }
            }
            assert forall|a: int| 0 <= a < r.len() implies (r[a].key == line.key || exists|b: int|
                0 <= b < lines.len() && (#[trigger] lines[b]).key == r[a].key) by {
                if a == 0 {
                    assert(r[0] == lines[0]);
                } else {
                    assert(r[a] == t[a - 1]);
                    if t[a - 1].key != line.key {
                        let b = choose|b: int|
                            0 <= b < rest.len() && (#[trigger] rest[b]).key == t[a - 1].key;
                        assert(lines[b + 1] == rest[b]);
                    }
                }
            }
            assert forall|a: int, b: int| 0 <= a < b < r.len() implies r[a].key != r[b].key by {
                assert(r[b] == t[b - 1]);
                if a > 0 {
                    assert(r[a] == t[a - 1]);
                }
            }
        }
    }
}

} // verus!
