//! Detecting whether a Simos ECU is already unlocked.
//!
//! "Unlocked" means that the Customer Bootloader (CBOOT) has been patched into
//! sample mode, see [`crate::cboot`]. A patched CBOOT reports an `X`-prefixed
//! hardware version on DID `0xF1A3`: `H13` becomes `X13`.
//!
//! The read is only meaningful inside CBOOT: the application software is not
//! patched and always reports the stock value. So the probe enters a programming
//! session first and leaves the ECU sitting in CBOOT; a caller that is not going
//! straight on to flash must reset it.

use vstd::prelude::*;

use crate::module::FlashInfo;
use crate::text::{
    chars_of, hex_upper, lossy_utf8, push_hex, string_of, trim, trimmed, utf8_lossy,
};
use crate::uds::{Act, Action, FaultKind, FlashError, Reply, Trouble, UdsFault};

verus! {

/// VW ECU Hardware Version Number. Read inside CBOOT, this is the unlock marker.
pub const DID_HARDWARE_VERSION: u16 = 0xF1A3;

/// The prefix a patched (sample-mode) CBOOT reports, `'X'`.
pub const UNLOCKED_PREFIX: u8 = 0x58;

/// Whether an ECU's CBOOT has been patched into sample mode.
#[derive(Debug, Clone, PartialEq, Eq)]
pub enum UnlockState {
    /// CBOOT reported an `X`-prefixed hardware version.
    Unlocked,
    /// CBOOT reported a stock hardware version.
    Locked,
    /// The probe could not reach a conclusion; holds why. A failed read must not
    /// be told as locked.
    Unknown(String),
}

/// A state as a value.
pub enum Unlock {
    Unlocked,
    Locked,
    Unknown(Seq<char>),
}

impl View for UnlockState {
    type V = Unlock;

    open spec fn view(&self) -> Unlock {
        match self {
            UnlockState::Unlocked => Unlock::Unlocked,
            UnlockState::Locked => Unlock::Locked,
            UnlockState::Unknown(why) => Unlock::Unknown(why@),
        }
    }
}

impl Unlock {
    /// A short phrase for the UI.
    pub open spec fn phrase(self) -> Seq<char> {
        match self {
            Unlock::Unlocked => "Unlocked"@,
            Unlock::Locked => "Locked"@,
            Unlock::Unknown(_) => "Could not be determined"@,
        }
    }
}

impl UnlockState {
    /// A short phrase for the UI.
    pub fn label(&self) -> (s: &str)
        ensures
            s@ == self@.phrase(),
    {
        match self {
            UnlockState::Unlocked => "Unlocked",
            UnlockState::Locked => "Locked",
            UnlockState::Unknown(_) => "Could not be determined",
        }
    }
}

/// The full result of an unlock probe, including the raw evidence.
#[derive(Debug, Clone)]
pub struct UnlockProbe {
    pub state: UnlockState,
    /// The raw payload, if it was read at all.
    pub hardware_version_raw: Option<Vec<u8>>,
    /// The payload rendered as text, if it was readable.
    pub hardware_version: Option<String>,
}

/// A probe as a value.
pub struct Probe {
    pub state: Unlock,
    pub raw: Option<Seq<u8>>,
    pub version: Option<Seq<char>>,
}

impl View for UnlockProbe {
    type V = Probe;

    open spec fn view(&self) -> Probe {
        Probe {
            state: self.state@,
            raw: match self.hardware_version_raw {
                Some(v) => Some(v@),
                None => None,
            },
            version: match self.hardware_version {
                Some(s) => Some(s@),
                None => None,
            },
        }
    }
}

/// A text in quotes with its special characters escaped, as the `Debug` format
/// of a string writes it.
pub uninterp spec fn quoted(text: Seq<char>) -> Seq<char>;

/// `format!` with `{:?}` quotes and escapes a string; what it gives depends on
/// the string alone.
#[verifier::external_body]
fn quote(text: &str) -> (s: String)
    ensures
        s@ == quoted(text@),
{
    format!("{text:?}")
}

/// A letter or digit.
pub open spec fn is_alphanumeric(b: u8) -> bool {
    0x30 <= b <= 0x39 || 0x41 <= b <= 0x5A || 0x61 <= b <= 0x7A
}

/// What a hardware version says, where `shown` is how it is quoted.
pub open spec fn classified(raw: Seq<u8>, shown: Seq<char>) -> Unlock {
    if raw.len() == 0 {
        Unlock::Unknown("ECU returned an empty hardware version"@)
    } else if raw[0] == UNLOCKED_PREFIX {
        Unlock::Unlocked
    } else if is_alphanumeric(raw[0]) {
        Unlock::Locked
    } else {
        Unlock::Unknown(
            "hardware version starts with a non-printable byte 0x"@ + hex_upper(raw[0] as nat, 2)
                + " (read: "@ + shown + ")"@,
        )
    }
}

/// Classify a hardware version, given how its text is quoted.
pub fn classify_quoted(raw: &[u8], shown: &str) -> (r: UnlockState)
    ensures
        r@ == classified(raw@, shown@),
{
    if raw.len() == 0 {
        return UnlockState::Unknown("ECU returned an empty hardware version".to_owned());
    }
    let c: u8 = raw[0];
    if c == UNLOCKED_PREFIX {
        UnlockState::Unlocked
    } else if (0x30 <= c && c <= 0x39) || (0x41 <= c && c <= 0x5A) || (0x61 <= c && c <= 0x7A) {
        UnlockState::Locked
    } else {
        let mut why = "hardware version starts with a non-printable byte 0x".to_owned();
        push_hex(&mut why, c as u64, 2);
        why.push_str(" (read: ");
        why.push_str(shown);
        why.push_str(")");
        UnlockState::Unknown(why)
    }
}

/// The text of a hardware version.
pub open spec fn version_text(raw: Seq<u8>) -> Seq<char> {
    trimmed(utf8_lossy(raw), false)
}

fn render_version(raw: &[u8]) -> (s: String)
    ensures
        s@ == version_text(raw@),
{
    let text = lossy_utf8(raw);
    let chars = chars_of(text.as_str());
    string_of(&trim(&chars, false))
}

/// Classify a raw hardware version as read inside CBOOT.
///
/// A value read outside CBOOT would come out as a confidently wrong `Locked`.
pub fn classify_hardware_version(raw: &[u8]) -> (r: UnlockState)
    ensures
        r@ == classified(raw@, quoted(version_text(raw@))),
{
    let text = render_version(raw);
    let shown = quote(text.as_str());
    classify_quoted(raw, shown.as_str())
}

/// Whether an unlock even applies to this module: only those with an unlock
/// patch are ever shown an unlock step.
pub fn supports_unlock(flash_info: &FlashInfo) -> (r: bool)
    ensures
        r == flash_info.patch_info is Some,
{
    flash_info.patch_info.is_some()
}

/// Where the probe stands: what it is waiting for.
#[derive(Debug, Clone, Copy, PartialEq, Eq, Structural)]
pub enum ProbeStage {
    Extended,
    Precondition,
    Present,
    Programming,
    Version,
    Over,
}

/// What the probe does next.
#[derive(Debug, Clone)]
pub enum ProbeTurn {
    /// Carry this out and come back with the reply.
    Do(ProbeStage, Action),
    /// The probe is over.
    Found(UnlockProbe),
    /// The transport failed.
    Failed(FlashError),
}

/// A turn as a value.
pub enum Turn {
    Do(ProbeStage, Act),
    Found(Probe),
    Failed(Trouble),
}

impl View for ProbeTurn {
    type V = Turn;

    open spec fn view(&self) -> Turn {
        match self {
            ProbeTurn::Do(stage, action) => Turn::Do(*stage, action@),
            ProbeTurn::Found(p) => Turn::Found(p@),
            ProbeTurn::Failed(e) => Turn::Failed(e@),
        }
    }
}

/// A probe without a conclusion.
pub open spec fn inconclusive(why: Seq<char>) -> Turn {
    Turn::Found(Probe { state: Unlock::Unknown(why), raw: None, version: None })
}

fn unknown(why: String) -> (r: ProbeTurn)
    ensures
        r@ == inconclusive(why@),
{
    ProbeTurn::Found(
        UnlockProbe {
            state: UnlockState::Unknown(why),
            hardware_version_raw: None,
            hardware_version: None,
        },
    )
}

/// The first turn of a probe.
pub open spec fn first_turn(flash_info: FlashInfo) -> Turn {
    if flash_info.patch_info is None {
        inconclusive(
            "this control module has no unlock patch, so the concept does not apply"@,
        )
    } else {
        Turn::Do(ProbeStage::Extended, Act::Session(0x03))
    }
}

/// The turn that follows a reply. Anything that merely means "could not tell" is
/// an inconclusive probe; an error is a failure of the transport.
pub open spec fn next_turn(stage: ProbeStage, reply: Reply) -> Turn {
    match stage {
        ProbeStage::Extended => match reply {
            Reply::Fault(e) => if e.kind == FaultKind::Negative {
                inconclusive(
                    "the ECU refused the extended session ("@ + e.text@
                        + "), so its unlock state cannot be read"@,
                )
            } else {
                Turn::Failed(e.trouble())
            },
            _ => Turn::Do(ProbeStage::Precondition, Act::Routine(0x0203, Seq::empty())),
        },
        ProbeStage::Precondition => match reply {
            Reply::Fault(e) => inconclusive(
                "the ECU refused the programming precondition check ("@ + e.text@
                    + "); it will not enter the bootloader (engine running, or voltage out of range?)"@,
            ),
            _ => Turn::Do(ProbeStage::Present, Act::TesterPresent),
        },
        ProbeStage::Present => match reply {
            Reply::Fault(e) => if e.kind == FaultKind::Negative {
                inconclusive(
                    "the ECU refused to keep its session open ("@ + e.text@
                        + "), so its unlock state cannot be read"@,
                )
            } else {
                Turn::Failed(e.trouble())
            },
            _ => Turn::Do(ProbeStage::Programming, Act::Session(0x02)),
        },
        ProbeStage::Programming => match reply {
            Reply::Fault(e) => inconclusive(
                "the ECU would not enter the bootloader ("@ + e.text@
                    + "), so its unlock state cannot be read"@,
            ),
            _ => Turn::Do(ProbeStage::Version, Act::ReadDid(DID_HARDWARE_VERSION)),
        },
        ProbeStage::Version => match reply {
            Reply::Fault(e) => inconclusive(
                "the bootloader did not answer the hardware-version request ("@ + e.text@ + ")"@,
            ),
            Reply::Data(bytes) => Turn::Found(
                Probe {
                    state: classified(bytes@, quoted(version_text(bytes@))),
                    raw: Some(bytes@),
                    version: Some(version_text(bytes@)),
                },
            ),
            _ => inconclusive("the bootloader answered without a hardware version"@),
        },
        ProbeStage::Over => Turn::Do(ProbeStage::Over, Act::Finished),
    }
}

/// Start the probe: enter CBOOT and read the hardware version.
pub fn probe_unlock_state(flash_info: &FlashInfo) -> (r: ProbeTurn)
    ensures
        r@ == first_turn(*flash_info),
{
    if !supports_unlock(flash_info) {
        return unknown(
            "this control module has no unlock patch, so the concept does not apply".to_owned(),
        );
    }
    ProbeTurn::Do(ProbeStage::Extended, Action::Session(0x03))
}

fn because(before: &str, fault: &UdsFault, after: &str) -> (s: String)
    ensures
        s@ == before@ + fault.text@ + after@,
{
    let mut s = before.to_owned();
    s.push_str(fault.text.as_str());
    s.push_str(after);
    s
}

/// Go on with the probe once a reply is in.
pub fn probe_next(stage: ProbeStage, reply: &Reply) -> (r: ProbeTurn)
    ensures
        r@ == next_turn(stage, *reply),
{
    match stage {
        ProbeStage::Extended => match reply {
            Reply::Fault(e) => if e.kind == FaultKind::Negative {
                unknown(
                    because(
                        "the ECU refused the extended session (",
                        e,
                        "), so its unlock state cannot be read",
                    ),
                )
            } else {
                ProbeTurn::Failed(e.to_error())
            },
            _ => {
                let none: Vec<u8> = Vec::new();
                assert(none@ == Seq::<u8>::empty());
                ProbeTurn::Do(ProbeStage::Precondition, Action::Routine(0x0203, none))
            },
        },
        ProbeStage::Precondition => match reply {
            Reply::Fault(e) => unknown(
                because(
                    "the ECU refused the programming precondition check (",
                    e,
                    "); it will not enter the bootloader (engine running, or voltage out of range?)",
                ),
            ),
            _ => ProbeTurn::Do(ProbeStage::Present, Action::TesterPresent),
        },
        ProbeStage::Present => match reply {
            Reply::Fault(e) => if e.kind == FaultKind::Negative {
                unknown(
                    because(
                        "the ECU refused to keep its session open (",
                        e,
                        "), so its unlock state cannot be read",
                    ),
                )
            } else {
                ProbeTurn::Failed(e.to_error())
            },
            _ => ProbeTurn::Do(ProbeStage::Programming, Action::Session(0x02)),
        },
        ProbeStage::Programming => match reply {
            Reply::Fault(e) => unknown(
                because(
                    "the ECU would not enter the bootloader (",
                    e,
                    "), so its unlock state cannot be read",
                ),
            ),
            _ => ProbeTurn::Do(ProbeStage::Version, Action::ReadDid(DID_HARDWARE_VERSION)),
        },
        ProbeStage::Version => match reply {
            Reply::Fault(e) => unknown(
                because("the bootloader did not answer the hardware-version request (", e, ")"),
            ),
            Reply::Data(bytes) => {
                let text = render_version(bytes.as_slice());
                let state = classify_hardware_version(bytes.as_slice());
                ProbeTurn::Found(
                    UnlockProbe {
                        state,
                        hardware_version_raw: Some(crate::bytes::to_vec(bytes.as_slice())),
                        hardware_version: Some(text),
                    },
                )
            },
            _ => unknown("the bootloader answered without a hardware version".to_owned()),
        },
        ProbeStage::Over => ProbeTurn::Do(ProbeStage::Over, Action::Finished),
    }
}

/// Judge the answer to the reset that takes the ECU out of CBOOT. The ECU
/// normally does not answer, so a timeout is the expected outcome.
pub fn leave_bootloader(reply: &Reply) -> (r: Result<(), FlashError>)
    ensures
        match *reply {
            Reply::Fault(e) => if e.kind == FaultKind::Timeout {
                r is Ok
            } else {
                r matches Err(x) && x@ == e.trouble()
            },
            _ => r is Ok,
        },
{
    match reply {
        Reply::Fault(e) => match e.kind {
            FaultKind::Timeout => Ok(()),
            _ => Err(e.to_error()),
        },
        _ => Ok(()),
    }
}

/// Only the first byte decides: an `X` anywhere else is not an unlock, and an
/// unreadable answer is never told as locked.
pub proof fn law_only_the_prefix_unlocks(raw: Seq<u8>, shown: Seq<char>)
    ensures
        classified(raw, shown) is Unlocked <==> raw.len() > 0 && raw[0] == UNLOCKED_PREFIX,
        classified(raw, shown) is Locked ==> raw.len() > 0 && is_alphanumeric(raw[0]),
        raw.len() == 0 ==> classified(raw, shown) is Unknown,
{
}

/// Only a failure of the transport makes a probe fail: what the ECU refuses merely
/// means that nothing can be told.
pub proof fn law_a_refusal_never_fails_a_probe(stage: ProbeStage, e: UdsFault)
    requires
        e.kind == FaultKind::Negative,
    ensures
        !(next_turn(stage, Reply::Fault(e)) is Failed),
{
}

/// A failed request never makes a probe say locked or unlocked.
pub proof fn law_failures_are_never_a_verdict(stage: ProbeStage, e: UdsFault)
    ensures
        next_turn(stage, Reply::Fault(e)) matches Turn::Found(p) ==> p.state is Unknown,
{
}

} // verus!
