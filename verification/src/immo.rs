//! Simos18 immobilizer pre-flight check.
//!
//! If the ECU is already in, or is left in, a non-starting immobilizer state,
//! the car will crank but not run, and for several of those states there is no
//! diagnostic way back. This module turns the immobilizer status DIDs into
//! findings a flash wizard can show to the user.
//!
//! **When it applies.** Not just a full flash. The power-class allow-list
//! `strVarTun`, the table the tuning check tests `idxTun` against, lives in the
//! calibration area, so writing CAL alone is enough to trip the anti-tuning
//! interlock. Any operation that writes CAL and then lets the ECU boot the
//! application software is in scope. The unlock operation is the exception: the
//! ECU does not boot the application software afterwards.
//!
//! **Policy.** The findings warn, they never refuse: there is deliberately no
//! blocking severity. If the ECU does not answer the status DIDs at all, the
//! check fails open: that is [`Severity::Unknown`], never a risk.
//!
//! **Scope.** Every rule here is known to hold on Simos18 only, so an
//! [`ImmoSnapshot`] needs an [`ImmoSupport`] token, which
//! [`ImmoSupport::for_module`] hands out for Simos18 alone.

use std::collections::HashMap;

use vstd::prelude::*;

use crate::bytes::bytes_eq;
use crate::immo_text::{
    UNAVAILABLE_DETAIL, EMPTY_ALLOW_LIST, DEAD_DETAIL, DEAD_SAMPLE, DEAD_NO_SAMPLE, DEAD_UNREAD, NOT_ADAPTED, NOT_ADAPTED_DETAIL, ADAPTED, ADAPTED_DETAIL, SAMPLE_ADAPTED, SAMPLE_ADAPTED_DETAIL, ADAPTATION_MODE, ADAPTATION_MODE_DETAIL, TUNING_FAILED, TUNING_FAILED_DETAIL, UNDECIDED, UNDECIDED_DETAIL, VERIFIED, VERIFIED_DETAIL, IGNITION_OFF, IGNITION_OFF_DETAIL, NO_REPLY, NO_REPLY_DETAIL, CRC_REJECTED, CRC_REJECTED_DETAIL, PIN_REJECTED, PIN_REJECTED_DETAIL, DOWNLOAD_LOCKOUT_DETAIL, LOGIN_LOCKOUT_DETAIL, LAST_ERROR_DETAIL, MEMORY_ACCESS, MEMORY_ACCESS_DETAIL, DIFF_INCOMPLETE, DIFF_INCOMPLETE_DETAIL, DIFF_ONE_SIDED, LOCKOUT_MALFORMED, LIST_CHANGED_DETAIL, NO_LONGER_DETAIL, MARKER_FLIPPED, MARKER_FLIPPED_DETAIL, MOVED_DEAD_DETAIL, BIT_LOST, BIT_LOST_DETAIL,
};
use crate::module::FlashInfo;
use crate::text::{
    dec, hex_bytes, hex_upper, joined, push_dec, push_hex, push_hex_bytes, str_eq,
};

verus! {

broadcast use vstd::std_specs::hash::group_hash_axioms;

/// The immobilizer status DIDs, in the order they must be requested.
pub const IMMO_DIDS: [u16; 7] = [0x2E0, 0x2ED, 0x2EE, 0x2EF, 0x2FF, 0xF190, 0xF17C];

/// `stStatFct`, the immobilizer function state (byte 0).
pub const DID_STATE: u16 = 0x2ED;

/// Immobilizer status bit field.
pub const DID_STATUS_BITS: u16 = 0x2EE;

/// Download and login lockout timers.
pub const DID_LOCKOUT: u16 = 0x2EF;

/// Extended immobilizer info: tuning index, allow-list, versions.
pub const DID_EXTENDED: u16 = 0x2FF;

/// VIN.
pub const DID_VIN: u16 = 0xF190;

/// FAZIT identification string.
pub const DID_FAZIT: u16 = 0xF17C;

/// Proof that the target module is one the immobilizer rules cover.
#[derive(Debug, Clone, Copy)]
pub struct ImmoSupport {
    _private: (),
}

impl ImmoSupport {
    /// A token for Simos18 (project prefix `SC8`), and for nothing else.
    pub fn for_module(flash_info: &FlashInfo) -> (r: Option<Self>)
        ensures
            r is Some <==> flash_info.project_name@ == "SC8"@,
    {
        if str_eq(flash_info.project_name.as_str(), "SC8") {
            Some(Self { _private: () })
        } else {
            None
        }
    }
}

/// How serious a finding is.
#[derive(Debug, Clone, Copy, PartialEq, Eq, Structural)]
pub enum Severity {
    /// Informational: nothing about this finding should gate the flash.
    Okay,
    /// The user must be shown this and must explicitly confirm.
    Warn,
    /// The check could not be performed: a caveat, not a risk.
    Unknown,
}

impl Severity {
    /// A known risk outranks an unverifiable one.
    pub open spec fn spec_rank(self) -> int {
        match self {
            Severity::Okay => 0,
            Severity::Unknown => 1,
            Severity::Warn => 2,
        }
    }

    fn rank(self) -> (r: u8)
        ensures
            r == self.spec_rank(),
    {
        match self {
            Severity::Okay => 0,
            Severity::Unknown => 1,
            Severity::Warn => 2,
        }
    }

    /// The more severe of two severities.
    pub open spec fn spec_worst(self, other: Severity) -> Severity {
        if other.spec_rank() > self.spec_rank() {
            other
        } else {
            self
        }
    }

    /// The more severe of two severities.
    pub fn worst(self, other: Severity) -> (r: Severity)
        ensures
            r == self.spec_worst(other),
            r.spec_rank() >= self.spec_rank(),
            r.spec_rank() >= other.spec_rank(),
            r == self || r == other,
    {
        if other.rank() > self.rank() {
            other
        } else {
            self
        }
    }
}

/// Which rule produced a finding.
#[derive(Debug, Clone, Copy, PartialEq, Eq, Structural)]
pub enum ImmoRule {
    /// The check itself could not run (DIDs missing or malformed).
    Unavailable,
    /// Tuning interlock (`idxTun` against `strVarTun`).
    TuningInterlock,
    /// Dead state (`stStatFct` 10, 0x58 or 0x63).
    DeadState,
    /// Never adapted (`stStatFct` 1).
    NotAdapted,
    /// Hidden state behind a reported `stStatFct` of 2.
    HiddenState,
    /// Current lock or release status.
    LockState,
    /// Download or login lockout counting down.
    Lockout,
    /// Last recorded immobilizer error code.
    LastError,
    /// `bInhAcsMem`: a tooling limitation, never an immobilizer risk.
    MemoryAccess,
    /// A difference across a flash.
    PostFlashChange,
}

/// A single observation about the immobilizer.
#[derive(Debug, Clone, PartialEq, Eq)]
pub struct ImmoFinding {
    /// Which rule produced this.
    pub rule: ImmoRule,
    /// How it is to be treated.
    pub severity: Severity,
    /// One-line, user-facing summary.
    pub message: String,
    /// Longer explanation and, where one exists, the recovery path.
    pub detail: String,
}

/// What a finding says.
pub struct Finding {
    pub rule: ImmoRule,
    pub severity: Severity,
    pub message: Seq<char>,
    pub detail: Seq<char>,
}

impl View for ImmoFinding {
    type V = Finding;

    open spec fn view(&self) -> Finding {
        Finding {
            rule: self.rule,
            severity: self.severity,
            message: self.message@,
            detail: self.detail@,
        }
    }
}

/// What a list of findings says.
pub open spec fn said(findings: Seq<ImmoFinding>) -> Seq<Finding> {
    findings.map_values(|f: ImmoFinding| f@)
}

/// The worst severity of a list of findings.
pub open spec fn worst_of(findings: Seq<Finding>) -> Severity
    decreases findings.len(),
{
    if findings.len() == 0 {
        Severity::Okay
    } else {
        worst_of(findings.drop_last()).spec_worst(findings.last().severity)
    }
}

fn push_finding(
    findings: &mut Vec<ImmoFinding>,
    rule: ImmoRule,
    severity: Severity,
    message: String,
    detail: String,
)
    ensures
        said(final(findings)@) == said(old(findings)@).push(
            (Finding { rule, severity, message: message@, detail: detail@ }),
        ),
{
    let f = ImmoFinding { rule, severity, message, detail };
    assert(said(findings@.push(f)) == said(findings@).push(f@));
    findings.push(f);
}

/// The result of applying every rule to a snapshot.
#[derive(Debug, Clone, PartialEq, Eq)]
pub struct ImmoReport {
    /// Worst severity across all findings.
    pub severity: Severity,
    /// `stStatFct` as reported by the ECU.
    pub reported_state: Option<u8>,
    /// The state behind it, when it could be determined.
    pub state: Option<ImmoState>,
    /// Every finding, in rule order.
    pub findings: Vec<ImmoFinding>,
}

impl ImmoReport {
    /// True when at least one finding is a genuine risk the user must confirm.
    pub fn has_risk(&self) -> (r: bool)
        ensures
            r == exists|i: int|
                0 <= i < self.findings@.len() && (#[trigger] self.findings@[i]).severity
                    == Severity::Warn,
    {
        let mut i: usize = 0;
        while i < self.findings.len()
            invariant
                i <= self.findings@.len(),
                forall|j: int| 0 <= j < i ==> self.findings@[j].severity != Severity::Warn,
            decreases self.findings@.len() - i,
        {
            if self.findings[i].severity == Severity::Warn {
                return true;
            }
            i = i + 1;
        }
        false
    }

    /// Findings the user must explicitly confirm, in order.
    pub fn risks(&self) -> (r: Vec<&ImmoFinding>)
        ensures
            r@.map_values(|f: &ImmoFinding| *f) == self.findings@.filter(
                |f: ImmoFinding| f.severity == Severity::Warn,
            ),
    {
        let mut r: Vec<&ImmoFinding> = Vec::new();
        let ghost warns = |f: ImmoFinding| f.severity == Severity::Warn;
        let mut i: usize = 0;
        assert(self.findings@.take(0).filter(warns) == Seq::<ImmoFinding>::empty()) by {
            reveal(Seq::filter);
        }
        while i < self.findings.len()
            invariant
                i <= self.findings@.len(),
                warns == (|f: ImmoFinding| f.severity == Severity::Warn),
                r@.map_values(|f: &ImmoFinding| *f) == self.findings@.take(i as int).filter(warns),
            decreases self.findings@.len() - i,
        {
            let ghost before = r@;
            proof {
                let next = self.findings@.take(i + 1);
                assert(next.drop_last() == self.findings@.take(i as int));
                assert(next.last() == self.findings@[i as int]);
                reveal(Seq::filter);
            }
            if self.findings[i].severity == Severity::Warn {
                r.push(&self.findings[i]);
                assert(r@.map_values(|f: &ImmoFinding| *f) == before.map_values(
                    |f: &ImmoFinding| *f,
                ).push(self.findings@[i as int]));
            }
            i = i + 1;
        }
        assert(self.findings@.take(i as int) == self.findings@);
        r
    }
}

/// The raw DID bytes read from one ECU at one point in time.
///
/// Raw bytes are stored rather than decoded values so that a comparison is
/// exact, including fields no rule currently looks at.
#[derive(Debug, Clone, Default, PartialEq, Eq)]
pub struct ImmoSnapshot {
    dids: HashMap<u16, Vec<u8>>,
}

impl View for ImmoSnapshot {
    type V = Map<u16, Seq<u8>>;

    closed spec fn view(&self) -> Map<u16, Seq<u8>> {
        self.dids@.map_values(|v: Vec<u8>| v@)
    }
}

/// The payload of a DID, when it has at least `len` bytes.
pub open spec fn payload(snapshot: Map<u16, Seq<u8>>, did: u16, len: int) -> Option<Seq<u8>> {
    if snapshot.contains_key(did) && snapshot[did].len() >= len {
        Some(snapshot[did])
    } else {
        None
    }
}

/// A DID payload rendered as printable ASCII.
pub open spec fn ascii(bytes: Seq<u8>) -> Seq<char> {
    bytes.map_values(|b: u8| if 0x20 <= b < 0x7F { b as char } else { '.' })
}

/// The required DIDs that came back with fewer bytes than they need.
pub open spec fn missing(snapshot: Map<u16, Seq<u8>>) -> Seq<u16> {
    let state = if payload(snapshot, DID_STATE, 10) is None {
        seq![DID_STATE]
    } else {
        Seq::empty()
    };
    let bits = if payload(snapshot, DID_STATUS_BITS, 10) is None {
        seq![DID_STATUS_BITS]
    } else {
        Seq::empty()
    };
    let extended = if payload(snapshot, DID_EXTENDED, 19) is None {
        seq![DID_EXTENDED]
    } else {
        Seq::empty()
    };
    state + bits + extended
}

impl ImmoSnapshot {
    /// Build a snapshot from an already-collected DID map.
    pub fn from_dids(_support: ImmoSupport, dids: HashMap<u16, Vec<u8>>) -> (r: Self)
        ensures
            r@ == dids@.map_values(|v: Vec<u8>| v@),
    {
        Self { dids }
    }

    /// Raw bytes for one DID, if the ECU answered it.
    pub fn raw(&self, did: u16) -> (r: Option<&[u8]>)
        ensures
            r is Some <==> self@.contains_key(did),
            r matches Some(b) ==> b@ == self@[did],
    {
        match self.dids.get(&did) {
            Some(v) => Some(v.as_slice()),
            None => None,
        }
    }

    fn has(&self, did: u16, len: usize) -> (r: bool)
        ensures
            r == (payload(self@, did, len as int) is Some),
    {
        match self.raw(did) {
            Some(b) => b.len() >= len,
            None => false,
        }
    }

    /// The DIDs every rule needs that the ECU did not answer with usable data.
    pub fn missing_required(&self) -> (r: Vec<u16>)
        ensures
            r@ == missing(self@),
    {
        let mut out: Vec<u16> = Vec::new();
        if !self.has(DID_STATE, 10) {
            out.push(DID_STATE);
        }
        if !self.has(DID_STATUS_BITS, 10) {
            out.push(DID_STATUS_BITS);
        }
        if !self.has(DID_EXTENDED, 19) {
            out.push(DID_EXTENDED);
        }
        assert(out@ == missing(self@));
        out
    }

    /// VIN, if present.
    pub fn vin(&self) -> (r: Option<String>)
        ensures
            r is Some <==> self@.contains_key(DID_VIN),
            r matches Some(s) ==> s@ == ascii(self@[DID_VIN]),
    {
        match self.raw(DID_VIN) {
            Some(b) => Some(ascii_string(b)),
            None => None,
        }
    }

    /// FAZIT identification string, if present.
    pub fn fazit(&self) -> (r: Option<String>)
        ensures
            r is Some <==> self@.contains_key(DID_FAZIT),
            r matches Some(s) ==> s@ == ascii(self@[DID_FAZIT]),
    {
        match self.raw(DID_FAZIT) {
            Some(b) => Some(ascii_string(b)),
            None => None,
        }
    }
}

/// Render a DID payload as printable ASCII; other bytes become `.`.
fn ascii_string(bytes: &[u8]) -> (s: String)
    ensures
        s@ == ascii(bytes@),
{
    let mut s = String::new();
    let mut i: usize = 0;
    while i < bytes.len()
        invariant
            i <= bytes@.len(),
            s@ == ascii(bytes@.take(i as int)),
        decreases bytes@.len() - i,
    {
        let b: u8 = bytes[i];
        let ghost before = s@;
        if 0x20 <= b && b < 0x7F {
            s.push(b as char);
        } else {
            s.push('.');
        }
        i = i + 1;
        assert(s@ == ascii(bytes@.take(i as int)));
    }
    assert(bytes@.take(i as int) == bytes@);
    s
}

/// Immobilizer function state (`stStatFct`).
///
/// Values 3, `0x42` and 4 never appear on the wire: the ECU forces all three to
/// report as 2, so only [`resolve_state`] produces them.
#[derive(Debug, Clone, Copy, PartialEq, Eq, Structural)]
pub enum ImmoState {
    /// 1: neutral, no immobilizer identity has ever been adapted.
    NotAdapted,
    /// 2: adapted.
    Adapted,
    /// 3: hardware-sample adapted (reported as 2).
    HardwareSampleAdapted,
    /// 4: adaptation mode (reported as 2).
    AdaptationMode,
    /// 10: locked (`noConfMod` remap).
    NoConfMod,
    /// `0x42` `'B'`: tuning check failed (reported as 2).
    TuningCheckFailed,
    /// `0x58` `'X'`: hardware-sample lock.
    HardwareSampleLock,
    /// `0x63` `'c'`: locked.
    LockedC,
    /// Anything else the ECU reports.
    Other(u8),
}

impl ImmoState {
    /// The `stStatFct` byte of a state.
    pub open spec fn spec_raw(self) -> u8 {
        match self {
            ImmoState::NotAdapted => 1,
            ImmoState::Adapted => 2,
            ImmoState::HardwareSampleAdapted => 3,
            ImmoState::AdaptationMode => 4,
            ImmoState::NoConfMod => 10,
            ImmoState::TuningCheckFailed => 0x42,
            ImmoState::HardwareSampleLock => 0x58,
            ImmoState::LockedC => 0x63,
            ImmoState::Other(v) => v,
        }
    }

    /// The state a wire value stands for.
    pub open spec fn spec_from_raw(v: u8) -> ImmoState {
        if v == 1 {
            ImmoState::NotAdapted
        } else if v == 2 {
            ImmoState::Adapted
        } else if v == 10 {
            ImmoState::NoConfMod
        } else if v == 0x58 {
            ImmoState::HardwareSampleLock
        } else if v == 0x63 {
            ImmoState::LockedC
        } else {
            ImmoState::Other(v)
        }
    }

    /// The words for a state.
    pub open spec fn words(self) -> Seq<char> {
        match self {
            ImmoState::NotAdapted => "neutral / not adapted"@,
            ImmoState::Adapted => "adapted"@,
            ImmoState::HardwareSampleAdapted => "hardware-sample adapted"@,
            ImmoState::AdaptationMode => "adaptation mode"@,
            ImmoState::NoConfMod => "locked (noConfMod)"@,
            ImmoState::TuningCheckFailed => "'B' — tuning check failed"@,
            ImmoState::HardwareSampleLock => "'X' — hardware-sample lock"@,
            ImmoState::LockedC => "'c' — locked"@,
            ImmoState::Other(_) => "unrecognised state"@,
        }
    }

    /// Short human-readable label including the raw value.
    pub open spec fn spec_label(self) -> Seq<char> {
        self.words() + " (stStatFct = 0x"@ + hex_upper(self.spec_raw() as nat, 2) + ")"@
    }

    /// Neither login nor download is accepted in these states.
    pub open spec fn spec_is_dead(self) -> bool {
        self is NoConfMod || self is HardwareSampleLock || self is LockedC
    }

    /// The `stStatFct` byte this state corresponds to.
    pub fn raw(self) -> (r: u8)
        ensures
            r == self.spec_raw(),
    {
        match self {
            ImmoState::NotAdapted => 1,
            ImmoState::Adapted => 2,
            ImmoState::HardwareSampleAdapted => 3,
            ImmoState::AdaptationMode => 4,
            ImmoState::NoConfMod => 10,
            ImmoState::TuningCheckFailed => 0x42,
            ImmoState::HardwareSampleLock => 0x58,
            ImmoState::LockedC => 0x63,
            ImmoState::Other(v) => v,
        }
    }

    /// Decode a wire value. Never yields one of the three hidden states.
    pub fn from_raw(v: u8) -> (r: ImmoState)
        ensures
            r == ImmoState::spec_from_raw(v),
            r.spec_raw() == v,
            !(r is HardwareSampleAdapted) && !(r is AdaptationMode) && !(r is TuningCheckFailed),
    {
        if v == 1 {
            ImmoState::NotAdapted
        } else if v == 2 {
            ImmoState::Adapted
        } else if v == 10 {
            ImmoState::NoConfMod
        } else if v == 0x58 {
            ImmoState::HardwareSampleLock
        } else if v == 0x63 {
            ImmoState::LockedC
        } else {
            ImmoState::Other(v)
        }
    }

    /// Short human-readable label including the raw value.
    pub fn label(self) -> (s: String)
        ensures
            s@ == self.spec_label(),
    {
        let mut s = match self {
            ImmoState::NotAdapted => "neutral / not adapted".to_owned(),
            ImmoState::Adapted => "adapted".to_owned(),
            ImmoState::HardwareSampleAdapted => "hardware-sample adapted".to_owned(),
            ImmoState::AdaptationMode => "adaptation mode".to_owned(),
            ImmoState::NoConfMod => "locked (noConfMod)".to_owned(),
            ImmoState::TuningCheckFailed => "'B' — tuning check failed".to_owned(),
            ImmoState::HardwareSampleLock => "'X' — hardware-sample lock".to_owned(),
            ImmoState::LockedC => "'c' — locked".to_owned(),
            ImmoState::Other(_) => "unrecognised state".to_owned(),
        };
        s.push_str(" (stStatFct = 0x");
        push_hex(&mut s, self.raw() as u64, 2);
        s.push_str(")");
        s
    }

    /// True for the three states in which there is no diagnostic recovery.
    pub fn is_dead(self) -> (r: bool)
        ensures
            r == self.spec_is_dead(),
    {
        match self {
            ImmoState::NoConfMod => true,
            ImmoState::HardwareSampleLock => true,
            ImmoState::LockedC => true,
            _ => false,
        }
    }
}

/// Decoded state DID (10 bytes).
#[derive(Debug, Clone, Copy, PartialEq, Eq, Structural)]
pub struct StateDid {
    /// Byte 0 as reported. A value of 2 is ambiguous, see [`resolve_state`].
    pub st_stat_fct: u8,
    /// Byte 1, `ctDatBasFazit`.
    pub ct_dat_bas_fazit: u8,
    /// Byte 2, `idxLab`.
    pub idx_lab: u8,
    /// Byte 8 bit `0x08`, `bLimModEna`.
    pub b_lim_mod_ena: bool,
}

/// The fields of a state DID.
pub open spec fn state_did(p: Seq<u8>) -> StateDid {
    StateDid {
        st_stat_fct: p[0],
        ct_dat_bas_fazit: p[1],
        idx_lab: p[2],
        b_lim_mod_ena: p[8] & 0x08 != 0,
    }
}

/// Decode the state DID. `None` if the payload is short.
pub fn decode_2ed(p: &[u8]) -> (r: Option<StateDid>)
    ensures
        r == if p@.len() < 10 {
            None
        } else {
            Some(state_did(p@))
        },
{
    if p.len() < 10 {
        return None;
    }
    Some(
        StateDid {
            st_stat_fct: p[0],
            ct_dat_bas_fazit: p[1],
            idx_lab: p[2],
            b_lim_mod_ena: p[8] & 0x08 != 0,
        },
    )
}

/// Decoded status bit DID (10 bytes).
#[derive(Debug, Clone, Copy, PartialEq, Eq, Structural)]
pub struct StatusBitsDid {
    /// Byte 0 bit `0x04`: ignition on.
    pub ignition_on: bool,
    /// Byte 1 bit `0x80`: `stStatFct != 3`.
    pub st_not_3: bool,
    /// Byte 1 bit `0x40`: `stStatFct == 2`.
    pub st_is_2: bool,
    /// Byte 1 bit `0x20`: the master (cluster) replied.
    pub b_mst_resp_rx: bool,
    /// Byte 1 bit `0x10`: `CrcMaster` accepted.
    pub b_mst_cks_vld: bool,
    /// Byte 1 bit `0x08`: PIN accepted.
    pub b_mst_key_vld: bool,
    /// Memory access inhibited. The wire bit (byte 1, `0x04`) is inverted.
    pub b_inh_acs_mem: bool,
}

/// The fields of a status bit DID.
pub open spec fn status_bits(p: Seq<u8>) -> StatusBitsDid {
    StatusBitsDid {
        ignition_on: p[0] & 0x04 != 0,
        st_not_3: p[1] & 0x80 != 0,
        st_is_2: p[1] & 0x40 != 0,
        b_mst_resp_rx: p[1] & 0x20 != 0,
        b_mst_cks_vld: p[1] & 0x10 != 0,
        b_mst_key_vld: p[1] & 0x08 != 0,
        b_inh_acs_mem: p[1] & 0x04 == 0,
    }
}

/// Decode the status bit DID. `None` if the payload is short.
pub fn decode_2ee(p: &[u8]) -> (r: Option<StatusBitsDid>)
    ensures
        r == if p@.len() < 10 {
            None
        } else {
            Some(status_bits(p@))
        },
{
    if p.len() < 10 {
        return None;
    }
    Some(
        StatusBitsDid {
            ignition_on: p[0] & 0x04 != 0,
            st_not_3: p[1] & 0x80 != 0,
            st_is_2: p[1] & 0x40 != 0,
            b_mst_resp_rx: p[1] & 0x20 != 0,
            b_mst_cks_vld: p[1] & 0x10 != 0,
            b_mst_key_vld: p[1] & 0x08 != 0,
            b_inh_acs_mem: p[1] & 0x04 == 0,
        },
    )
}

/// Decoded lockout DID (6 bytes).
#[derive(Debug, Clone, Copy, PartialEq, Eq, Structural)]
pub struct LockoutDid {
    /// Byte 0: minutes before a download is accepted again.
    pub download_lockout_minutes: u8,
    /// Byte 1: minutes before a login is accepted again.
    pub login_lockout_minutes: u8,
}

/// Decode the lockout DID. `None` if the payload is short.
pub fn decode_2ef(p: &[u8]) -> (r: Option<LockoutDid>)
    ensures
        r == if p@.len() < 6 {
            None
        } else {
            Some(LockoutDid { download_lockout_minutes: p@[0], login_lockout_minutes: p@[1] })
        },
{
    if p.len() < 6 {
        return None;
    }
    Some(LockoutDid { download_lockout_minutes: p[0], login_lockout_minutes: p[1] })
}

/// Decoded extended DID (19 bytes).
#[derive(Debug, Clone, Copy, PartialEq, Eq)]
pub struct ExtendedDid {
    /// Byte 0: `0x53` `'S'` normally, `0x41` `'A'` on a hardware-sample ECU.
    pub marker: u8,
    /// Byte 7, `ctAuthLos`, quantized (see [`unquantize`]).
    pub ct_auth_los: u8,
    /// Byte 8, `ctWrAccNvm`, quantized (see [`unquantize`]).
    pub ct_wr_acc_nvm: u8,
    /// Byte 9, `idxTun`.
    pub idx_tun: u8,
    /// Bytes 10..15, `strVarTun`, the five-entry power-class allow-list.
    pub str_var_tun: [u8; 5],
    /// Bytes 15..18, component version, e.g. `08 02 00` = 8.2.0.
    pub imo_version: [u8; 3],
    /// Byte 18, last error code.
    pub last_error: u8,
}

/// `e` holds the fields of the payload `p`.
pub open spec fn extended_of(e: ExtendedDid, p: Seq<u8>) -> bool {
    &&& e.marker == p[0]
    &&& e.ct_auth_los == p[7]
    &&& e.ct_wr_acc_nvm == p[8]
    &&& e.idx_tun == p[9]
    &&& e.str_var_tun@ == p.subrange(10, 15)
    &&& e.imo_version@ == p.subrange(15, 18)
    &&& e.last_error == p[18]
}

impl ExtendedDid {
    /// True when byte 0 reads `0x41` `'A'`: a hardware-sample ECU.
    pub fn is_hardware_sample(self) -> (r: bool)
        ensures
            r == (self.marker == 0x41),
    {
        self.marker == 0x41
    }

    /// `ctAuthLos` with the quantization undone; `None` means saturated.
    pub fn auth_loss_count(self) -> (r: Option<u32>)
        ensures
            r == spec_unquantize(self.ct_auth_los),
    {
        unquantize(self.ct_auth_los)
    }

    /// `ctWrAccNvm` with the quantization undone; `None` means saturated.
    pub fn nvm_write_count(self) -> (r: Option<u32>)
        ensures
            r == spec_unquantize(self.ct_wr_acc_nvm),
    {
        unquantize(self.ct_wr_acc_nvm)
    }

    /// Component version as `major.minor.patch`.
    pub fn version_string(self) -> (s: String)
        ensures
            s@ == dec(self.imo_version@[0] as nat) + "."@ + dec(self.imo_version@[1] as nat) + "."@
                + dec(self.imo_version@[2] as nat),
    {
        let mut s = String::new();
        push_dec(&mut s, self.imo_version[0] as u64);
        assert(s@ == dec(self.imo_version@[0] as nat));
        s.push_str(".");
        push_dec(&mut s, self.imo_version[1] as u64);
        s.push_str(".");
        push_dec(&mut s, self.imo_version[2] as u64);
        s
    }
}

/// Decode the extended DID. `None` if the payload is short.
pub fn decode_2ff(p: &[u8]) -> (r: Option<ExtendedDid>)
    ensures
        r is Some <==> p@.len() >= 19,
        r matches Some(e) ==> extended_of(e, p@),
{
    if p.len() < 19 {
        return None;
    }
    let e = ExtendedDid {
        marker: p[0],
        ct_auth_los: p[7],
        ct_wr_acc_nvm: p[8],
        idx_tun: p[9],
        str_var_tun: [p[10], p[11], p[12], p[13], p[14]],
        imo_version: [p[15], p[16], p[17]],
        last_error: p[18],
    };
    assert(e.str_var_tun@ == p@.subrange(10, 15));
    assert(e.imo_version@ == p@.subrange(15, 18));
    Some(e)
}

/// The counter behind a quantized byte: exact below 100, then in hundreds, then
/// in thousands; 255 is saturated.
pub open spec fn spec_unquantize(v: u8) -> Option<u32> {
    if v == 255 {
        None
    } else if v >= 200 {
        Some(((v - 200) * 1000) as u32)
    } else if v >= 100 {
        Some(((v - 100) * 100) as u32)
    } else {
        Some(v as u32)
    }
}

/// Undo the counter quantization of the extended DID.
pub fn unquantize(v: u8) -> (r: Option<u32>)
    ensures
        r == spec_unquantize(v),
{
    if v == 255 {
        None
    } else if v >= 200 {
        Some((v as u32 - 200) * 1000)
    } else if v >= 100 {
        Some((v as u32 - 100) * 100)
    } else {
        Some(v as u32)
    }
}

/// Outcome of the tuning interlock test.
#[derive(Debug, Clone, Copy, PartialEq, Eq, Structural)]
pub enum TuningStatus {
    /// `idxTun` is present in a non-zero allow-list.
    Okay,
    /// The allow-list is entirely zero: nothing can ever match.
    AllowListEmpty,
    /// `idxTun` is not one of the allow-list entries.
    NotAllowed,
}

/// The tuning interlock on an index and an allow-list.
pub open spec fn tuning_of(idx_tun: u8, allowed: Seq<u8>) -> TuningStatus {
    if forall|i: int| 0 <= i < allowed.len() ==> allowed[i] == 0 {
        TuningStatus::AllowListEmpty
    } else if !allowed.contains(idx_tun) {
        TuningStatus::NotAllowed
    } else {
        TuningStatus::Okay
    }
}

fn is_allowed(ext: &ExtendedDid) -> (r: bool)
    ensures
        r == ext.str_var_tun@.contains(ext.idx_tun),
{
    let mut i: usize = 0;
    while i < 5
        invariant
            i <= 5,
            forall|j: int| 0 <= j < i ==> ext.str_var_tun@[j] != ext.idx_tun,
        decreases 5 - i,
    {
        if ext.str_var_tun[i] == ext.idx_tun {
            return true;
        }
        i = i + 1;
    }
    false
}

/// The tuning interlock, the only proven silent immobilizer lock.
pub fn tuning_status(ext: &ExtendedDid) -> (r: TuningStatus)
    ensures
        r == tuning_of(ext.idx_tun, ext.str_var_tun@),
{
    let mut all_zero = true;
    let mut i: usize = 0;
    while i < 5
        invariant
            i <= 5,
            all_zero == (forall|j: int| 0 <= j < i ==> ext.str_var_tun@[j] == 0),
        decreases 5 - i,
    {
        if ext.str_var_tun[i] != 0 {
            all_zero = false;
        }
        i = i + 1;
    }
    if all_zero {
        TuningStatus::AllowListEmpty
    } else if !is_allowed(ext) {
        TuningStatus::NotAllowed
    } else {
        TuningStatus::Okay
    }
}

/// The states in which the ECU has already zeroed `idxTun`.
pub open spec fn zeroes_idx_tun(st_stat_fct: u8) -> bool {
    st_stat_fct == 1 || st_stat_fct == 10 || st_stat_fct == 0x58 || st_stat_fct == 0x63
}

/// What a reported state stands for, given the status bits and the interlock.
pub open spec fn resolved_state(
    st_stat_fct: u8,
    bits: StatusBitsDid,
    tuning: Option<TuningStatus>,
) -> Option<ImmoState> {
    if st_stat_fct != 2 {
        Some(ImmoState::spec_from_raw(st_stat_fct))
    } else if bits.st_is_2 {
        Some(ImmoState::Adapted)
    } else if !bits.st_not_3 {
        Some(ImmoState::HardwareSampleAdapted)
    } else {
        match tuning {
            None => None,
            Some(TuningStatus::Okay) => Some(ImmoState::AdaptationMode),
            Some(_) => Some(ImmoState::TuningCheckFailed),
        }
    }
}

/// Tell apart the states that report as 2.
///
/// `tuning` is `None` when the extended DID is unavailable, in which case the
/// last two cannot be told apart.
pub fn resolve_state(state: &StateDid, bits: &StatusBitsDid, tuning: Option<TuningStatus>) -> (r:
    Option<ImmoState>)
    ensures
        r == resolved_state(state.st_stat_fct, *bits, tuning),
{
    if state.st_stat_fct != 2 {
        return Some(ImmoState::from_raw(state.st_stat_fct));
    }
    if bits.st_is_2 {
        return Some(ImmoState::Adapted);
    }
    if !bits.st_not_3 {
        return Some(ImmoState::HardwareSampleAdapted);
    }
    match tuning {
        None => None,
        Some(TuningStatus::Okay) => Some(ImmoState::AdaptationMode),
        Some(_) => Some(ImmoState::TuningCheckFailed),
    }
}

/// Outcome of the lock ladder.
#[derive(Debug, Clone, Copy, PartialEq, Eq, Structural)]
pub enum LockStatus {
    /// The ECU has verified the cluster's `CrcMaster` and PIN. This is not the
    /// same as "the immobilizer is released".
    MasterVerified,
    /// Ignition is off; the ECU does not authenticate on bench power.
    IgnitionOff,
    /// Nothing is answering on CAN `0x011`.
    NoMasterReply,
    /// `CrcMaster` was rejected.
    CrcMasterRejected,
    /// `CrcMaster` was accepted but the PIN mask was rejected.
    PinRejected,
}

/// The lock ladder: verified, ignition, reply, checksum, PIN, in this order.
pub open spec fn lock_of(bits: StatusBitsDid) -> LockStatus {
    if bits.b_mst_cks_vld && bits.b_mst_key_vld {
        LockStatus::MasterVerified
    } else if !bits.ignition_on {
        LockStatus::IgnitionOff
    } else if !bits.b_mst_resp_rx {
        LockStatus::NoMasterReply
    } else if !bits.b_mst_cks_vld {
        LockStatus::CrcMasterRejected
    } else {
        LockStatus::PinRejected
    }
}

/// Current lock or release status.
pub fn lock_status(bits: &StatusBitsDid) -> (r: LockStatus)
    ensures
        r == lock_of(*bits),
{
    if bits.b_mst_cks_vld && bits.b_mst_key_vld {
        LockStatus::MasterVerified
    } else if !bits.ignition_on {
        LockStatus::IgnitionOff
    } else if !bits.b_mst_resp_rx {
        LockStatus::NoMasterReply
    } else if !bits.b_mst_cks_vld {
        LockStatus::CrcMasterRejected
    } else {
        LockStatus::PinRejected
    }
}

/// How a set of missing DIDs is listed.
pub open spec fn did_list(dids: Seq<u16>) -> Seq<char> {
    joined(dids.map_values(|d: u16| "0x"@ + hex_upper(d as nat, 4)), ", "@)
}

fn push_did_list(s: &mut String, dids: &Vec<u16>)
    ensures
        final(s)@ == old(s)@ + did_list(dids@),
{
    let ghost parts = dids@.map_values(|d: u16| "0x"@ + hex_upper(d as nat, 4));
    let mut i: usize = 0;
    assert(joined(parts.take(0), ", "@) == Seq::<char>::empty());
    while i < dids.len()
        invariant
            i <= dids@.len(),
            parts == dids@.map_values(|d: u16| "0x"@ + hex_upper(d as nat, 4)),
            s@ == old(s)@ + joined(parts.take(i as int), ", "@),
        decreases dids@.len() - i,
    {
        if i > 0 {
            s.push_str(", ");
        }
        s.push_str("0x");
        push_hex(s, dids[i] as u64, 4);
        proof {
            let next = parts.take(i + 1);
            assert(next.drop_last() == parts.take(i as int));
            assert(next.last() == "0x"@ + hex_upper(dids@[i as int] as nat, 4));
            if i == 0 {
                assert(parts.take(0) == Seq::<Seq<char>>::empty());
            }
            assert(s@ == old(s)@ + joined(next, ", "@));
        }
        i = i + 1;
    }
    assert(parts.take(i as int) == parts);
}

/// Why a failed interlock matters.
pub open spec fn tuning_explained(idx_tun: u8, allowed: Seq<u8>) -> Seq<char> {
    "This is the only proven silent immobilizer lock. idxTun (0x"@ + hex_upper(idx_tun as nat, 2)
        + ") is byte 4 of every authentication plaintext block, so once the ECU forces stStatFct to 'B' (0x42) it can never produce a matching CrcMaster/CrcSlave and the engine will not start. Allow-list strVarTun = ["@
        + hex_bytes(allowed)
        + "]. Recovery requires the noKeySecu key, which only exists in a DFlash dump."@
}

fn tuning_detail(ext: &ExtendedDid) -> (s: String)
    ensures
        s@ == tuning_explained(ext.idx_tun, ext.str_var_tun@),
{
    let mut s = "This is the only proven silent immobilizer lock. idxTun (0x".to_owned();
    push_hex(&mut s, ext.idx_tun as u64, 2);
    s.push_str(
        ") is byte 4 of every authentication plaintext block, so once the ECU forces stStatFct to 'B' (0x42) it can never produce a matching CrcMaster/CrcSlave and the engine will not start. Allow-list strVarTun = [",
    );
    push_hex_bytes(&mut s, &ext.str_var_tun);
    s.push_str("]. Recovery requires the noKeySecu key, which only exists in a DFlash dump.");
    s
}

/// Which of the required DIDs could not be used.
pub open spec fn unavailable_rule(missing: Seq<u16>) -> Seq<Finding> {
    if missing.len() == 0 {
        Seq::empty()
    } else {
        seq![
            Finding {
                rule: ImmoRule::Unavailable,
                severity: Severity::Unknown,
                message: "Immobilizer status could not be verified (no usable answer for DID "@
                    + did_list(missing) + ")."@,
                detail: UNAVAILABLE_DETAIL@,
            },
        ]
    }
}

/// Lockout timers that were answered, but not in a way that can be decoded. Where a
/// required DID is missing, that has already been said of the snapshot.
pub open spec fn malformed_rule(s: Map<u16, Seq<u8>>) -> Seq<Finding> {
    if missing(s).len() == 0 && s.contains_key(DID_LOCKOUT) && payload(s, DID_LOCKOUT, 6) is None {
        seq![
            Finding {
                rule: ImmoRule::Unavailable,
                severity: Severity::Unknown,
                message: LOCKOUT_MALFORMED@,
                detail: UNAVAILABLE_DETAIL@,
            },
        ]
    } else {
        Seq::empty()
    }
}

/// The interlock, except in the states where the ECU has zeroed `idxTun`.
pub open spec fn tuning_rule(state: Option<Seq<u8>>, extended: Option<Seq<u8>>) -> Seq<Finding> {
    match extended {
        None => Seq::empty(),
        Some(e) => {
            let idx = e[9];
            let allowed = e.subrange(10, 15);
            if state is Some && zeroes_idx_tun(state->0[0]) {
                Seq::empty()
            } else {
                match tuning_of(idx, allowed) {
                    TuningStatus::Okay => Seq::empty(),
                    TuningStatus::AllowListEmpty => seq![
                        Finding {
                            rule: ImmoRule::TuningInterlock,
                            severity: Severity::Warn,
                            message: EMPTY_ALLOW_LIST@,
                            detail: tuning_explained(idx, allowed),
                        },
                    ],
                    TuningStatus::NotAllowed => seq![
                        Finding {
                            rule: ImmoRule::TuningInterlock,
                            severity: Severity::Warn,
                            message: "Tuning interlock: idxTun 0x"@ + hex_upper(idx as nat, 2)
                                + " is not in the power-class allow-list ["@ + hex_bytes(allowed)
                                + "]."@,
                            detail: tuning_explained(idx, allowed),
                        },
                    ],
                }
            }
        },
    }
}

/// How a dead state is explained.
pub open spec fn dead_explained(state: ImmoState, extended: Option<Seq<u8>>) -> Seq<char> {
    if state != ImmoState::HardwareSampleLock {
        DEAD_DETAIL@
    } else {
        DEAD_DETAIL@ + match extended {
            Some(e) => if e[0] == 0x41 {
                DEAD_SAMPLE@
            } else {
                DEAD_NO_SAMPLE@
            },
            None => DEAD_UNREAD@,
        }
    }
}

/// The states that speak for themselves: dead, or never adapted.
pub open spec fn state_rule(state: Option<Seq<u8>>, extended: Option<Seq<u8>>) -> Seq<Finding> {
    match state {
        None => Seq::empty(),
        Some(st) => {
            let raw_state = ImmoState::spec_from_raw(st[0]);
            if raw_state.spec_is_dead() {
                seq![
                    Finding {
                        rule: ImmoRule::DeadState,
                        severity: Severity::Warn,
                        message: "The immobilizer is in a dead state: "@ + raw_state.spec_label()
                            + "."@,
                        detail: dead_explained(raw_state, extended),
                    },
                ]
            } else if st[0] == 1 {
                seq![
                    Finding {
                        rule: ImmoRule::NotAdapted,
                        severity: Severity::Warn,
                        message: NOT_ADAPTED@,
                        detail: NOT_ADAPTED_DETAIL@,
                    },
                ]
            } else {
                Seq::empty()
            }
        },
    }
}

/// The state a snapshot is in. A reported 2 is never taken at face value
/// without the status bits.
pub open spec fn snapshot_state(
    state: Option<Seq<u8>>,
    bits: Option<Seq<u8>>,
    extended: Option<Seq<u8>>,
) -> Option<ImmoState> {
    match (state, bits) {
        (Some(st), Some(b)) => resolved_state(
            st[0],
            status_bits(b),
            match extended {
                Some(e) => Some(tuning_of(e[9], e.subrange(10, 15))),
                None => None,
            },
        ),
        (Some(st), None) => if st[0] == 2 {
            None
        } else {
            Some(ImmoState::spec_from_raw(st[0]))
        },
        (None, _) => None,
    }
}

/// What a reported 2 really means.
pub open spec fn hidden_rule(state: Option<Seq<u8>>, resolved: Option<ImmoState>) -> Seq<Finding> {
    if state is Some && state->0[0] == 2 {
        let rule = ImmoRule::HiddenState;
        seq![
            match resolved {
                Some(ImmoState::Adapted) => Finding {
                    rule,
                    severity: Severity::Okay,
                    message: ADAPTED@,
                    detail: ADAPTED_DETAIL@,
                },
                Some(ImmoState::HardwareSampleAdapted) => Finding {
                    rule,
                    severity: Severity::Warn,
                    message: SAMPLE_ADAPTED@,
                    detail: SAMPLE_ADAPTED_DETAIL@,
                },
                Some(ImmoState::AdaptationMode) => Finding {
                    rule,
                    severity: Severity::Warn,
                    message: ADAPTATION_MODE@,
                    detail: ADAPTATION_MODE_DETAIL@,
                },
                Some(ImmoState::TuningCheckFailed) => Finding {
                    rule,
                    severity: Severity::Warn,
                    message: TUNING_FAILED@,
                    detail: TUNING_FAILED_DETAIL@,
                },
                _ => Finding {
                    rule,
                    severity: Severity::Unknown,
                    message: UNDECIDED@,
                    detail: UNDECIDED_DETAIL@,
                },
            },
        ]
    } else {
        Seq::empty()
    }
}

/// Current lock or release status. Ignition off and no reply are normal on a
/// bench and say nothing about whether the ECU is locked.
pub open spec fn lock_rule(bits: Option<Seq<u8>>) -> Seq<Finding> {
    match bits {
        None => Seq::empty(),
        Some(b) => {
            let rule = ImmoRule::LockState;
            seq![
                match lock_of(status_bits(b)) {
                    LockStatus::MasterVerified => Finding {
                        rule,
                        severity: Severity::Okay,
                        message: VERIFIED@,
                        detail: VERIFIED_DETAIL@,
                    },
                    LockStatus::IgnitionOff => Finding {
                        rule,
                        severity: Severity::Unknown,
                        message: IGNITION_OFF@,
                        detail: IGNITION_OFF_DETAIL@,
                    },
                    LockStatus::NoMasterReply => Finding {
                        rule,
                        severity: Severity::Unknown,
                        message: NO_REPLY@,
                        detail: NO_REPLY_DETAIL@,
                    },
                    LockStatus::CrcMasterRejected => Finding {
                        rule,
                        severity: Severity::Warn,
                        message: CRC_REJECTED@,
                        detail: CRC_REJECTED_DETAIL@,
                    },
                    LockStatus::PinRejected => Finding {
                        rule,
                        severity: Severity::Warn,
                        message: PIN_REJECTED@,
                        detail: PIN_REJECTED_DETAIL@,
                    },
                },
            ]
        },
    }
}

/// One lockout timer.
pub open spec fn timer_rule(what: Seq<char>, minutes: u8, detail: Seq<char>) -> Seq<Finding> {
    if minutes == 0 {
        Seq::empty()
    } else {
        seq![
            Finding {
                rule: ImmoRule::Lockout,
                severity: Severity::Warn,
                message: "A "@ + what + " lockout is counting down: "@ + dec(minutes as nat)
                    + " minute(s) remaining."@,
                detail,
            },
        ]
    }
}

/// Both lockout timers.
pub open spec fn lockout_rule(lockout: Option<Seq<u8>>) -> Seq<Finding> {
    match lockout {
        None => Seq::empty(),
        Some(lo) => timer_rule("download"@, lo[0], DOWNLOAD_LOCKOUT_DETAIL@) + timer_rule(
            "login"@,
            lo[1],
            LOGIN_LOCKOUT_DETAIL@,
        ),
    }
}

/// The last error code: reported, but what it means is not known.
pub open spec fn error_rule(extended: Option<Seq<u8>>) -> Seq<Finding> {
    if extended is Some && extended->0[18] != 0 {
        seq![
            Finding {
                rule: ImmoRule::LastError,
                severity: Severity::Unknown,
                message: "The immobilizer recorded error code 0x"@ + hex_upper(
                    extended->0[18] as nat,
                    2,
                ) + " (DID 0x2FF byte 18)."@,
                detail: LAST_ERROR_DETAIL@,
            },
        ]
    } else {
        Seq::empty()
    }
}

/// Inhibited memory access: a tooling limitation, never a risk.
pub open spec fn memory_rule(bits: Option<Seq<u8>>) -> Seq<Finding> {
    if bits is Some && status_bits(bits->0).b_inh_acs_mem {
        seq![
            Finding {
                rule: ImmoRule::MemoryAccess,
                severity: Severity::Okay,
                message: MEMORY_ACCESS@,
                detail: MEMORY_ACCESS_DETAIL@,
            },
        ]
    } else {
        Seq::empty()
    }
}

/// Every rule applied to a snapshot, in order.
pub open spec fn all_rules(s: Map<u16, Seq<u8>>) -> Seq<Finding> {
    let state = payload(s, DID_STATE, 10);
    let bits = payload(s, DID_STATUS_BITS, 10);
    let lockout = payload(s, DID_LOCKOUT, 6);
    let extended = payload(s, DID_EXTENDED, 19);
    unavailable_rule(missing(s)) + malformed_rule(s) + tuning_rule(state, extended) + state_rule(
        state,
        extended,
    ) + hidden_rule(state, snapshot_state(state, bits, extended)) + lock_rule(bits)
        + lockout_rule(lockout) + error_rule(extended) + memory_rule(bits)
}

fn apply_unavailable(missing: &Vec<u16>, findings: &mut Vec<ImmoFinding>)
    ensures
        said(final(findings)@) == said(old(findings)@) + unavailable_rule(missing@),
{
    if missing.len() > 0 {
        let mut message = "Immobilizer status could not be verified (no usable answer for DID ".to_owned();
        push_did_list(&mut message, missing);
        message.push_str(").");
        push_finding(
            findings,
            ImmoRule::Unavailable,
            Severity::Unknown,
            message,
            UNAVAILABLE_DETAIL.to_owned(),
        );
    }
    assert(said(findings@) == said(old(findings)@) + unavailable_rule(missing@));
}

/// A decoded payload stands for the raw one.
spec fn stands_for(e: Option<ExtendedDid>, p: Option<Seq<u8>>) -> bool {
    &&& e is Some <==> p is Some
    &&& e matches Some(x) ==> extended_of(x, p->0)
}

fn apply_tuning(
    state: Option<StateDid>,
    ext: Option<ExtendedDid>,
    findings: &mut Vec<ImmoFinding>,
    Ghost(ps): Ghost<Option<Seq<u8>>>,
    Ghost(pe): Ghost<Option<Seq<u8>>>,
)
    requires
        stands_for(ext, pe),
        state == match ps {
            Some(p) => Some(state_did(p)),
            None => None,
        },
    ensures
        said(final(findings)@) == said(old(findings)@) + tuning_rule(ps, pe),
{
    let already_zeroed = match state {
        Some(s) => s.st_stat_fct == 1 || s.st_stat_fct == 10 || s.st_stat_fct == 0x58
            || s.st_stat_fct == 0x63,
        None => false,
    };
    if let Some(e) = ext {
        if !already_zeroed {
            match tuning_status(&e) {
                TuningStatus::Okay => {},
                TuningStatus::AllowListEmpty => {
                    push_finding(
                        findings,
                        ImmoRule::TuningInterlock,
                        Severity::Warn,
                        EMPTY_ALLOW_LIST.to_owned(),
                        tuning_detail(&e),
                    );
                },
                TuningStatus::NotAllowed => {
                    let mut message = "Tuning interlock: idxTun 0x".to_owned();
                    push_hex(&mut message, e.idx_tun as u64, 2);
                    message.push_str(" is not in the power-class allow-list [");
                    push_hex_bytes(&mut message, &e.str_var_tun);
                    message.push_str("].");
                    push_finding(
                        findings,
                        ImmoRule::TuningInterlock,
                        Severity::Warn,
                        message,
                        tuning_detail(&e),
                    );
                },
            }
        }
    }
    assert(said(findings@) == said(old(findings)@) + tuning_rule(ps, pe));
}

fn apply_state(
    state: Option<StateDid>,
    ext: Option<ExtendedDid>,
    findings: &mut Vec<ImmoFinding>,
    Ghost(ps): Ghost<Option<Seq<u8>>>,
    Ghost(pe): Ghost<Option<Seq<u8>>>,
)
    requires
        stands_for(ext, pe),
        state == match ps {
            Some(p) => Some(state_did(p)),
            None => None,
        },
    ensures
        said(final(findings)@) == said(old(findings)@) + state_rule(ps, pe),
{
    if let Some(st) = state {
        let raw_state = ImmoState::from_raw(st.st_stat_fct);
        if raw_state.is_dead() {
            let mut detail = DEAD_DETAIL.to_owned();
            if raw_state == ImmoState::HardwareSampleLock {
                match ext {
                    Some(e) => {
                        if e.is_hardware_sample() {
                            detail.push_str(DEAD_SAMPLE);
                        } else {
                            detail.push_str(DEAD_NO_SAMPLE);
                        }
                    },
                    None => {
                        detail.push_str(DEAD_UNREAD);
                    },
                }
            }
            let label = raw_state.label();
            let mut message = "The immobilizer is in a dead state: ".to_owned();
            message.push_str(label.as_str());
            message.push_str(".");
            push_finding(findings, ImmoRule::DeadState, Severity::Warn, message, detail);
        }
        if st.st_stat_fct == 1 {
            push_finding(
                findings,
                ImmoRule::NotAdapted,
                Severity::Warn,
                NOT_ADAPTED.to_owned(),
                NOT_ADAPTED_DETAIL.to_owned(),
            );
        }
    }
    assert(said(findings@) == said(old(findings)@) + state_rule(ps, pe));
}

fn apply_hidden(
    state: Option<StateDid>,
    resolved: Option<ImmoState>,
    findings: &mut Vec<ImmoFinding>,
    Ghost(ps): Ghost<Option<Seq<u8>>>,
)
    requires
        state == match ps {
            Some(p) => Some(state_did(p)),
            None => None,
        },
    ensures
        said(final(findings)@) == said(old(findings)@) + hidden_rule(ps, resolved),
{
    if let Some(st) = state {
        if st.st_stat_fct == 2 {
            let (severity, message, detail) = match resolved {
                Some(ImmoState::Adapted) => (Severity::Okay, ADAPTED, ADAPTED_DETAIL),
                Some(ImmoState::HardwareSampleAdapted) => (
                    Severity::Warn,
                    SAMPLE_ADAPTED,
                    SAMPLE_ADAPTED_DETAIL,
                ),
                Some(ImmoState::AdaptationMode) => (
                    Severity::Warn,
                    ADAPTATION_MODE,
                    ADAPTATION_MODE_DETAIL,
                ),
                Some(ImmoState::TuningCheckFailed) => (
                    Severity::Warn,
                    TUNING_FAILED,
                    TUNING_FAILED_DETAIL,
                ),
                _ => (Severity::Unknown, UNDECIDED, UNDECIDED_DETAIL),
            };
            push_finding(
                findings,
                ImmoRule::HiddenState,
                severity,
                message.to_owned(),
                detail.to_owned(),
            );
        }
    }
    assert(said(findings@) == said(old(findings)@) + hidden_rule(ps, resolved));
}

fn apply_lock(
    bits: Option<StatusBitsDid>,
    findings: &mut Vec<ImmoFinding>,
    Ghost(pb): Ghost<Option<Seq<u8>>>,
)
    requires
        bits == match pb {
            Some(p) => Some(status_bits(p)),
            None => None,
        },
    ensures
        said(final(findings)@) == said(old(findings)@) + lock_rule(pb),
{
    if let Some(b) = bits {
        let (severity, message, detail) = match lock_status(&b) {
            LockStatus::MasterVerified => (Severity::Okay, VERIFIED, VERIFIED_DETAIL),
            LockStatus::IgnitionOff => (Severity::Unknown, IGNITION_OFF, IGNITION_OFF_DETAIL),
            LockStatus::NoMasterReply => (Severity::Unknown, NO_REPLY, NO_REPLY_DETAIL),
            LockStatus::CrcMasterRejected => (Severity::Warn, CRC_REJECTED, CRC_REJECTED_DETAIL),
            LockStatus::PinRejected => (Severity::Warn, PIN_REJECTED, PIN_REJECTED_DETAIL),
        };
        push_finding(
            findings,
            ImmoRule::LockState,
            severity,
            message.to_owned(),
            detail.to_owned(),
        );
    }
    assert(said(findings@) == said(old(findings)@) + lock_rule(pb));
}

fn apply_timer(what: &str, minutes: u8, detail: &str, findings: &mut Vec<ImmoFinding>)
    ensures
        said(final(findings)@) == said(old(findings)@) + timer_rule(what@, minutes, detail@),
{
    if minutes != 0 {
        let mut message = "A ".to_owned();
        message.push_str(what);
        message.push_str(" lockout is counting down: ");
        push_dec(&mut message, minutes as u64);
        message.push_str(" minute(s) remaining.");
        push_finding(findings, ImmoRule::Lockout, Severity::Warn, message, detail.to_owned());
    }
    assert(said(findings@) == said(old(findings)@) + timer_rule(what@, minutes, detail@));
}

fn apply_lockout(
    lockout: Option<LockoutDid>,
    findings: &mut Vec<ImmoFinding>,
    Ghost(pl): Ghost<Option<Seq<u8>>>,
)
    requires
        lockout == match pl {
            Some(p) => Some(
                LockoutDid { download_lockout_minutes: p[0], login_lockout_minutes: p[1] },
            ),
            None => None,
        },
    ensures
        said(final(findings)@) == said(old(findings)@) + lockout_rule(pl),
{
    if let Some(lo) = lockout {
        apply_timer("download", lo.download_lockout_minutes, DOWNLOAD_LOCKOUT_DETAIL, findings);
        apply_timer("login", lo.login_lockout_minutes, LOGIN_LOCKOUT_DETAIL, findings);
    }
    assert(said(findings@) == said(old(findings)@) + lockout_rule(pl));
}

fn apply_error(
    ext: Option<ExtendedDid>,
    findings: &mut Vec<ImmoFinding>,
    Ghost(pe): Ghost<Option<Seq<u8>>>,
)
    requires
        stands_for(ext, pe),
    ensures
        said(final(findings)@) == said(old(findings)@) + error_rule(pe),
{
    if let Some(e) = ext {
        if e.last_error != 0 {
            let mut message = "The immobilizer recorded error code 0x".to_owned();
            push_hex(&mut message, e.last_error as u64, 2);
            message.push_str(" (DID 0x2FF byte 18).");
            push_finding(
                findings,
                ImmoRule::LastError,
                Severity::Unknown,
                message,
                LAST_ERROR_DETAIL.to_owned(),
            );
        }
    }
    assert(said(findings@) == said(old(findings)@) + error_rule(pe));
}

fn apply_memory(
    bits: Option<StatusBitsDid>,
    findings: &mut Vec<ImmoFinding>,
    Ghost(pb): Ghost<Option<Seq<u8>>>,
)
    requires
        bits == match pb {
            Some(p) => Some(status_bits(p)),
            None => None,
        },
    ensures
        said(final(findings)@) == said(old(findings)@) + memory_rule(pb),
{
    if let Some(b) = bits {
        if b.b_inh_acs_mem {
            push_finding(
                findings,
                ImmoRule::MemoryAccess,
                Severity::Okay,
                MEMORY_ACCESS.to_owned(),
                MEMORY_ACCESS_DETAIL.to_owned(),
            );
        }
    }
    assert(said(findings@) == said(old(findings)@) + memory_rule(pb));
}

fn worst_severity(findings: &Vec<ImmoFinding>) -> (r: Severity)
    ensures
        r == worst_of(said(findings@)),
{
    let mut worst = Severity::Okay;
    let mut i: usize = 0;
    while i < findings.len()
        invariant
            i <= findings@.len(),
            worst == worst_of(said(findings@).take(i as int)),
        decreases findings@.len() - i,
    {
        worst = worst.worst(findings[i].severity);
        proof {
            let next = said(findings@).take(i + 1);
            assert(next.drop_last() == said(findings@).take(i as int));
            assert(next.last() == findings@[i as int]@);
        }
        i = i + 1;
    }
    assert(said(findings@).take(i as int) == said(findings@));
    worst
}

fn state_of(snapshot: &ImmoSnapshot) -> (r: Option<StateDid>)
    ensures
        r == match payload(snapshot@, DID_STATE, 10) {
            Some(p) => Some(state_did(p)),
            None => None,
        },
{
    match snapshot.raw(DID_STATE) {
        Some(p) => decode_2ed(p),
        None => None,
    }
}

fn bits_of(snapshot: &ImmoSnapshot) -> (r: Option<StatusBitsDid>)
    ensures
        r == match payload(snapshot@, DID_STATUS_BITS, 10) {
            Some(p) => Some(status_bits(p)),
            None => None,
        },
{
    match snapshot.raw(DID_STATUS_BITS) {
        Some(p) => decode_2ee(p),
        None => None,
    }
}

fn extended_did(snapshot: &ImmoSnapshot) -> (r: Option<ExtendedDid>)
    ensures
        stands_for(r, payload(snapshot@, DID_EXTENDED, 19)),
{
    match snapshot.raw(DID_EXTENDED) {
        Some(p) => decode_2ff(p),
        None => None,
    }
}

/// Apply every rule to a snapshot.
///
/// Fail-open: anything that cannot be decoded yields [`Severity::Unknown`]
/// findings, never risks.
pub fn assess(snapshot: &ImmoSnapshot) -> (r: ImmoReport)
    ensures
        said(r.findings@) == all_rules(snapshot@),
        r.severity == worst_of(all_rules(snapshot@)),
        r.reported_state == match payload(snapshot@, DID_STATE, 10) {
            Some(p) => Some(p[0]),
            None => None,
        },
        r.state == snapshot_state(
            payload(snapshot@, DID_STATE, 10),
            payload(snapshot@, DID_STATUS_BITS, 10),
            payload(snapshot@, DID_EXTENDED, 19),
        ),
{
    let mut findings: Vec<ImmoFinding> = Vec::new();
    let ghost ps = payload(snapshot@, DID_STATE, 10);
    let ghost pb = payload(snapshot@, DID_STATUS_BITS, 10);
    let ghost pl = payload(snapshot@, DID_LOCKOUT, 6);
    let ghost pe = payload(snapshot@, DID_EXTENDED, 19);

    let state = state_of(snapshot);
    let bits = bits_of(snapshot);
    let lockout = match snapshot.raw(DID_LOCKOUT) {
        Some(p) => decode_2ef(p),
        None => None,
    };
    let ext = extended_did(snapshot);

    let absent = snapshot.missing_required();
    assert(said(findings@) == Seq::<Finding>::empty());
    apply_unavailable(&absent, &mut findings);
    if absent.len() == 0 && lockout.is_none() && snapshot.raw(DID_LOCKOUT).is_some() {
        push_finding(
            &mut findings,
            ImmoRule::Unavailable,
            Severity::Unknown,
            LOCKOUT_MALFORMED.to_owned(),
            UNAVAILABLE_DETAIL.to_owned(),
        );
    }
    assert(said(findings@) == unavailable_rule(missing(snapshot@)) + malformed_rule(snapshot@));
    apply_tuning(state, ext, &mut findings, Ghost(ps), Ghost(pe));
    apply_state(state, ext, &mut findings, Ghost(ps), Ghost(pe));

    let tuning = match ext {
        Some(e) => Some(tuning_status(&e)),
        None => None,
    };
    let resolved = match state {
        Some(st) => match bits {
            Some(b) => resolve_state(&st, &b, tuning),
            None => if st.st_stat_fct == 2 {
                None
            } else {
                Some(ImmoState::from_raw(st.st_stat_fct))
            },
        },
        None => None,
    };
    assert(resolved == snapshot_state(ps, pb, pe));
    apply_hidden(state, resolved, &mut findings, Ghost(ps));
    apply_lock(bits, &mut findings, Ghost(pb));
    apply_lockout(lockout, &mut findings, Ghost(pl));
    apply_error(ext, &mut findings, Ghost(pe));
    apply_memory(bits, &mut findings, Ghost(pb));
    assert(said(findings@) == all_rules(snapshot@));

    let severity = worst_severity(&findings);
    let reported_state = match state {
        Some(s) => Some(s.st_stat_fct),
        None => None,
    };
    ImmoReport { severity, reported_state, state: resolved, findings }
}

/// Something that could not be compared.
pub open spec fn caveat(message: Seq<char>, detail: Seq<char>) -> Finding {
    Finding { rule: ImmoRule::Unavailable, severity: Severity::Unknown, message, detail }
}

/// The one thing that is said of a comparison that is not complete: one or both
/// snapshots lack the state or the extended DID, or else only one of them has the
/// status bits.
pub open spec fn incomplete_diff(
    state_before: Option<Seq<u8>>,
    state_after: Option<Seq<u8>>,
    ext_before: Option<Seq<u8>>,
    ext_after: Option<Seq<u8>>,
    bits_before: Option<Seq<u8>>,
    bits_after: Option<Seq<u8>>,
) -> Seq<Finding> {
    if ext_before is None || ext_after is None || state_before is None || state_after is None {
        seq![caveat(DIFF_INCOMPLETE@, DIFF_INCOMPLETE_DETAIL@)]
    } else if bits_before is None != bits_after is None {
        seq![caveat(DIFF_ONE_SIDED@, DIFF_INCOMPLETE_DETAIL@)]
    } else {
        Seq::empty()
    }
}

/// A change across the flash.
pub open spec fn change(message: Seq<char>, detail: Seq<char>) -> Finding {
    Finding { rule: ImmoRule::PostFlashChange, severity: Severity::Warn, message, detail }
}

/// What changed in the extended DID: the allow-list, the membership of `idxTun`
/// in it, the hardware-sample marker. A membership that did not hold before the
/// flash is not blamed on it.
pub open spec fn extended_diff(before: Option<Seq<u8>>, after: Option<Seq<u8>>) -> Seq<Finding> {
    match (before, after) {
        (Some(b), Some(a)) => {
            let listed_before = b.subrange(10, 15);
            let listed_after = a.subrange(10, 15);
            let list = if listed_before != listed_after {
                seq![
                    change(
                        "The power-class allow-list changed across the flash: ["@ + hex_bytes(
                            listed_before,
                        ) + "] -> ["@ + hex_bytes(listed_after) + "]."@,
                        LIST_CHANGED_DETAIL@,
                    ),
                ]
            } else {
                Seq::empty()
            };
            let membership = if listed_before.contains(b[9]) && !listed_after.contains(a[9]) {
                seq![
                    change(
                        "After the flash, idxTun 0x"@ + hex_upper(a[9] as nat, 2)
                            + " is no longer in the allow-list ["@ + hex_bytes(listed_after)
                            + "]."@,
                        NO_LONGER_DETAIL@,
                    ),
                ]
            } else {
                Seq::empty()
            };
            let marker = if b[0] == 0x53 && a[0] == 0x41 {
                seq![change(MARKER_FLIPPED@, MARKER_FLIPPED_DETAIL@)]
            } else {
                Seq::empty()
            };
            list + membership + marker
        },
        _ => Seq::empty(),
    }
}

/// A move into a dead state, or a reported 2 that is no longer really 2.
pub open spec fn state_diff(
    state_before: Option<Seq<u8>>,
    state_after: Option<Seq<u8>>,
    bits_before: Option<Seq<u8>>,
    bits_after: Option<Seq<u8>>,
) -> Seq<Finding> {
    match (state_before, state_after) {
        (Some(b), Some(a)) => {
            let after_state = ImmoState::spec_from_raw(a[0]);
            let dead = if !ImmoState::spec_from_raw(b[0]).spec_is_dead()
                && after_state.spec_is_dead() {
                seq![
                    change(
                        "The immobilizer state moved into a dead state across the flash: 0x"@
                            + hex_upper(b[0] as nat, 2) + " -> "@ + after_state.spec_label() + "."@,
                        MOVED_DEAD_DETAIL@,
                    ),
                ]
            } else {
                Seq::empty()
            };
            let lost = if bits_before is Some && bits_after is Some && a[0] == 2 && status_bits(
                bits_before->0,
            ).st_is_2 && !status_bits(bits_after->0).st_is_2 {
                seq![change(BIT_LOST@, BIT_LOST_DETAIL@)]
            } else {
                Seq::empty()
            };
            dead + lost
        },
        _ => Seq::empty(),
    }
}

/// Everything that differs between two snapshots and matters.
pub open spec fn flash_diff(
    before: Map<u16, Seq<u8>>,
    after: Map<u16, Seq<u8>>,
) -> Seq<Finding> {
    let state_before = payload(before, DID_STATE, 10);
    let state_after = payload(after, DID_STATE, 10);
    let ext_before = payload(before, DID_EXTENDED, 19);
    let ext_after = payload(after, DID_EXTENDED, 19);
    let bits_before = payload(before, DID_STATUS_BITS, 10);
    let bits_after = payload(after, DID_STATUS_BITS, 10);
    incomplete_diff(state_before, state_after, ext_before, ext_after, bits_before, bits_after)
        + extended_diff(ext_before, ext_after) + state_diff(
        state_before,
        state_after,
        bits_before,
        bits_after,
    )
}

fn diff_extended(
    before: Option<ExtendedDid>,
    after: Option<ExtendedDid>,
    findings: &mut Vec<ImmoFinding>,
    Ghost(pb): Ghost<Option<Seq<u8>>>,
    Ghost(pa): Ghost<Option<Seq<u8>>>,
)
    requires
        stands_for(before, pb),
        stands_for(after, pa),
    ensures
        said(final(findings)@) == said(old(findings)@) + extended_diff(pb, pa),
{
    if let Some(b) = before {
        if let Some(a) = after {
            if !bytes_eq(&b.str_var_tun, &a.str_var_tun) {
                let mut message = "The power-class allow-list changed across the flash: [".to_owned();
                push_hex_bytes(&mut message, &b.str_var_tun);
                message.push_str("] -> [");
                push_hex_bytes(&mut message, &a.str_var_tun);
                message.push_str("].");
                push_finding(
                    findings,
                    ImmoRule::PostFlashChange,
                    Severity::Warn,
                    message,
                    LIST_CHANGED_DETAIL.to_owned(),
                );
            }
            if is_allowed(&b) && !is_allowed(&a) {
                let mut message = "After the flash, idxTun 0x".to_owned();
                push_hex(&mut message, a.idx_tun as u64, 2);
                message.push_str(" is no longer in the allow-list [");
                push_hex_bytes(&mut message, &a.str_var_tun);
                message.push_str("].");
                push_finding(
                    findings,
                    ImmoRule::PostFlashChange,
                    Severity::Warn,
                    message,
                    NO_LONGER_DETAIL.to_owned(),
                );
            }
            if b.marker == 0x53 && a.marker == 0x41 {
                push_finding(
                    findings,
                    ImmoRule::PostFlashChange,
                    Severity::Warn,
                    MARKER_FLIPPED.to_owned(),
                    MARKER_FLIPPED_DETAIL.to_owned(),
                );
            }
        }
    }
    assert(said(findings@) == said(old(findings)@) + extended_diff(pb, pa));
}

/// Compare a snapshot taken before the flash with one taken after it and report
/// anything that indicates that the flash locked the immobilizer.
///
/// DIDs that are missing from either side yield an [`Severity::Unknown`]
/// finding rather than a risk.
pub fn diff_after_flash(before: &ImmoSnapshot, after: &ImmoSnapshot) -> (r: Vec<ImmoFinding>)
    ensures
        said(r@) == flash_diff(before@, after@),
{
    let mut findings: Vec<ImmoFinding> = Vec::new();
    assert(said(findings@) == Seq::<Finding>::empty());
    let ghost psb = payload(before@, DID_STATE, 10);
    let ghost psa = payload(after@, DID_STATE, 10);
    let ghost peb = payload(before@, DID_EXTENDED, 19);
    let ghost pea = payload(after@, DID_EXTENDED, 19);
    let ghost pbb = payload(before@, DID_STATUS_BITS, 10);
    let ghost pba = payload(after@, DID_STATUS_BITS, 10);

    let ext_before = extended_did(before);
    let ext_after = extended_did(after);
    let state_before = state_of(before);
    let state_after = state_of(after);
    let bits_before = bits_of(before);
    let bits_after = bits_of(after);

    if ext_before.is_none() || ext_after.is_none() || state_before.is_none()
        || state_after.is_none() {
        push_finding(
            &mut findings,
            ImmoRule::Unavailable,
            Severity::Unknown,
            DIFF_INCOMPLETE.to_owned(),
            DIFF_INCOMPLETE_DETAIL.to_owned(),
        );
    } else if bits_before.is_none() != bits_after.is_none() {
        push_finding(
            &mut findings,
            ImmoRule::Unavailable,
            Severity::Unknown,
            DIFF_ONE_SIDED.to_owned(),
            DIFF_INCOMPLETE_DETAIL.to_owned(),
        );
    }
    assert(said(findings@) == incomplete_diff(psb, psa, peb, pea, pbb, pba));
    diff_extended(ext_before, ext_after, &mut findings, Ghost(peb), Ghost(pea));

    let ghost so_far = said(findings@);
    if let Some(b) = state_before {
        if let Some(a) = state_after {
            let after_state = ImmoState::from_raw(a.st_stat_fct);
            if !ImmoState::from_raw(b.st_stat_fct).is_dead() && after_state.is_dead() {
                let label = after_state.label();
                let mut message = "The immobilizer state moved into a dead state across the flash: 0x".to_owned();
                push_hex(&mut message, b.st_stat_fct as u64, 2);
                message.push_str(" -> ");
                message.push_str(label.as_str());
                message.push_str(".");
                push_finding(
                    &mut findings,
                    ImmoRule::PostFlashChange,
                    Severity::Warn,
                    message,
                    MOVED_DEAD_DETAIL.to_owned(),
                );
            }
            if let Some(bb) = bits_before {
                if let Some(ba) = bits_after {
                    if a.st_stat_fct == 2 && bb.st_is_2 && !ba.st_is_2 {
                        push_finding(
                            &mut findings,
                            ImmoRule::PostFlashChange,
                            Severity::Warn,
                            BIT_LOST.to_owned(),
                            BIT_LOST_DETAIL.to_owned(),
                        );
                    }
                }
            }
        }
    }
    assert(said(findings@) == so_far + state_diff(psb, psa, pbb, pba));
    findings
}

/// A report is a warning exactly when one of its findings is.
pub proof fn law_report_warns_iff_a_finding_does(findings: Seq<Finding>)
    ensures
        worst_of(findings) == Severity::Warn <==> exists|i: int|
            0 <= i < findings.len() && (#[trigger] findings[i]).severity == Severity::Warn,
        worst_of(findings) == Severity::Okay <==> forall|i: int|
            0 <= i < findings.len() ==> (#[trigger] findings[i]).severity == Severity::Okay,
    decreases findings.len(),
{
    if findings.len() > 0 {
        let front = findings.drop_last();
        law_report_warns_iff_a_finding_does(front);
        assert(forall|i: int| 0 <= i < front.len() ==> front[i] == findings[i]);
        let last = findings[findings.len() - 1];
        assert(last == findings.last());
        if exists|i: int|
            0 <= i < findings.len() && (#[trigger] findings[i]).severity == Severity::Warn {
            let i = choose|i: int|
                0 <= i < findings.len() && (#[trigger] findings[i]).severity == Severity::Warn;
            if i < front.len() {
                assert(front[i].severity == Severity::Warn);
            }
        }
        if worst_of(front) == Severity::Warn {
            let i = choose|i: int|
                0 <= i < front.len() && (#[trigger] front[i]).severity == Severity::Warn;
            assert(findings[i].severity == Severity::Warn);
        }
        if forall|i: int|
            0 <= i < findings.len() ==> (#[trigger] findings[i]).severity == Severity::Okay {
            assert(forall|i: int|
                0 <= i < front.len() ==> (#[trigger] front[i]).severity == Severity::Okay);
        }
    }
}

/// Fail-open: an ECU that answers none of the status DIDs usably yields one
/// caveat and no risk.
pub proof fn law_unanswered_is_unknown_never_a_risk(s: Map<u16, Seq<u8>>)
    requires
        payload(s, DID_STATE, 10) is None,
        payload(s, DID_STATUS_BITS, 10) is None,
        payload(s, DID_LOCKOUT, 6) is None,
        payload(s, DID_EXTENDED, 19) is None,
    ensures
        worst_of(all_rules(s)) == Severity::Unknown,
        all_rules(s).len() == 1,
        all_rules(s)[0].rule == ImmoRule::Unavailable,
        all_rules(s)[0].severity == Severity::Unknown,
{
    let all = all_rules(s);
    assert(missing(s).len() == 3);
    assert(all == unavailable_rule(missing(s)));
    reveal_with_fuel(worst_of, 2);
    assert(all.drop_last() == Seq::<Finding>::empty());
}

/// Whether a finding is a risk.
pub open spec fn risky(findings: Seq<Finding>) -> bool {
    exists|i: int| 0 <= i < findings.len() && (#[trigger] findings[i]).severity == Severity::Warn
}

proof fn lemma_risky_parts(a: Seq<Finding>, b: Seq<Finding>)
    ensures
        risky(a + b) == (risky(a) || risky(b)),
{
    let both = a + b;
    if risky(a) {
        let i = choose|i: int| 0 <= i < a.len() && (#[trigger] a[i]).severity == Severity::Warn;
        assert(both[i].severity == Severity::Warn);
    }
    if risky(b) {
        let i = choose|i: int| 0 <= i < b.len() && (#[trigger] b[i]).severity == Severity::Warn;
        assert(both[a.len() + i].severity == Severity::Warn);
    }
    if risky(both) {
        let i = choose|i: int|
            0 <= i < both.len() && (#[trigger] both[i]).severity == Severity::Warn;
        if i < a.len() {
            assert(a[i].severity == Severity::Warn);
        } else {
            assert(b[i - a.len()].severity == Severity::Warn);
        }
    }
}

proof fn lemma_risks_of_a_snapshot(s: Map<u16, Seq<u8>>)
    ensures
        ({
            let state = payload(s, DID_STATE, 10);
            let bits = payload(s, DID_STATUS_BITS, 10);
            let extended = payload(s, DID_EXTENDED, 19);
            risky(all_rules(s)) == (risky(tuning_rule(state, extended)) || risky(
                state_rule(state, extended),
            ) || risky(hidden_rule(state, snapshot_state(state, bits, extended))) || risky(
                lock_rule(bits),
            ) || risky(lockout_rule(payload(s, DID_LOCKOUT, 6))))
        }),
{
    let state = payload(s, DID_STATE, 10);
    let bits = payload(s, DID_STATUS_BITS, 10);
    let extended = payload(s, DID_EXTENDED, 19);
    let u = unavailable_rule(missing(s));
    let a = u + malformed_rule(s);
    let b = a + tuning_rule(state, extended);
    let c = b + state_rule(state, extended);
    let d = c + hidden_rule(state, snapshot_state(state, bits, extended));
    let e = d + lock_rule(bits);
    let f = e + lockout_rule(payload(s, DID_LOCKOUT, 6));
    let g = f + error_rule(extended);
    lemma_risky_parts(u, malformed_rule(s));
    lemma_risky_parts(a, tuning_rule(state, extended));
    lemma_risky_parts(b, state_rule(state, extended));
    lemma_risky_parts(c, hidden_rule(state, snapshot_state(state, bits, extended)));
    lemma_risky_parts(d, lock_rule(bits));
    lemma_risky_parts(e, lockout_rule(payload(s, DID_LOCKOUT, 6)));
    lemma_risky_parts(f, error_rule(extended));
    lemma_risky_parts(g, memory_rule(bits));
}

/// Whether a DID has no usable answer in `fewer`, or the one that it has in `more`.
pub open spec fn no_more(
    fewer: Map<u16, Seq<u8>>,
    more: Map<u16, Seq<u8>>,
    did: u16,
    len: int,
) -> bool {
    payload(fewer, did, len) is None || payload(fewer, did, len) == payload(more, did, len)
}

/// Fail-open: fewer answers never add a risk. Where an ECU that answers more DIDs
/// is not at risk, neither is one that answers fewer of them.
pub proof fn law_fewer_answers_never_add_a_risk(
    fewer: Map<u16, Seq<u8>>,
    more: Map<u16, Seq<u8>>,
)
    requires
        no_more(fewer, more, DID_STATE, 10),
        no_more(fewer, more, DID_STATUS_BITS, 10),
        no_more(fewer, more, DID_LOCKOUT, 6),
        no_more(fewer, more, DID_EXTENDED, 19),
        worst_of(all_rules(more)) != Severity::Warn,
    ensures
        worst_of(all_rules(fewer)) != Severity::Warn,
{
    law_report_warns_iff_a_finding_does(all_rules(fewer));
    law_report_warns_iff_a_finding_does(all_rules(more));
    lemma_risks_of_a_snapshot(fewer);
    lemma_risks_of_a_snapshot(more);
    let state = payload(more, DID_STATE, 10);
    let extended = payload(more, DID_EXTENDED, 19);
    if state is Some && zeroes_idx_tun(state->0[0]) {
        assert(state_rule(state, extended)[0].severity == Severity::Warn);
        assert(risky(state_rule(state, extended)));
    }
    if extended is Some && payload(fewer, DID_STATE, 10) is None {
        assert(tuning_rule(None, extended) == tuning_rule(state, extended));
    }
    let raw = payload(fewer, DID_STATE, 10);
    if raw is Some && state_rule(raw, payload(fewer, DID_EXTENDED, 19)).len() > 0 {
        assert(state_rule(state, extended)[0].severity == Severity::Warn);
        assert(risky(state_rule(state, extended)));
    }
}

/// A reported state of 2 is never resolved, and never called healthy, without
/// the status bits that prove it.
pub proof fn law_state_2_needs_the_status_bits(s: Map<u16, Seq<u8>>)
    requires
        payload(s, DID_STATE, 10) is Some,
        payload(s, DID_STATE, 10)->0[0] == 2,
        payload(s, DID_STATUS_BITS, 10) is None,
    ensures
        snapshot_state(payload(s, DID_STATE, 10), None, payload(s, DID_EXTENDED, 19)) is None,
        forall|i: int|
            0 <= i < all_rules(s).len() && (#[trigger] all_rules(s)[i]).rule
                == ImmoRule::HiddenState ==> all_rules(s)[i].severity == Severity::Unknown,
{
}

/// In the states in which the ECU has zeroed `idxTun`, a zero reading is not
/// reported as a tuning violation.
pub proof fn law_no_tuning_finding_where_the_index_is_zeroed(s: Map<u16, Seq<u8>>)
    requires
        payload(s, DID_STATE, 10) is Some,
        zeroes_idx_tun(payload(s, DID_STATE, 10)->0[0]),
    ensures
        forall|i: int|
            0 <= i < all_rules(s).len() ==> (#[trigger] all_rules(s)[i]).rule
                != ImmoRule::TuningInterlock,
{
}

/// The place of a rule among the rules.
pub open spec fn place_of(rule: ImmoRule) -> int {
    match rule {
        ImmoRule::Unavailable => 0,
        ImmoRule::TuningInterlock => 1,
        ImmoRule::DeadState => 2,
        ImmoRule::NotAdapted => 3,
        ImmoRule::HiddenState => 4,
        ImmoRule::LockState => 5,
        ImmoRule::Lockout => 6,
        ImmoRule::LastError => 7,
        ImmoRule::MemoryAccess => 8,
        ImmoRule::PostFlashChange => 9,
    }
}

/// Whether findings come in the order of their rules, from `low` to `high`.
pub open spec fn in_rule_order(findings: Seq<Finding>, low: int, high: int) -> bool {
    &&& forall|i: int|
        0 <= i < findings.len() ==> low <= place_of((#[trigger] findings[i]).rule) <= high
    &&& forall|i: int, j: int|
        0 <= i < j < findings.len() ==> place_of((#[trigger] findings[i]).rule) <= place_of(
            (#[trigger] findings[j]).rule,
        )
}

proof fn lemma_order_of_parts(a: Seq<Finding>, b: Seq<Finding>, middle: int, high: int)
    requires
        in_rule_order(a, 0, middle),
        in_rule_order(b, middle, high),
        0 <= middle <= high,
    ensures
        in_rule_order(a + b, 0, high),
{
    let both = a + b;
    assert forall|i: int| 0 <= i < both.len() implies 0 <= place_of((#[trigger] both[i]).rule)
        <= high by {
        if i < a.len() {
            assert(both[i] == a[i]);
        } else {
            assert(both[i] == b[i - a.len()]);
        }
    }
    assert forall|i: int, j: int| 0 <= i < j < both.len() implies place_of(
        (#[trigger] both[i]).rule,
    ) <= place_of((#[trigger] both[j]).rule) by {
        if i < a.len() {
            assert(both[i] == a[i]);
        } else {
            assert(both[i] == b[i - a.len()]);
        }
        if j < a.len() {
            assert(both[j] == a[j]);
        } else {
            assert(both[j] == b[j - a.len()]);
        }
    }
}

/// The findings of a report come in the order of the rules.
pub proof fn law_findings_come_in_rule_order(s: Map<u16, Seq<u8>>)
    ensures
        in_rule_order(all_rules(s), 0, 8),
{
    let state = payload(s, DID_STATE, 10);
    let bits = payload(s, DID_STATUS_BITS, 10);
    let lockout = payload(s, DID_LOCKOUT, 6);
    let extended = payload(s, DID_EXTENDED, 19);
    let hidden = hidden_rule(state, snapshot_state(state, bits, extended));
    let u = unavailable_rule(missing(s));
    let a = u + malformed_rule(s);
    let b = a + tuning_rule(state, extended);
    let c = b + state_rule(state, extended);
    let d = c + hidden;
    let e = d + lock_rule(bits);
    let f = e + lockout_rule(lockout);
    let g = f + error_rule(extended);
    lemma_order_of_parts(u, malformed_rule(s), 0, 0);
    lemma_order_of_parts(a, tuning_rule(state, extended), 0, 1);
    lemma_order_of_parts(b, state_rule(state, extended), 1, 3);
    lemma_order_of_parts(c, hidden, 3, 4);
    lemma_order_of_parts(d, lock_rule(bits), 4, 5);
    lemma_order_of_parts(e, lockout_rule(lockout), 5, 6);
    lemma_order_of_parts(f, error_rule(extended), 6, 7);
    lemma_order_of_parts(g, memory_rule(bits), 7, 8);
}

/// Whether nothing but the first finding says that something is not available.
pub open spec fn said_once(findings: Seq<Finding>) -> bool {
    forall|i: int|
        0 < i < findings.len() ==> (#[trigger] findings[i]).rule != ImmoRule::Unavailable
}

proof fn lemma_said_once(a: Seq<Finding>, b: Seq<Finding>)
    requires
        said_once(a),
        forall|i: int| 0 <= i < b.len() ==> (#[trigger] b[i]).rule != ImmoRule::Unavailable,
    ensures
        said_once(a + b),
{
    let both = a + b;
    assert forall|i: int| 0 < i < both.len() implies (#[trigger] both[i]).rule
        != ImmoRule::Unavailable by {
        if i < a.len() {
            assert(both[i] == a[i]);
        } else {
            assert(both[i] == b[i - a.len()]);
        }
    }
}

/// Whatever a report cannot tell for want of an answer, it says so once.
pub proof fn law_a_report_says_once_what_is_unavailable(s: Map<u16, Seq<u8>>)
    ensures
        said_once(all_rules(s)),
{
    let state = payload(s, DID_STATE, 10);
    let bits = payload(s, DID_STATUS_BITS, 10);
    let lockout = payload(s, DID_LOCKOUT, 6);
    let extended = payload(s, DID_EXTENDED, 19);
    let hidden = hidden_rule(state, snapshot_state(state, bits, extended));
    let a = unavailable_rule(missing(s)) + malformed_rule(s);
    let b = a + tuning_rule(state, extended);
    let c = b + state_rule(state, extended);
    let d = c + hidden;
    let e = d + lock_rule(bits);
    let f = e + lockout_rule(lockout);
    let g = f + error_rule(extended);
    assert(a.len() <= 1);
    lemma_said_once(a, tuning_rule(state, extended));
    lemma_said_once(b, state_rule(state, extended));
    lemma_said_once(c, hidden);
    lemma_said_once(d, lock_rule(bits));
    lemma_said_once(e, lockout_rule(lockout));
    lemma_said_once(f, error_rule(extended));
    lemma_said_once(g, memory_rule(bits));
}

/// Whatever a comparison cannot tell for want of an answer, it says so once.
pub proof fn law_a_comparison_says_once_what_is_unavailable(
    before: Map<u16, Seq<u8>>,
    after: Map<u16, Seq<u8>>,
)
    ensures
        said_once(flash_diff(before, after)),
{
    let state_before = payload(before, DID_STATE, 10);
    let state_after = payload(after, DID_STATE, 10);
    let ext_before = payload(before, DID_EXTENDED, 19);
    let ext_after = payload(after, DID_EXTENDED, 19);
    let bits_before = payload(before, DID_STATUS_BITS, 10);
    let bits_after = payload(after, DID_STATUS_BITS, 10);
    let a = incomplete_diff(
        state_before,
        state_after,
        ext_before,
        ext_after,
        bits_before,
        bits_after,
    );
    lemma_said_once(a, extended_diff(ext_before, ext_after));
    lemma_said_once(
        a + extended_diff(ext_before, ext_after),
        state_diff(state_before, state_after, bits_before, bits_after),
    );
}

/// Inhibited memory access is informational only.
#[verifier::spinoff_prover]
#[verifier::rlimit(60)]
pub proof fn law_memory_access_is_never_a_risk(s: Map<u16, Seq<u8>>)
    ensures
        forall|i: int|
            0 <= i < all_rules(s).len() && (#[trigger] all_rules(s)[i]).rule
                == ImmoRule::MemoryAccess ==> all_rules(s)[i].severity == Severity::Okay,
{
}

/// A snapshot compared with itself holds no risk, and nothing at all when the
/// comparison was complete.
pub proof fn law_identical_snapshots_differ_in_nothing(s: Map<u16, Seq<u8>>)
    ensures
        payload(s, DID_STATE, 10) is Some && payload(s, DID_EXTENDED, 19) is Some ==> flash_diff(
            s,
            s,
        ) == Seq::<Finding>::empty(),
        forall|i: int|
            0 <= i < flash_diff(s, s).len() ==> (#[trigger] flash_diff(s, s)[i]).severity
                == Severity::Unknown,
{
    if payload(s, DID_STATE, 10) is Some && payload(s, DID_EXTENDED, 19) is Some {
        assert(flash_diff(s, s) == Seq::<Finding>::empty());
    }
}

/// Two snapshots of which one answered nothing usable yield one caveat and nothing
/// else.
pub proof fn law_incomparable_snapshots_hold_no_risk(
    before: Map<u16, Seq<u8>>,
    after: Map<u16, Seq<u8>>,
)
    requires
        (payload(before, DID_STATE, 10) is None && payload(before, DID_EXTENDED, 19) is None) || (
        payload(after, DID_STATE, 10) is None && payload(after, DID_EXTENDED, 19) is None),
    ensures
        flash_diff(before, after).len() == 1,
        flash_diff(before, after)[0].severity == Severity::Unknown,
        flash_diff(before, after)[0].rule == ImmoRule::Unavailable,
{
}

/// A DID of which only one snapshot has a usable answer yields a caveat.
pub proof fn law_a_one_sided_answer_is_told(before: Map<u16, Seq<u8>>, after: Map<u16, Seq<u8>>)
    requires
        (payload(before, DID_STATE, 10) is None != payload(after, DID_STATE, 10) is None) || (
        payload(before, DID_EXTENDED, 19) is None != payload(after, DID_EXTENDED, 19) is None) || (
        payload(before, DID_STATUS_BITS, 10) is None != payload(
            after,
            DID_STATUS_BITS,
            10,
        ) is None),
    ensures
        exists|i: int|
            0 <= i < flash_diff(before, after).len() && (#[trigger] flash_diff(
                before,
                after,
            )[i]).severity == Severity::Unknown && flash_diff(before, after)[i].rule
                == ImmoRule::Unavailable,
{
    let diff = flash_diff(before, after);
    assert(diff[0].severity == Severity::Unknown && diff[0].rule == ImmoRule::Unavailable);
}

/// A membership that was already lost before the flash is not blamed on it: as
/// long as allow-list and marker stay as they were, the extended DID yields no
/// finding.
pub proof fn law_a_pre_existing_violation_is_not_blamed_on_the_flash(b: Seq<u8>, a: Seq<u8>)
    requires
        b.len() >= 19,
        a.len() >= 19,
        !b.subrange(10, 15).contains(b[9]),
        a.subrange(10, 15) == b.subrange(10, 15),
        a[0] == b[0],
    ensures
        extended_diff(Some(b), Some(a)) == Seq::<Finding>::empty(),
{
    assert(extended_diff(Some(b), Some(a)) == Seq::<Finding>::empty());
}

} // verus!
