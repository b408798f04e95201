//! The state of the wizard, and how it reacts to messages.
//!
//! ```text
//! Interface -> Identify -> Unlock -> Operation -> Firmware -> Preflight -> Confirm -> Flashing -> Done
//! ```

use std::collections::HashMap;

use vstd::prelude::*;

use super::firmware::{
    box_code_of, immo_applies, immo_check_applies, inspect_firmware, numbers, unlock_refusal,
    validate_unlock_file, versions_of, Chosen, ChosenFile, Firmware, FirmwareInfo, NO_BLOCKS,
};
use super::steps::{InterfaceKind, Operation, Step};
use crate::binfile::raw_blocks;
use crate::flash::{FlashOptions, Progress, ProgressUpdate};
use crate::identify::{opt, Candidate, ChannelIdentification};
use crate::immo::{said, Finding, ImmoReport, ImmoSnapshot, ImmoSupport, Severity};
use crate::interface::{Iface, Interface};
use crate::module::{FlashInfo, PreparedBlockData};
use crate::prepare::Prepared;
use crate::session::ScanProgress;
use crate::text::{
    chars_of, dec, parse_unsigned, push_dec, string_of, strings, trim, trimmed, unsigned_value,
};
use crate::unlock::{Probe, UnlockProbe};
use crate::workshop::FALLBACK_WORKSHOP_CODE;

verus! {

/// Which screen is shown, and what is said on it.
#[derive(Debug, Clone)]
pub struct Nav {
    pub step: Step,
    /// Set when a step is waiting on the bus; disables navigation.
    pub busy: Option<String>,
    pub error: Option<String>,
}

/// Which screen is shown, as a value.
pub struct NavValue {
    pub step: Step,
    pub busy: Option<Seq<char>>,
    pub error: Option<Seq<char>>,
}

impl View for Nav {
    type V = NavValue;

    open spec fn view(&self) -> NavValue {
        NavValue { step: self.step, busy: opt(self.busy), error: opt(self.error) }
    }
}

/// What was typed about the adapter.
#[derive(Debug, Clone)]
pub struct Adapter {
    pub interface_kind: InterfaceKind,
    pub socketcan_name: String,
    pub j2534_dll_path: String,
    pub stmin_input: String,
}

/// What was typed about the adapter, as a value.
pub struct AdapterValue {
    pub kind: InterfaceKind,
    pub socketcan_name: Seq<char>,
    pub j2534_dll_path: Seq<char>,
    pub stmin_input: Seq<char>,
}

impl View for Adapter {
    type V = AdapterValue;

    open spec fn view(&self) -> AdapterValue {
        AdapterValue {
            kind: self.interface_kind,
            socketcan_name: self.socketcan_name@,
            j2534_dll_path: self.j2534_dll_path@,
            stmin_input: self.stmin_input@,
        }
    }
}

/// What the scan found, and what was chosen of it.
#[derive(Debug)]
pub struct Scan<'a> {
    pub results: Vec<ChannelIdentification<'a>>,
    pub chosen_channel: Option<usize>,
    /// Index into the chosen channel's candidates.
    pub chosen_candidate: Option<usize>,
}

/// What the scan found, as a value.
pub struct ScanValue<'a> {
    pub results: Seq<ChannelIdentification<'a>>,
    pub chosen_channel: Option<usize>,
    pub chosen_candidate: Option<usize>,
}

impl<'a> View for Scan<'a> {
    type V = ScanValue<'a>;

    open spec fn view(&self) -> ScanValue<'a> {
        ScanValue {
            results: self.results@,
            chosen_channel: self.chosen_channel,
            chosen_candidate: self.chosen_candidate,
        }
    }
}

/// What is known about the lock, and the file to open it with.
#[derive(Debug, Clone)]
pub struct Lock {
    pub unlock: Option<UnlockProbe>,
    pub unlock_file: Option<ChosenFile>,
    pub unlock_file_error: Option<String>,
}

/// What is known about the lock, as a value.
pub struct LockValue {
    pub unlock: Option<Probe>,
    pub unlock_file: Option<Chosen>,
    pub unlock_file_error: Option<Seq<char>>,
}

/// A probe that may be missing.
pub open spec fn probed(o: Option<UnlockProbe>) -> Option<Probe> {
    match o {
        Some(p) => Some(p@),
        None => None,
    }
}

/// A file that may be missing.
pub open spec fn file_of(o: Option<ChosenFile>) -> Option<Chosen> {
    match o {
        Some(f) => Some(f@),
        None => None,
    }
}

impl View for Lock {
    type V = LockValue;

    open spec fn view(&self) -> LockValue {
        LockValue {
            unlock: probed(self.unlock),
            unlock_file: file_of(self.unlock_file),
            unlock_file_error: opt(self.unlock_file_error),
        }
    }
}

/// What is to be flashed.
#[derive(Debug)]
pub struct Job {
    pub operation: Option<Operation>,
    /// The file chosen on the firmware screen; an unlock file is none.
    pub firmware_path: Option<ChosenFile>,
    pub firmware: Option<FirmwareInfo>,
}

/// What is to be flashed, as a value.
pub struct JobValue {
    pub operation: Option<Operation>,
    pub firmware_path: Option<Chosen>,
    pub firmware: Option<Firmware>,
}

/// Firmware that may be missing.
pub open spec fn firmware_of(o: Option<FirmwareInfo>) -> Option<Firmware> {
    match o {
        Some(f) => Some(f@),
        None => None,
    }
}

impl View for Job {
    type V = JobValue;

    open spec fn view(&self) -> JobValue {
        JobValue {
            operation: self.operation,
            firmware_path: file_of(self.firmware_path),
            firmware: firmware_of(self.firmware),
        }
    }
}

/// What the safety checks gave.
#[derive(Debug)]
pub struct Checks {
    pub prepared: Option<Vec<PreparedBlockData>>,
    pub prep_notes: Vec<String>,
    pub immo_before: Option<ImmoSnapshot>,
    pub immo_report: Option<ImmoReport>,
    pub risk_acknowledged: bool,
}

/// What the safety checks gave, as a value.
pub struct ChecksValue {
    pub prepared: Option<Seq<Prepared>>,
    pub prep_notes: Seq<Seq<char>>,
    pub immo_before: Option<Map<u16, Seq<u8>>>,
    pub findings: Option<Seq<Finding>>,
    pub risk_acknowledged: bool,
}

/// Blocks as values.
pub open spec fn ready(v: Seq<PreparedBlockData>) -> Seq<Prepared> {
    v.map_values(|b: PreparedBlockData| b@)
}

impl View for Checks {
    type V = ChecksValue;

    open spec fn view(&self) -> ChecksValue {
        ChecksValue {
            prepared: match self.prepared {
                Some(v) => Some(ready(v@)),
                None => None,
            },
            prep_notes: strings(self.prep_notes@),
            immo_before: match self.immo_before {
                Some(s) => Some(s@),
                None => None,
            },
            findings: match self.immo_report {
                Some(r) => Some(said(r.findings@)),
                None => None,
            },
            risk_acknowledged: self.risk_acknowledged,
        }
    }
}

/// Where a block stands among those that are written.
#[derive(Debug, Clone, Copy, PartialEq, Eq, Structural)]
pub struct Place {
    pub index: usize,
    pub total: usize,
}

/// How far the progress bar is filled. The blocks take up what lies between a
/// tenth and nine tenths of it.
#[derive(Debug, Clone, Copy, PartialEq, Eq, Structural)]
pub enum Bar {
    /// So many hundredths.
    Percent(u8),
    /// So many of the blocks are written.
    Blocks(Place),
    /// So many bytes of a block are sent, on top of the block's own place.
    Within { sent: usize, of: usize, blocks: usize },
}

/// A flash that is under way.
#[derive(Debug)]
pub struct FlashOp<'a> {
    pub id: u64,
    pub flash_info: &'a FlashInfo,
    pub blocks: Vec<PreparedBlockData>,
    pub opts: FlashOptions,
}

/// A flash that is under way, as a value.
pub struct Op {
    pub id: u64,
    pub flash_info: FlashInfo,
    pub blocks: Seq<Prepared>,
    pub patch_cboot: bool,
    pub interface: Iface,
    pub stmin_override: Option<u32>,
    pub workshop_code: Seq<u8>,
}

impl<'a> View for FlashOp<'a> {
    type V = Op;

    open spec fn view(&self) -> Op {
        Op {
            id: self.id,
            flash_info: *self.flash_info,
            blocks: ready(self.blocks@),
            patch_cboot: self.opts.patch_cboot,
            interface: self.opts.interface@,
            stmin_override: self.opts.stmin_override,
            workshop_code: self.opts.workshop_code@,
        }
    }
}

/// How the flash is going.
#[derive(Debug)]
pub struct Flashing<'a> {
    pub flash_op: Option<FlashOp<'a>>,
    pub bar: Bar,
    /// The place of the block that is being written.
    pub base: Option<Place>,
    pub progress_step: String,
    pub log_lines: Vec<String>,
    pub total_blocks: usize,
    pub op_id: u64,
    pub finished_ok: bool,
    pub post_flash_findings: Vec<String>,
}

/// How the flash is going, as a value.
pub struct FlashingValue {
    pub op: Option<Op>,
    pub bar: Bar,
    pub base: Option<Place>,
    pub progress_step: Seq<char>,
    pub log_lines: Seq<Seq<char>>,
    pub total_blocks: usize,
    pub op_id: u64,
    pub finished_ok: bool,
    pub findings: Seq<Seq<char>>,
}

impl<'a> View for Flashing<'a> {
    type V = FlashingValue;

    open spec fn view(&self) -> FlashingValue {
        FlashingValue {
            op: match self.flash_op {
                Some(op) => Some(op@),
                None => None,
            },
            bar: self.bar,
            base: self.base,
            progress_step: self.progress_step@,
            log_lines: strings(self.log_lines@),
            total_blocks: self.total_blocks,
            op_id: self.op_id,
            finished_ok: self.finished_ok,
            findings: strings(self.post_flash_findings@),
        }
    }
}

/// The state of the wizard.
#[derive(Debug)]
pub struct State<'a> {
    pub nav: Nav,
    pub adapter: Adapter,
    pub scan: Scan<'a>,
    pub lock: Lock,
    pub job: Job,
    pub checks: Checks,
    pub flashing: Flashing<'a>,
}

/// The state as a value.
pub struct StateValue<'a> {
    pub nav: NavValue,
    pub adapter: AdapterValue,
    pub scan: ScanValue<'a>,
    pub lock: LockValue,
    pub job: JobValue,
    pub checks: ChecksValue,
    pub flashing: FlashingValue,
}

impl<'a> View for State<'a> {
    type V = StateValue<'a>;

    open spec fn view(&self) -> StateValue<'a> {
        StateValue {
            nav: self.nav@,
            adapter: self.adapter@,
            scan: self.scan@,
            lock: self.lock@,
            job: self.job@,
            checks: self.checks@,
            flashing: self.flashing@,
        }
    }
}

/// The state at the start, with the given adapter.
pub open spec fn initial<'a>(adapter: AdapterValue) -> StateValue<'a> {
    StateValue {
        nav: NavValue { step: Step::Interface, busy: None, error: None },
        adapter,
        scan: ScanValue {
            results: Seq::empty(),
            chosen_channel: None,
            chosen_candidate: None,
        },
        lock: LockValue { unlock: None, unlock_file: None, unlock_file_error: None },
        job: JobValue { operation: None, firmware_path: None, firmware: None },
        checks: ChecksValue {
            prepared: None,
            prep_notes: Seq::empty(),
            immo_before: None,
            findings: None,
            risk_acknowledged: false,
        },
        flashing: FlashingValue {
            op: None,
            bar: Bar::Percent(0),
            base: None,
            progress_step: Seq::empty(),
            log_lines: Seq::empty(),
            total_blocks: 1,
            op_id: 0,
            finished_ok: false,
            findings: Seq::empty(),
        },
    }
}

/// The separation time that was typed: none where the field is blank or holds no
/// number.
pub open spec fn typed_stmin(a: AdapterValue) -> Option<u32> {
    match unsigned_value(trimmed(a.stmin_input, false)) {
        Some(n) => if n <= u32::MAX {
            Some(n as u32)
        } else {
            None
        },
        None => None,
    }
}

/// A text without the white space round it, unless nothing is left.
pub open spec fn typed(text: Seq<char>) -> Option<Seq<char>> {
    let t = trimmed(text, false);
    if t.len() == 0 {
        None
    } else {
        Some(t)
    }
}

/// The interface that was chosen, where enough is known of it.
pub open spec fn chosen_interface(a: AdapterValue) -> Option<Iface> {
    match a.kind {
        InterfaceKind::Panda => Some(Iface::Panda),
        InterfaceKind::SocketCan => match typed(a.socketcan_name) {
            Some(name) => Some(Iface::SocketCan(name)),
            None => None,
        },
        _ => Some(
            Iface::J2534 {
                dll: typed(a.j2534_dll_path),
                bitrate: 500_000,
                native_isotp: a.kind == InterfaceKind::J2534IsoTp,
            },
        ),
    }
}

/// The candidate the user is proceeding with, if one is settled.
pub open spec fn selection<'a>(s: ScanValue<'a>) -> Option<Candidate<'a>> {
    match (s.chosen_channel, s.chosen_candidate) {
        (Some(c), Some(i)) => if c < s.results.len() && i < s.results[c as int].candidates@.len() {
            Some(s.results[c as int].candidates@[i as int])
        } else {
            None
        },
        _ => None,
    }
}

/// The module the user is proceeding with.
pub open spec fn module_of<'a>(s: ScanValue<'a>) -> Option<FlashInfo> {
    match selection(s) {
        Some(c) => Some(*c.flash_info),
        None => None,
    }
}

/// Whether an unlock screen applies to the identified module at all.
pub open spec fn unlock_shown<'a>(s: ScanValue<'a>) -> bool {
    module_of(s) matches Some(fi) && fi.patch_info is Some
}

/// Whether a check warned.
pub open spec fn risky(c: ChecksValue) -> bool {
    c.findings matches Some(findings) && exists|i: int|
        0 <= i < findings.len() && (#[trigger] findings[i]).severity == Severity::Warn
}

/// Whether the immobilizer pre-flight applies to the pending operation.
pub open spec fn immo_applies_now<'a>(s: StateValue<'a>) -> bool {
    match (module_of(s.scan), s.job.firmware, s.job.operation) {
        (Some(fi), Some(fw), Some(op)) => immo_applies(fi, fw.blocks, op),
        _ => false,
    }
}

/// Whether the wizard may go on.
pub open spec fn may_advance<'a>(s: StateValue<'a>) -> bool {
    s.nav.busy is None && match s.nav.step {
        Step::Interface => chosen_interface(s.adapter) is Some,
        Step::Identify => selection(s.scan) is Some,
        Step::Unlock => s.lock.unlock is Some,
        Step::Operation => s.job.operation is Some,
        Step::Firmware => s.job.firmware is Some,
        Step::Preflight => s.checks.prepared is Some && (risky(s.checks)
            ==> s.checks.risk_acknowledged),
        Step::Confirm => s.checks.prepared is Some,
        Step::Flashing => false,
        Step::Done => false,
    }
}

/// The screen before the one that is shown.
pub open spec fn step_before<'a>(s: StateValue<'a>) -> Step {
    match s.nav.step {
        Step::Interface => Step::Interface,
        Step::Identify => Step::Interface,
        Step::Unlock => Step::Identify,
        Step::Operation => if unlock_shown(s.scan) {
            Step::Unlock
        } else {
            Step::Identify
        },
        Step::Firmware => Step::Operation,
        Step::Preflight => if s.job.operation == Some(Operation::Unlock) {
            Step::Operation
        } else {
            Step::Firmware
        },
        Step::Confirm => Step::Preflight,
        Step::Flashing => Step::Flashing,
        Step::Done => Step::Done,
    }
}

fn trim_typed(text: &String) -> (r: Option<String>)
    ensures
        opt(r) == typed(text@),
{
    let t = trim(&chars_of(text.as_str()), false);
    if t.len() == 0 {
        None
    } else {
        Some(string_of(&t))
    }
}

impl Adapter {
    /// The separation time that was typed.
    pub fn stmin_override(&self) -> (r: Option<u32>)
        ensures
            r == typed_stmin(self@),
    {
        let t = trim(&chars_of(self.stmin_input.as_str()), false);
        match parse_unsigned(&t, u32::MAX as u64) {
            Some(n) => Some(n as u32),
            None => None,
        }
    }

    /// The interface that was chosen.
    pub fn interface(&self) -> (r: Option<Interface>)
        ensures
            match r {
                Some(i) => chosen_interface(self@) == Some(i@),
                None => chosen_interface(self@) is None,
            },
    {
        match self.interface_kind {
            InterfaceKind::Panda => Some(Interface::Panda),
            InterfaceKind::SocketCan => match trim_typed(&self.socketcan_name) {
                Some(name) => Some(Interface::SocketCan(name)),
                None => None,
            },
            _ => {
                let dll = trim_typed(&self.j2534_dll_path);
                Some(
                    Interface::J2534 {
                        dll,
                        bitrate: 500_000,
                        native_isotp: self.interface_kind == InterfaceKind::J2534IsoTp,
                    },
                )
            },
        }
    }
}

impl<'a> Scan<'a> {
    /// The candidate the user is proceeding with, if one is settled.
    pub fn selected(&self) -> (r: Option<&Candidate<'a>>)
        ensures
            match r {
                Some(c) => selection(self@) == Some(*c),
                None => selection(self@) is None,
            },
    {
        match (self.chosen_channel, self.chosen_candidate) {
            (Some(c), Some(i)) => if c < self.results.len() && i
                < self.results[c].candidates.len() {
                Some(&self.results[c].candidates[i])
            } else {
                None
            },
            _ => None,
        }
    }

    /// The module the user is proceeding with.
    pub fn flash_info(&self) -> (r: Option<&'a FlashInfo>)
        ensures
            match r {
                Some(f) => module_of(self@) == Some(*f),
                None => module_of(self@) is None,
            },
    {
        match self.selected() {
            Some(c) => Some(c.flash_info),
            None => None,
        }
    }

    /// Whether an unlock screen applies to the identified module at all.
    pub fn unlock_applies(&self) -> (r: bool)
        ensures
            r == unlock_shown(self@),
    {
        match self.flash_info() {
            Some(fi) => crate::unlock::supports_unlock(fi),
            None => false,
        }
    }
}

impl Checks {
    /// Whether a check warned.
    pub fn preflight_has_risk(&self) -> (r: bool)
        ensures
            r == risky(self@),
    {
        match &self.immo_report {
            None => false,
            Some(report) => {
                let ghost all = said(report.findings@);
                let mut i: usize = 0;
                while i < report.findings.len()
                    invariant
                        i <= report.findings@.len(),
                        all == said(report.findings@),
                        self@.findings == Some(all),
                        forall|j: int|
                            0 <= j < i ==> (#[trigger] all[j]).severity != Severity::Warn,
                    decreases report.findings@.len() - i,
                {
                    assert(all[i as int] == report.findings@[i as int]@);
                    if report.findings[i].severity == Severity::Warn {
                        return true;
                    }
                    i = i + 1;
                }
                false
            },
        }
    }
}

impl<'a> State<'a> {
    /// The state at the start.
    pub fn new() -> (r: Self)
        ensures
            r@ == initial(
                AdapterValue {
                    kind: InterfaceKind::J2534IsoTp,
                    socketcan_name: Seq::empty(),
                    j2534_dll_path: Seq::empty(),
                    stmin_input: Seq::empty(),
                },
            ),
    {
        State::with_adapter(
            Adapter {
                interface_kind: InterfaceKind::J2534IsoTp,
                socketcan_name: String::new(),
                j2534_dll_path: String::new(),
                stmin_input: String::new(),
            },
        )
    }

    fn with_adapter(adapter: Adapter) -> (r: Self)
        ensures
            r@ == initial(adapter@),
    {
        let r = State {
            nav: Nav { step: Step::Interface, busy: None, error: None },
            adapter,
            scan: Scan { results: Vec::new(), chosen_channel: None, chosen_candidate: None },
            lock: Lock { unlock: None, unlock_file: None, unlock_file_error: None },
            job: Job { operation: None, firmware_path: None, firmware: None },
            checks: Checks {
                prepared: None,
                prep_notes: Vec::new(),
                immo_before: None,
                immo_report: None,
                risk_acknowledged: false,
            },
            flashing: Flashing {
                flash_op: None,
                bar: Bar::Percent(0),
                base: None,
                progress_step: String::new(),
                log_lines: Vec::new(),
                total_blocks: 1,
                op_id: 0,
                finished_ok: false,
                post_flash_findings: Vec::new(),
            },
        };
        assert(r.checks@.prep_notes == Seq::<Seq<char>>::empty());
        assert(r.flashing@.log_lines == Seq::<Seq<char>>::empty());
        assert(r.flashing@.findings == Seq::<Seq<char>>::empty());
        r
    }

    /// Whether the current screen's button to go on should be enabled.
    ///
    /// A locked ECU may proceed, and so may one whose lock could not be read: the
    /// check is advisory and fails open.
    pub fn can_advance(&self) -> (r: bool)
        ensures
            r == may_advance(self@),
    {
        if self.nav.busy.is_some() {
            return false;
        }
        match self.nav.step {
            Step::Interface => self.adapter.interface().is_some(),
            Step::Identify => self.scan.selected().is_some(),
            Step::Unlock => self.lock.unlock.is_some(),
            Step::Operation => self.job.operation.is_some(),
            Step::Firmware => self.job.firmware.is_some(),
            Step::Preflight => self.checks.prepared.is_some() && (!self.checks.preflight_has_risk()
                || self.checks.risk_acknowledged),
            Step::Confirm => self.checks.prepared.is_some(),
            Step::Flashing => false,
            Step::Done => false,
        }
    }

    /// Whether the immobilizer pre-flight applies to the pending operation.
    pub fn immo_check_applies_now(&self) -> (r: bool)
        ensures
            r == immo_applies_now(self@),
    {
        match (self.scan.flash_info(), &self.job.firmware, self.job.operation) {
            (Some(fi), Some(fw), Some(op)) => immo_check_applies(fi, fw, op),
            _ => false,
        }
    }

    /// The screen before the one that is shown. There is no going back once bytes
    /// are on the wire.
    pub fn previous_step(&self) -> (r: Step)
        ensures
            r == step_before(self@),
    {
        match self.nav.step {
            Step::Interface => Step::Interface,
            Step::Identify => Step::Interface,
            Step::Unlock => Step::Identify,
            Step::Operation => if self.scan.unlock_applies() {
                Step::Unlock
            } else {
                Step::Identify
            },
            Step::Firmware => Step::Operation,
            Step::Preflight => match self.job.operation {
                Some(Operation::Unlock) => Step::Operation,
                _ => Step::Firmware,
            },
            Step::Confirm => Step::Preflight,
            Step::Flashing => Step::Flashing,
            Step::Done => Step::Done,
        }
    }
}

/// A file the user picked, and what loading it gave: its blocks by number, or
/// why it could not be loaded.
#[derive(Debug)]
pub struct Picked {
    pub file: ChosenFile,
    pub loaded: Result<HashMap<u8, Vec<u8>>, String>,
}

/// Everything the preflight produced.
#[derive(Debug)]
pub struct PreflightOutcome {
    pub prepared: Result<Vec<PreparedBlockData>, String>,
    pub notes: Vec<String>,
    pub immo_before: Option<ImmoSnapshot>,
    pub immo_report: Option<ImmoReport>,
}

/// What the wizard reacts to.
#[derive(Debug)]
pub enum Message<'a> {
    Next,
    Back,
    StartOver,
    InterfaceKindChanged(InterfaceKind),
    SocketCanNameChanged(String),
    J2534DllPathChanged(String),
    StminChanged(String),
    ScanProgress(ScanProgress),
    ScanFinished(Vec<ChannelIdentification<'a>>),
    /// A channel, and a candidate of it.
    CandidateChosen(usize, usize),
    UnlockProbeFinished(Result<UnlockProbe, String>),
    BrowseUnlockFile,
    UnlockFileSelected(Option<Picked>),
    OperationChosen(Operation),
    BrowseFirmware,
    FirmwareSelected(Option<Picked>),
    PreflightFinished(PreflightOutcome),
    AcknowledgeRisk(bool),
    /// A progress event, and the share of the block that is sent, in whole
    /// percent, as text.
    FlashProgress(ProgressUpdate, String),
    PostFlashChecked(Vec<String>),
}

/// What is to be done about a message, outside of the state.
#[derive(Debug, Clone)]
pub enum Command {
    Nothing,
    /// Scan the bus.
    Scan(Interface),
    /// Read the lock of the selected module.
    ProbeUnlock(Interface),
    /// Prepare the blocks, and read the immobilizer first where asked for.
    Prepare { interface: Interface, operation: Operation, want_immo: bool },
    /// Read the immobilizer again and compare.
    CheckAgain(Interface),
    /// Ask for an unlock file.
    BrowseUnlockFile,
    /// Ask for a firmware file.
    BrowseFirmware,
}

/// What is to be done, as a value.
pub enum Cmd {
    Nothing,
    Scan(Iface),
    ProbeUnlock(Iface),
    Prepare(Iface, Operation, bool),
    CheckAgain(Iface),
    BrowseUnlockFile,
    BrowseFirmware,
}

impl View for Command {
    type V = Cmd;

    open spec fn view(&self) -> Cmd {
        match self {
            Command::Nothing => Cmd::Nothing,
            Command::Scan(i) => Cmd::Scan(i@),
            Command::ProbeUnlock(i) => Cmd::ProbeUnlock(i@),
            Command::Prepare { interface, operation, want_immo } => Cmd::Prepare(
                interface@,
                *operation,
                *want_immo,
            ),
            Command::CheckAgain(i) => Cmd::CheckAgain(i@),
            Command::BrowseUnlockFile => Cmd::BrowseUnlockFile,
            Command::BrowseFirmware => Cmd::BrowseFirmware,
        }
    }
}

/// The state on another screen.
pub open spec fn on_step<'a>(s: StateValue<'a>, step: Step) -> StateValue<'a> {
    StateValue { nav: NavValue { step, ..s.nav }, ..s }
}

/// The state that waits for something.
pub open spec fn waiting<'a>(s: StateValue<'a>, what: Seq<char>) -> StateValue<'a> {
    StateValue { nav: NavValue { busy: Some(what), ..s.nav }, ..s }
}

/// The state with one more line in its log.
pub open spec fn logged<'a>(s: StateValue<'a>, line: Seq<char>) -> StateValue<'a> {
    StateValue {
        flashing: FlashingValue { log_lines: s.flashing.log_lines.push(line), ..s.flashing },
        ..s
    }
}

/// Where a scan starts, if an interface is chosen.
pub open spec fn scanning<'a>(s: StateValue<'a>) -> (StateValue<'a>, Cmd) {
    match chosen_interface(s.adapter) {
        None => (s, Cmd::Nothing),
        Some(i) => (
            StateValue {
                scan: ScanValue {
                    results: Seq::empty(),
                    chosen_channel: None,
                    chosen_candidate: None,
                },
                ..waiting(s, "Scanning the bus…"@)
            },
            Cmd::Scan(i),
        ),
    }
}

/// Where the lock is read, if there is a module to read it from.
pub open spec fn probing<'a>(s: StateValue<'a>) -> (StateValue<'a>, Cmd) {
    match (chosen_interface(s.adapter), module_of(s.scan)) {
        (Some(i), Some(_)) => (waiting(s, "Entering the bootloader…"@), Cmd::ProbeUnlock(i)),
        _ => (s, Cmd::Nothing),
    }
}

/// Where the preflight starts, if everything it needs is known. The immobilizer
/// check applies to whatever rewrites the calibration, on a module it covers.
pub open spec fn preparing<'a>(s: StateValue<'a>) -> (StateValue<'a>, Cmd) {
    match (chosen_interface(s.adapter), module_of(s.scan), s.job.firmware, s.job.operation) {
        (Some(i), Some(fi), Some(fw), Some(op)) => (
            StateValue {
                checks: ChecksValue { risk_acknowledged: false, ..s.checks },
                ..waiting(s, "Preparing…"@)
            },
            Cmd::Prepare(i, op, immo_applies(fi, fw.blocks, op) && fi.project_name@ == "SC8"@),
        ),
        _ => (s, Cmd::Nothing),
    }
}

/// The flash that starts, with the given number.
pub open spec fn operation_of<'a>(
    s: StateValue<'a>,
    id: u64,
    fi: FlashInfo,
    interface: Iface,
    blocks: Seq<Prepared>,
) -> Op {
    Op {
        id,
        flash_info: fi,
        blocks,
        patch_cboot: false,
        interface,
        stmin_override: typed_stmin(s.adapter),
        workshop_code: FALLBACK_WORKSHOP_CODE@,
    }
}

/// Where the flash starts, if everything it needs is there.
pub open spec fn flashing<'a>(s: StateValue<'a>) -> StateValue<'a> {
    match (chosen_interface(s.adapter), module_of(s.scan), s.checks.prepared) {
        (Some(i), Some(fi), Some(blocks)) => {
            let id = (s.flashing.op_id + 1) as u64;
            StateValue {
                flashing: FlashingValue {
                    op: Some(operation_of(s, id, fi, i, blocks)),
                    bar: Bar::Percent(0),
                    progress_step: "Starting…"@,
                    total_blocks: blocks.len() as usize,
                    op_id: id,
                    ..s.flashing
                },
                ..on_step(s, Step::Flashing)
            }
        },
        _ => s,
    }
}

/// The state without an error.
pub open spec fn unerred<'a>(s: StateValue<'a>) -> StateValue<'a> {
    StateValue { nav: NavValue { error: None, ..s.nav }, ..s }
}

/// How the wizard goes on, kicking off whatever work the next screen needs.
pub open spec fn advanced<'a>(before: StateValue<'a>) -> (StateValue<'a>, Cmd) {
    let s = unerred(before);
    match s.nav.step {
        Step::Interface => scanning(on_step(s, Step::Identify)),
        Step::Identify => if unlock_shown(s.scan) {
            probing(on_step(s, Step::Unlock))
        } else {
            (on_step(s, Step::Operation), Cmd::Nothing)
        },
        Step::Unlock => (on_step(s, Step::Operation), Cmd::Nothing),
        Step::Operation => if s.job.operation == Some(Operation::Unlock) && s.job.firmware is Some {
            preparing(on_step(s, Step::Preflight))
        } else {
            (on_step(s, Step::Firmware), Cmd::Nothing)
        },
        Step::Firmware => preparing(on_step(s, Step::Preflight)),
        Step::Preflight => (on_step(s, Step::Confirm), Cmd::Nothing),
        Step::Confirm => (flashing(s), Cmd::Nothing),
        _ => (s, Cmd::Nothing),
    }
}

/// Copy a block that is ready to be sent.
fn copy_block(b: &PreparedBlockData) -> (r: PreparedBlockData)
    ensures
        r@ == b@,
{
    PreparedBlockData {
        block_number: b.block_number,
        block_encrypted_bytes: crate::bytes::to_vec(b.block_encrypted_bytes.as_slice()),
        boxcode: b.boxcode.clone(),
        encryption_type: b.encryption_type,
        compression_type: b.compression_type,
        should_erase: b.should_erase,
        uds_checksum: b.uds_checksum,
        block_name: b.block_name.clone(),
        announced_length: b.announced_length,
    }
}

/// Copy blocks that are ready to be sent.
fn copy_blocks(v: &Vec<PreparedBlockData>) -> (r: Vec<PreparedBlockData>)
    ensures
        ready(r@) == ready(v@),
{
    let mut r: Vec<PreparedBlockData> = Vec::new();
    let mut i: usize = 0;
    while i < v.len()
        invariant
            i <= v@.len(),
            ready(r@) == ready(v@).take(i as int),
        decreases v@.len() - i,
    {
        let b = copy_block(&v[i]);
        let ghost before = ready(r@);
        r.push(b);
        assert(ready(r@) == before.push(b@));
        assert(ready(v@)[i as int] == v@[i as int]@);
        assert(ready(v@).take(i + 1) == ready(v@).take(i as int).push(b@));
        i = i + 1;
    }
    assert(ready(v@).take(i as int) == ready(v@));
    r
}

impl<'a> State<'a> {
    /// Start the scan.
    pub fn start_scan(&mut self) -> (r: Command)
        ensures
            (final(self)@, r@) == scanning(old(self)@),
    {
        match self.adapter.interface() {
            None => Command::Nothing,
            Some(i) => {
                self.nav.busy = Some("Scanning the bus…".to_owned());
                self.scan = Scan {
                    results: Vec::new(),
                    chosen_channel: None,
                    chosen_candidate: None,
                };
                Command::Scan(i)
            },
        }
    }

    /// Start reading the lock.
    pub fn start_unlock_probe(&mut self) -> (r: Command)
        ensures
            (final(self)@, r@) == probing(old(self)@),
    {
        match (self.adapter.interface(), self.scan.flash_info()) {
            (Some(i), Some(_)) => {
                self.nav.busy = Some("Entering the bootloader…".to_owned());
                Command::ProbeUnlock(i)
            },
            _ => Command::Nothing,
        }
    }

    /// Start the preflight.
    pub fn start_preflight(&mut self) -> (r: Command)
        ensures
            (final(self)@, r@) == preparing(old(self)@),
    {
        match (
            self.adapter.interface(),
            self.scan.flash_info(),
            &self.job.firmware,
            self.job.operation,
        ) {
            (Some(interface), Some(fi), Some(fw), Some(operation)) => {
                let writes_cal = immo_check_applies(fi, fw, operation);
                let want_immo = writes_cal && ImmoSupport::for_module(fi).is_some();
                self.nav.busy = Some("Preparing…".to_owned());
                self.checks.risk_acknowledged = false;
                Command::Prepare { interface, operation, want_immo }
            },
            _ => Command::Nothing,
        }
    }

    /// Start the flash. The CBOOT patch was applied during preparation already.
    pub fn start_flash(&mut self)
        requires
            old(self).flashing.op_id < u64::MAX,
        ensures
            final(self)@ == flashing(old(self)@),
    {
        match (self.adapter.interface(), self.scan.flash_info(), &self.checks.prepared) {
            (Some(interface), Some(flash_info), Some(prepared)) => {
                let stmin_override = self.adapter.stmin_override();
                let blocks = copy_blocks(prepared);
                let id: u64 = self.flashing.op_id + 1;
                let total: usize = prepared.len();
                assert(ready(prepared@).len() == total);
                self.flashing.op_id = id;
                self.flashing.total_blocks = total;
                self.flashing.flash_op = Some(
                    FlashOp {
                        id,
                        flash_info,
                        blocks,
                        opts: FlashOptions {
                            patch_cboot: false,
                            interface,
                            stmin_override,
                            workshop_code: FALLBACK_WORKSHOP_CODE,
                        },
                    },
                );
                self.nav.step = Step::Flashing;
                self.flashing.bar = Bar::Percent(0);
                self.flashing.progress_step = "Starting…".to_owned();
            },
            _ => {},
        }
    }

    /// Go on, kicking off whatever work the next screen needs.
    pub fn advance(&mut self) -> (r: Command)
        requires
            old(self).flashing.op_id < u64::MAX,
        ensures
            (final(self)@, r@) == advanced(old(self)@),
    {
        self.nav.error = None;
        match self.nav.step {
            Step::Interface => {
                self.nav.step = Step::Identify;
                self.start_scan()
            },
            Step::Identify => {
                if self.scan.unlock_applies() {
                    self.nav.step = Step::Unlock;
                    self.start_unlock_probe()
                } else {
                    self.nav.step = Step::Operation;
                    Command::Nothing
                }
            },
            Step::Unlock => {
                self.nav.step = Step::Operation;
                Command::Nothing
            },
            Step::Operation => {
                let unlocking = match self.job.operation {
                    Some(Operation::Unlock) => true,
                    _ => false,
                };
                if unlocking && self.job.firmware.is_some() {
                    self.nav.step = Step::Preflight;
                    self.start_preflight()
                } else {
                    self.nav.step = Step::Firmware;
                    Command::Nothing
                }
            },
            Step::Firmware => {
                self.nav.step = Step::Preflight;
                self.start_preflight()
            },
            Step::Preflight => {
                self.nav.step = Step::Confirm;
                Command::Nothing
            },
            Step::Confirm => {
                self.start_flash();
                Command::Nothing
            },
            _ => Command::Nothing,
        }
    }

    /// Add a line to the log.
    pub fn log(&mut self, line: String)
        ensures
            final(self)@ == logged(old(self)@, line@),
    {
        let ghost before = self.flashing@.log_lines;
        self.flashing.log_lines.push(line);
        assert(self.flashing@.log_lines == before.push(line@));
    }
}

/// What is said when a scan found nothing.
pub const NOTHING_ANSWERED: &'static str =
    "No supported control module answered. Check the adapter, the ignition, \
    and that the vehicle is awake.";

/// How the state follows a scan.
pub open spec fn scan_reported<'a>(s: StateValue<'a>, p: ScanProgress) -> StateValue<'a> {
    match p {
        ScanProgress::ChannelStarted { channel, index, total } => waiting(
            s,
            "Probing "@ + channel.label@ + " — address "@ + dec((index + 1) as nat) + " of "@ + dec(
                total as nat,
            ) + "…"@,
        ),
        ScanProgress::ChannelAnswered { channel } => logged(s, channel.label@ + " answered"@),
        ScanProgress::ChannelSilent { channel } => logged(s, channel.label@ + " did not answer"@),
    }
}

/// The state after a scan. Where there is nothing to decide the only candidate is
/// selected.
pub open spec fn scanned<'a>(s: StateValue<'a>, results: Seq<ChannelIdentification<'a>>) -> StateValue<
    'a,
> {
    let only = results.len() == 1 && results[0].candidates@.len() == 1;
    StateValue {
        nav: NavValue {
            busy: None,
            error: if results.len() == 0 {
                Some(NOTHING_ANSWERED@)
            } else {
                None
            },
            ..s.nav
        },
        scan: ScanValue {
            results,
            chosen_channel: if only {
                Some(0usize)
            } else {
                s.scan.chosen_channel
            },
            chosen_candidate: if only {
                Some(0usize)
            } else {
                s.scan.chosen_candidate
            },
        },
        ..s
    }
}

/// The state with another candidate, which invalidates everything downstream.
pub open spec fn candidate_chosen<'a>(
    s: StateValue<'a>,
    channel: usize,
    candidate: usize,
) -> StateValue<'a> {
    StateValue {
        scan: ScanValue {
            chosen_channel: Some(channel),
            chosen_candidate: Some(candidate),
            ..s.scan
        },
        lock: LockValue { unlock: None, ..s.lock },
        job: JobValue { operation: None, firmware: None, ..s.job },
        checks: ChecksValue { prepared: None, ..s.checks },
        ..s
    }
}

/// What stands for the hardware version of a probe.
pub open spec fn version_shown(p: Probe) -> Seq<char> {
    match p.version {
        Some(v) => v,
        None => "—"@,
    }
}

/// The state after the lock was read.
pub open spec fn lock_read<'a>(s: StateValue<'a>, r: Result<UnlockProbe, String>) -> StateValue<
    'a,
> {
    let free = StateValue { nav: NavValue { busy: None, ..s.nav }, ..s };
    match r {
        Ok(p) => StateValue {
            lock: LockValue { unlock: Some(p@), ..s.lock },
            ..logged(
                free,
                "Unlock check: "@ + p@.state.phrase() + " ("@ + version_shown(p@) + ")"@,
            )
        },
        Err(e) => StateValue { nav: NavValue { error: Some(e@), ..free.nav }, ..free },
    }
}

/// What a picked file holds, or why it is not taken.
pub open spec fn inspected(fi: FlashInfo, p: Picked) -> Result<Firmware, Seq<char>> {
    match p.loaded {
        Err(e) => Err(e@),
        Ok(blocks) => if forall|n: u8| !blocks@.contains_key(n) {
            Err(NO_BLOCKS@)
        } else {
            let raw = raw_blocks(blocks@);
            Ok(
                Firmware {
                    file: p.file@,
                    blocks: raw,
                    box_code: box_code_of(fi, raw),
                    versions: versions_of(fi, raw, numbers(raw)),
                },
            )
        },
    }
}

/// The state with a file for the unlock. It is told apart from a firmware file:
/// the path of the latter stays as it is.
pub open spec fn unlock_file_selected<'a>(s: StateValue<'a>, picked: Option<Picked>) -> StateValue<
    'a,
> {
    let unmarked = StateValue { lock: LockValue { unlock_file_error: None, ..s.lock }, ..s };
    match (picked, module_of(s.scan)) {
        (Some(p), Some(fi)) => match inspected(fi, p) {
            Err(e) => unlock_file_refused(s, e),
            Ok(fw) => match unlock_refusal(fi, fw.box_code) {
                Some(e) => unlock_file_refused(s, e),
                None => StateValue {
                    lock: LockValue { unlock_file: Some(p.file@), ..unmarked.lock },
                    job: JobValue { firmware: Some(fw), ..s.job },
                    ..s
                },
            },
        },
        _ => unmarked,
    }
}

/// The state without a file for the unlock.
pub open spec fn unlock_file_refused<'a>(s: StateValue<'a>, why: Seq<char>) -> StateValue<'a> {
    StateValue {
        lock: LockValue { unlock_file: None, unlock_file_error: Some(why), ..s.lock },
        ..s
    }
}

/// The state with another operation. An unlock file must not silently become the
/// file to write.
pub open spec fn operation_chosen<'a>(s: StateValue<'a>, op: Operation) -> StateValue<'a> {
    StateValue {
        job: JobValue {
            operation: Some(op),
            firmware: if op != Operation::Unlock && s.job.firmware_path is None {
                None
            } else {
                s.job.firmware
            },
            ..s.job
        },
        checks: ChecksValue { prepared: None, ..s.checks },
        ..s
    }
}

/// The state with a firmware file.
pub open spec fn firmware_selected<'a>(s: StateValue<'a>, picked: Option<Picked>) -> StateValue<
    'a,
> {
    match (picked, module_of(s.scan)) {
        (Some(p), Some(fi)) => {
            let found = inspected(fi, p);
            StateValue {
                nav: NavValue {
                    error: match found {
                        Ok(_) => None,
                        Err(e) => Some("Could not read this file: "@ + e),
                    },
                    ..s.nav
                },
                job: JobValue {
                    firmware_path: Some(p.file@),
                    firmware: match found {
                        Ok(fw) => Some(fw),
                        Err(_) => None,
                    },
                    ..s.job
                },
                checks: ChecksValue { prepared: None, ..s.checks },
                ..s
            }
        },
        _ => s,
    }
}

/// The state after the preflight.
pub open spec fn preflight_finished<'a>(s: StateValue<'a>, o: PreflightOutcome) -> StateValue<'a> {
    StateValue {
        nav: NavValue {
            busy: None,
            error: match o.prepared {
                Ok(_) => None,
                Err(e) => Some(e@),
            },
            ..s.nav
        },
        checks: ChecksValue {
            prepared: match o.prepared {
                Ok(blocks) => Some(ready(blocks@)),
                Err(_) => None,
            },
            prep_notes: strings(o.notes@),
            immo_before: match o.immo_before {
                Some(b) => Some(b@),
                None => None,
            },
            findings: match o.immo_report {
                Some(r) => Some(said(r.findings@)),
                None => None,
            },
            ..s.checks
        },
        flashing: FlashingValue {
            total_blocks: match o.prepared {
                Ok(blocks) => blocks@.len() as usize,
                Err(_) => s.flashing.total_blocks,
            },
            ..s.flashing
        },
        ..s
    }
}

/// The state that shows something of the flash.
pub open spec fn showing<'a>(s: StateValue<'a>, bar: Bar, text: Seq<char>) -> StateValue<'a> {
    StateValue { flashing: FlashingValue { bar, progress_step: text, ..s.flashing }, ..s }
}

/// The state that shows another text.
pub open spec fn saying<'a>(s: StateValue<'a>, text: Seq<char>) -> StateValue<'a> {
    StateValue { flashing: FlashingValue { progress_step: text, ..s.flashing }, ..s }
}

/// What is said when a block begins.
pub open spec fn writing_text(name: Seq<char>, index: int, total: int) -> Seq<char> {
    "Writing "@ + name + " ("@ + dec((index + 1) as nat) + "/"@ + dec(total as nat) + ")"@
}

/// What is said of the bytes that are sent.
pub open spec fn transfer_text(name: Seq<char>, sent: int, total: int, percent: Seq<char>) -> Seq<
    char,
> {
    "Transferring "@ + name + ": "@ + dec((sent / 1024) as nat) + "/"@ + dec((total / 1024) as nat)
        + " KB ("@ + percent + "%)"@
}

/// Whether the immobilizer can be compared after the flash.
pub open spec fn comparison<'a>(s: StateValue<'a>) -> Cmd {
    match (chosen_interface(s.adapter), module_of(s.scan), s.checks.immo_before) {
        (Some(i), Some(fi), Some(_)) => if fi.project_name@ == "SC8"@ {
            Cmd::CheckAgain(i)
        } else {
            Cmd::Nothing
        },
        _ => Cmd::Nothing,
    }
}

/// The state after the flash has ended.
pub open spec fn ended<'a>(s: StateValue<'a>, finished_ok: bool) -> StateValue<'a> {
    StateValue {
        nav: NavValue { step: Step::Done, ..s.nav },
        flashing: FlashingValue { op: None, finished_ok, ..s.flashing },
        ..s
    }
}

/// How the state follows the flash.
pub open spec fn progressed<'a>(s: StateValue<'a>, p: Progress, percent: Seq<char>) -> StateValue<
    'a,
> {
    match p {
        Progress::ClearingDtcs => showing(s, Bar::Percent(1), "Clearing fault codes…"@),
        Progress::DtcsCleared(_) => s,
        Progress::Connecting => showing(s, Bar::Percent(2), "Opening a diagnostic session…"@),
        Progress::ReadVin(vin) => logged(
            showing(s, Bar::Percent(3), "Connected — VIN "@ + vin),
            "VIN: "@ + vin,
        ),
        Progress::CheckingPreconditions => showing(
            s,
            Bar::Percent(4),
            "Checking programming preconditions…"@,
        ),
        Progress::ProgrammingSession => showing(s, Bar::Percent(5), "Entering the bootloader…"@),
        Progress::SwitchPatchUsed => logged(
            s,
            "Programming session refused; SwitchPatch fallback accepted"@,
        ),
        Progress::Authenticating => showing(s, Bar::Percent(7), "Authenticating…"@),
        Progress::WritingWorkshopCode => showing(
            s,
            Bar::Percent(10),
            "Writing the workshop code…"@,
        ),
        Progress::FlashingBlock(name, index, total) => {
            let place = Place { index, total };
            let text = writing_text(name, index as int, total as int);
            let shown = showing(s, Bar::Blocks(place), text);
            logged(
                StateValue {
                    flashing: FlashingValue {
                        base: Some(place),
                        total_blocks: total,
                        ..shown.flashing
                    },
                    ..shown
                },
                text,
            )
        },
        Progress::BlockErasing(name) => saying(s, "Erasing "@ + name + "…"@),
        Progress::BlockDownloading(name) => saying(s, "Starting transfer: "@ + name + "…"@),
        Progress::BlockTransferProgress(name, sent, total) => showing(
            s,
            Bar::Within { sent, of: total, blocks: s.flashing.total_blocks },
            transfer_text(name, sent as int, total as int, percent),
        ),
        Progress::BlockChecksum(name) => saying(s, "Verifying "@ + name + "…"@),
        Progress::BlockComplete(index) => StateValue {
            flashing: FlashingValue {
                bar: Bar::Blocks(
                    Place { index: (index + 1) as usize, total: s.flashing.total_blocks },
                ),
                ..s.flashing
            },
            ..s
        },
        Progress::Verifying => showing(
            s,
            Bar::Percent(92),
            "Verifying programming dependencies…"@,
        ),
        Progress::EcuReset => showing(s, Bar::Percent(96), "Restarting the control module…"@),
        Progress::Complete => logged(
            ended(showing(s, Bar::Percent(100), "Complete"@), true),
            "Flash complete"@,
        ),
        Progress::Error(e) => {
            let failed = ended(saying(s, "Failed: "@ + e), false);
            logged(
                StateValue { nav: NavValue { error: Some(e), ..failed.nav }, ..failed },
                "Flash failed: "@ + e,
            )
        },
    }
}

/// What is to be done about a progress event: only the end of a flash asks for
/// anything.
pub open spec fn progress_command<'a>(s: StateValue<'a>, p: Progress) -> Cmd {
    if p is Complete {
        comparison(s)
    } else {
        Cmd::Nothing
    }
}

/// How the state follows a message.
pub open spec fn updated<'a>(s: StateValue<'a>, m: Message<'a>) -> StateValue<'a> {
    match m {
        Message::Next => advanced(s).0,
        Message::Back => on_step(unerred(s), step_before(s)),
        Message::StartOver => initial(s.adapter),
        Message::InterfaceKindChanged(kind) => StateValue {
            adapter: AdapterValue { kind, ..s.adapter },
            ..s
        },
        Message::SocketCanNameChanged(t) => StateValue {
            adapter: AdapterValue { socketcan_name: t@, ..s.adapter },
            ..s
        },
        Message::J2534DllPathChanged(t) => StateValue {
            adapter: AdapterValue { j2534_dll_path: t@, ..s.adapter },
            ..s
        },
        Message::StminChanged(t) => StateValue {
            adapter: AdapterValue { stmin_input: t@, ..s.adapter },
            ..s
        },
        Message::ScanProgress(p) => scan_reported(s, p),
        Message::ScanFinished(results) => scanned(s, results@),
        Message::CandidateChosen(channel, candidate) => candidate_chosen(s, channel, candidate),
        Message::UnlockProbeFinished(r) => lock_read(s, r),
        Message::BrowseUnlockFile => s,
        Message::UnlockFileSelected(picked) => unlock_file_selected(s, picked),
        Message::OperationChosen(op) => operation_chosen(s, op),
        Message::BrowseFirmware => s,
        Message::FirmwareSelected(picked) => firmware_selected(s, picked),
        Message::PreflightFinished(o) => preflight_finished(s, o),
        Message::AcknowledgeRisk(v) => StateValue {
            checks: ChecksValue { risk_acknowledged: v, ..s.checks },
            ..s
        },
        Message::FlashProgress(p, percent) => progressed(s, p@, percent@),
        Message::PostFlashChecked(findings) => StateValue {
            flashing: FlashingValue { findings: strings(findings@), ..s.flashing },
            ..s
        },
    }
}

/// What is to be done about a message.
pub open spec fn command_for<'a>(s: StateValue<'a>, m: Message<'a>) -> Cmd {
    match m {
        Message::Next => advanced(s).1,
        Message::BrowseUnlockFile => Cmd::BrowseUnlockFile,
        Message::BrowseFirmware => Cmd::BrowseFirmware,
        Message::FlashProgress(p, _) => progress_command(s, p@),
        _ => Cmd::Nothing,
    }
}

/// Whether a progress event counts no further than a machine can.
pub open spec fn countable(p: Progress) -> bool {
    match p {
        Progress::FlashingBlock(_, index, _) => index < usize::MAX,
        Progress::BlockComplete(index) => index < usize::MAX,
        _ => true,
    }
}

/// Whether a message counts no further than a machine can.
pub open spec fn within_reach<'a>(op_id: u64, m: Message<'a>) -> bool {
    match m {
        Message::Next => op_id < u64::MAX,
        Message::ScanProgress(p) => match p {
            ScanProgress::ChannelStarted { index, .. } => index < usize::MAX,
            _ => true,
        },
        Message::FlashProgress(p, _) => countable(p@),
        _ => true,
    }
}

fn copy_file(f: &ChosenFile) -> (r: ChosenFile)
    ensures
        r@ == f@,
{
    ChosenFile {
        path: f.path.clone(),
        name: match &f.name {
            Some(s) => Some(s.clone()),
            None => None,
        },
    }
}

fn inspect(picked: Picked, fi: &FlashInfo) -> (r: Result<FirmwareInfo, String>)
    ensures
        match r {
            Ok(info) => inspected(*fi, picked) == Ok::<_, Seq<char>>(info@),
            Err(e) => inspected(*fi, picked) == Err::<Firmware, _>(e@),
        },
{
    match picked.loaded {
        Err(e) => Err(e),
        Ok(blocks) => inspect_firmware(picked.file, blocks, fi),
    }
}

impl<'a> State<'a> {
    /// Follow a scan.
    pub fn scan_report(&mut self, p: ScanProgress)
        requires
            p matches ScanProgress::ChannelStarted { index, .. } ==> index < usize::MAX,
        ensures
            final(self)@ == scan_reported(old(self)@, p),
    {
        match p {
            ScanProgress::ChannelStarted { channel, index, total } => {
                let mut s: String = "Probing ".to_owned();
                s.push_str(channel.label);
                s.push_str(" — address ");
                push_dec(&mut s, (index + 1) as u64);
                s.push_str(" of ");
                push_dec(&mut s, total as u64);
                s.push_str("…");
                self.nav.busy = Some(s);
            },
            ScanProgress::ChannelAnswered { channel } => {
                let mut s: String = channel.label.to_owned();
                s.push_str(" answered");
                self.log(s);
            },
            ScanProgress::ChannelSilent { channel } => {
                let mut s: String = channel.label.to_owned();
                s.push_str(" did not answer");
                self.log(s);
            },
        }
    }

    /// Take the results of a scan.
    pub fn scan_finished(&mut self, results: Vec<ChannelIdentification<'a>>)
        ensures
            final(self)@ == scanned(old(self)@, results@),
    {
        self.nav.busy = None;
        if results.len() == 0 {
            self.nav.error = Some(NOTHING_ANSWERED.to_owned());
        } else {
            if results.len() == 1 && results[0].candidates.len() == 1 {
                self.scan.chosen_channel = Some(0);
                self.scan.chosen_candidate = Some(0);
            }
            self.nav.error = None;
        }
        self.scan.results = results;
    }

    /// Take what reading the lock gave.
    pub fn unlock_probe_finished(&mut self, result: Result<UnlockProbe, String>)
        ensures
            final(self)@ == lock_read(old(self)@, result),
    {
        self.nav.busy = None;
        match result {
            Ok(p) => {
                let mut s: String = "Unlock check: ".to_owned();
                s.push_str(p.state.label());
                s.push_str(" (");
                match &p.hardware_version {
                    Some(v) => {
                        s.push_str(v.as_str());
                    },
                    None => {
                        s.push_str("—");
                    },
                }
                s.push_str(")");
                self.log(s);
                self.lock.unlock = Some(p);
            },
            Err(e) => {
                self.nav.error = Some(e);
            },
        }
    }

    /// Take a file for the unlock.
    pub fn select_unlock_file(&mut self, picked: Option<Picked>)
        ensures
            final(self)@ == unlock_file_selected(old(self)@, picked),
    {
        self.lock.unlock_file_error = None;
        let picked = match picked {
            Some(p) => p,
            None => {
                return;
            },
        };
        let fi = match self.scan.flash_info() {
            Some(fi) => fi,
            None => {
                return;
            },
        };
        let file = copy_file(&picked.file);
        match inspect(picked, fi) {
            Ok(info) => match validate_unlock_file(fi, &info) {
                Ok(_) => {
                    self.lock.unlock_file = Some(file);
                    self.job.firmware = Some(info);
                },
                Err(e) => {
                    self.lock.unlock_file = None;
                    self.lock.unlock_file_error = Some(e);
                },
            },
            Err(e) => {
                self.lock.unlock_file = None;
                self.lock.unlock_file_error = Some(e);
            },
        }
    }

    /// Take an operation.
    pub fn choose_operation(&mut self, op: Operation)
        ensures
            final(self)@ == operation_chosen(old(self)@, op),
    {
        self.job.operation = Some(op);
        self.checks.prepared = None;
        if op != Operation::Unlock && self.job.firmware_path.is_none() {
            self.job.firmware = None;
        }
    }

    /// Take a firmware file.
    pub fn select_firmware(&mut self, picked: Option<Picked>)
        ensures
            final(self)@ == firmware_selected(old(self)@, picked),
    {
        let picked = match picked {
            Some(p) => p,
            None => {
                return;
            },
        };
        let fi = match self.scan.flash_info() {
            Some(fi) => fi,
            None => {
                return;
            },
        };
        self.job.firmware_path = Some(copy_file(&picked.file));
        match inspect(picked, fi) {
            Ok(info) => {
                self.nav.error = None;
                self.job.firmware = Some(info);
            },
            Err(e) => {
                self.job.firmware = None;
                let mut s: String = "Could not read this file: ".to_owned();
                s.push_str(e.as_str());
                self.nav.error = Some(s);
            },
        }
        self.checks.prepared = None;
    }

    /// Take what the preflight gave.
    pub fn finish_preflight(&mut self, outcome: PreflightOutcome)
        ensures
            final(self)@ == preflight_finished(old(self)@, outcome),
    {
        self.nav.busy = None;
        self.checks.prep_notes = outcome.notes;
        self.checks.immo_before = outcome.immo_before;
        self.checks.immo_report = outcome.immo_report;
        match outcome.prepared {
            Ok(blocks) => {
                self.flashing.total_blocks = blocks.len();
                self.checks.prepared = Some(blocks);
                self.nav.error = None;
            },
            Err(e) => {
                self.checks.prepared = None;
                self.nav.error = Some(e);
            },
        }
    }

    fn show(&mut self, bar: Bar, text: String)
        ensures
            final(self)@ == showing(old(self)@, bar, text@),
    {
        self.flashing.bar = bar;
        self.flashing.progress_step = text;
    }

    fn say(&mut self, before: &str, name: &String)
        ensures
            final(self)@ == saying(old(self)@, before@ + name@ + "…"@),
    {
        let mut s: String = before.to_owned();
        s.push_str(name.as_str());
        s.push_str("…");
        self.flashing.progress_step = s;
    }

    fn begin_block(&mut self, name: &String, index: usize, total: usize)
        requires
            index < usize::MAX,
        ensures
            final(self)@ == progressed(
                old(self)@,
                Progress::FlashingBlock(name@, index, total),
                Seq::empty(),
            ),
    {
        let place = Place { index, total };
        self.flashing.total_blocks = total;
        self.flashing.base = Some(place);
        let mut s: String = "Writing ".to_owned();
        s.push_str(name.as_str());
        s.push_str(" (");
        push_dec(&mut s, (index + 1) as u64);
        s.push_str("/");
        push_dec(&mut s, total as u64);
        s.push_str(")");
        let line = s.clone();
        self.show(Bar::Blocks(place), s);
        self.log(line);
    }

    /// Whether the immobilizer state is read again and compared with the one
    /// before the flash.
    pub fn start_post_flash_check(&self) -> (r: Command)
        ensures
            r@ == comparison(self@),
    {
        match (self.adapter.interface(), self.scan.flash_info(), &self.checks.immo_before) {
            (Some(interface), Some(fi), Some(_)) => if ImmoSupport::for_module(fi).is_some() {
                Command::CheckAgain(interface)
            } else {
                Command::Nothing
            },
            _ => Command::Nothing,
        }
    }

    /// Follow the flash. `percent` is the share of the block that is sent, in
    /// whole percent, as text.
    pub fn handle_progress(&mut self, update: ProgressUpdate, percent: String) -> (r: Command)
        requires
            countable(update@),
        ensures
            final(self)@ == progressed(old(self)@, update@, percent@),
            r@ == progress_command(old(self)@, update@),
    {
        match update {
            ProgressUpdate::ClearingDtcs => {
                self.show(Bar::Percent(1), "Clearing fault codes…".to_owned());
            },
            ProgressUpdate::DtcsCleared(_) => {},
            ProgressUpdate::Connecting => {
                self.show(Bar::Percent(2), "Opening a diagnostic session…".to_owned());
            },
            ProgressUpdate::ReadVin { vin } => {
                let mut s: String = "Connected — VIN ".to_owned();
                s.push_str(vin.as_str());
                self.show(Bar::Percent(3), s);
                let mut line: String = "VIN: ".to_owned();
                line.push_str(vin.as_str());
                self.log(line);
            },
            ProgressUpdate::CheckingPreconditions => {
                self.show(Bar::Percent(4), "Checking programming preconditions…".to_owned());
            },
            ProgressUpdate::ProgrammingSession => {
                self.show(Bar::Percent(5), "Entering the bootloader…".to_owned());
            },
            ProgressUpdate::SwitchPatchUsed => {
                self.log("Programming session refused; SwitchPatch fallback accepted".to_owned());
            },
            ProgressUpdate::Authenticating => {
                self.show(Bar::Percent(7), "Authenticating…".to_owned());
            },
            ProgressUpdate::WritingWorkshopCode => {
                self.show(Bar::Percent(10), "Writing the workshop code…".to_owned());
            },
            ProgressUpdate::FlashingBlock { name, index, total } => {
                self.begin_block(&name, index, total);
            },
            ProgressUpdate::BlockErasing { name } => {
                self.say("Erasing ", &name);
            },
            ProgressUpdate::BlockDownloading { name } => {
                self.say("Starting transfer: ", &name);
            },
            ProgressUpdate::BlockTransferProgress { name, bytes_sent, bytes_total } => {
                let mut s: String = "Transferring ".to_owned();
                s.push_str(name.as_str());
                s.push_str(": ");
                push_dec(&mut s, (bytes_sent / 1024) as u64);
                s.push_str("/");
                push_dec(&mut s, (bytes_total / 1024) as u64);
                s.push_str(" KB (");
                s.push_str(percent.as_str());
                s.push_str("%)");
                let blocks: usize = self.flashing.total_blocks;
                self.show(Bar::Within { sent: bytes_sent, of: bytes_total, blocks }, s);
            },
            ProgressUpdate::BlockChecksum { name } => {
                self.say("Verifying ", &name);
            },
            ProgressUpdate::BlockComplete { index } => {
                self.flashing.bar = Bar::Blocks(
                    Place { index: index + 1, total: self.flashing.total_blocks },
                );
            },
            ProgressUpdate::Verifying => {
                self.show(Bar::Percent(92), "Verifying programming dependencies…".to_owned());
            },
            ProgressUpdate::EcuReset => {
                self.show(Bar::Percent(96), "Restarting the control module…".to_owned());
            },
            ProgressUpdate::Complete => {
                self.show(Bar::Percent(100), "Complete".to_owned());
                self.flashing.finished_ok = true;
                self.flashing.flash_op = None;
                self.nav.step = Step::Done;
                self.log("Flash complete".to_owned());
                return self.start_post_flash_check();
            },
            ProgressUpdate::Error(e) => {
                let mut s: String = "Failed: ".to_owned();
                s.push_str(e.as_str());
                self.flashing.progress_step = s;
                self.flashing.finished_ok = false;
                self.flashing.flash_op = None;
                self.nav.step = Step::Done;
                let mut line: String = "Flash failed: ".to_owned();
                line.push_str(e.as_str());
                self.nav.error = Some(e);
                self.log(line);
            },
        }
        Command::Nothing
    }

    /// Forget everything but what was typed about the adapter.
    pub fn start_over(&mut self)
        ensures
            final(self)@ == initial(old(self)@.adapter),
    {
        let adapter = Adapter {
            interface_kind: self.adapter.interface_kind,
            socketcan_name: self.adapter.socketcan_name.clone(),
            j2534_dll_path: self.adapter.j2534_dll_path.clone(),
            stmin_input: self.adapter.stmin_input.clone(),
        };
        *self = State::with_adapter(adapter);
    }

    /// React to a message.
    pub fn update(&mut self, message: Message<'a>) -> (r: Command)
        requires
            within_reach(old(self).flashing.op_id, message),
        ensures
            final(self)@ == updated(old(self)@, message),
            r@ == command_for(old(self)@, message),
    {
        match message {
            Message::Next => {
                return self.advance();
            },
            Message::Back => {
                let step = self.previous_step();
                self.nav.error = None;
                self.nav.step = step;
            },
            Message::StartOver => {
                self.start_over();
            },
            Message::InterfaceKindChanged(k) => {
                self.adapter.interface_kind = k;
            },
            Message::SocketCanNameChanged(s) => {
                self.adapter.socketcan_name = s;
            },
            Message::J2534DllPathChanged(s) => {
                self.adapter.j2534_dll_path = s;
            },
            Message::StminChanged(s) => {
                self.adapter.stmin_input = s;
            },
            Message::ScanProgress(p) => {
                self.scan_report(p);
            },
            Message::ScanFinished(results) => {
                self.scan_finished(results);
            },
            Message::CandidateChosen(channel, candidate) => {
                self.scan.chosen_channel = Some(channel);
                self.scan.chosen_candidate = Some(candidate);
                self.lock.unlock = None;
                self.job.operation = None;
                self.job.firmware = None;
                self.checks.prepared = None;
            },
            Message::UnlockProbeFinished(result) => {
                self.unlock_probe_finished(result);
            },
            Message::BrowseUnlockFile => {
                return Command::BrowseUnlockFile;
            },
            Message::UnlockFileSelected(picked) => {
                self.select_unlock_file(picked);
            },
            Message::OperationChosen(op) => {
                self.choose_operation(op);
            },
            Message::BrowseFirmware => {
                return Command::BrowseFirmware;
            },
            Message::FirmwareSelected(picked) => {
                self.select_firmware(picked);
            },
            Message::PreflightFinished(outcome) => {
                self.finish_preflight(outcome);
            },
            Message::AcknowledgeRisk(v) => {
                self.checks.risk_acknowledged = v;
            },
            Message::FlashProgress(p, percent) => {
                return self.handle_progress(p, percent);
            },
            Message::PostFlashChecked(findings) => {
                self.flashing.post_flash_findings = findings;
            },
        }
        Command::Nothing
    }
}

/// A flash starts only where the user confirms it: on the confirm screen, by going
/// on.
pub proof fn law_a_flash_starts_only_when_confirmed<'a>(s: StateValue<'a>, m: Message<'a>)
    requires
        s.flashing.op is None,
        updated(s, m).flashing.op is Some,
    ensures
        s.nav.step == Step::Confirm,
        m is Next,
{
}

/// The flash that starts writes exactly the blocks that were prepared, to the
/// module that was selected, through the interface that was chosen.
pub proof fn law_the_prepared_blocks_are_flashed<'a>(s: StateValue<'a>)
    requires
        s.nav.step == Step::Confirm,
        s.checks.prepared is Some,
        chosen_interface(s.adapter) is Some,
        module_of(s.scan) is Some,
    ensures
        ({
            let t = updated(s, Message::Next);
            &&& t.nav.step == Step::Flashing
            &&& t.flashing.op matches Some(op) && op.blocks == s.checks.prepared.unwrap()
                && op.flash_info == module_of(s.scan).unwrap() && op.interface == chosen_interface(
                s.adapter,
            ).unwrap() && !op.patch_cboot
        }),
{
}

/// There is no going back once bytes are on the wire.
pub proof fn law_no_going_back_from_a_flash<'a>(s: StateValue<'a>)
    requires
        s.nav.step == Step::Flashing || s.nav.step == Step::Done,
    ensures
        updated(s, Message::Back).nav.step == s.nav.step,
{
}

/// Going back undoes going on, up to the confirm screen. It does not where an
/// unlock was chosen without a file: its firmware screen is skipped on the way
/// back. The unlock screen is only shown for a module with an unlock.
pub proof fn law_back_undoes_next<'a>(s: StateValue<'a>)
    requires
        s.nav.step != Step::Confirm,
        s.nav.step != Step::Flashing,
        s.nav.step != Step::Done,
        !(s.nav.step == Step::Firmware && s.job.operation == Some(Operation::Unlock)),
        s.nav.step == Step::Unlock ==> unlock_shown(s.scan),
    ensures
        updated(updated(s, Message::Next), Message::Back).nav.step == s.nav.step,
{
}

/// Where no firmware file was chosen yet, choosing another operation than the unlock
/// forgets the file that was chosen for the unlock.
pub proof fn law_another_operation_forgets_the_unlock_file<'a>(s: StateValue<'a>, op: Operation)
    requires
        s.job.firmware_path is None,
        op != Operation::Unlock,
    ensures
        updated(s, Message::OperationChosen(op)).job.firmware is None,
{
}

/// Blocks that were prepared are forgotten as soon as the module, the operation or
/// the file changes.
pub proof fn law_choices_drop_what_was_prepared<'a>(
    s: StateValue<'a>,
    channel: usize,
    candidate: usize,
    op: Operation,
    picked: Picked,
)
    ensures
        updated(s, Message::CandidateChosen(channel, candidate)).checks.prepared is None,
        updated(s, Message::CandidateChosen(channel, candidate)).job.firmware is None,
        updated(s, Message::OperationChosen(op)).checks.prepared is None,
        module_of(s.scan) is Some ==> updated(
            s,
            Message::FirmwareSelected(Some(picked)),
        ).checks.prepared is None,
{
}

/// Only a file that carries the box code of the unlock patch is taken for an
/// unlock.
pub proof fn law_only_the_right_file_unlocks<'a>(s: StateValue<'a>, picked: Option<Picked>)
    requires
        s.lock.unlock_file is None,
        updated(s, Message::UnlockFileSelected(picked)).lock.unlock_file is Some,
    ensures
        module_of(s.scan) matches Some(fi) && (updated(
            s,
            Message::UnlockFileSelected(picked),
        ).job.firmware matches Some(fw) && unlock_refusal(fi, fw.box_code) is None),
{
}

/// The end of a flash, good or bad, leads to the last screen.
pub proof fn law_a_flash_ends_on_the_last_screen<'a>(
    s: StateValue<'a>,
    p: Progress,
    percent: Seq<char>,
)
    requires
        p is Complete || p is Error,
    ensures
        progressed(s, p, percent).nav.step == Step::Done,
        progressed(s, p, percent).flashing.op is None,
        progressed(s, p, percent).flashing.finished_ok == (p is Complete),
{
}

} // verus!
