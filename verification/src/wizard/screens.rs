//! What the wizard shows: every screen as a list of plain items, ready to be
//! drawn.

use vstd::prelude::*;

use super::firmware::{
    block_labels, numbers, part_number, part_of, required_unlock_box_code, Chosen, ChosenFile,
    Firmware, FirmwareInfo,
};
use super::state::{
    immo_applies_now, may_advance, module_of, risky, selection, version_shown, NavValue, ScanValue,
    State, StateValue,
};
use super::steps::{InterfaceKind, Operation, Step};
use crate::identify::{opt, Candidate, ChannelIdentification, Confidence};
use crate::immo::{said, Finding, ImmoFinding, Severity};
use crate::module::{number_of, FlashInfo, PreparedBlockData};
use crate::prepare::Prepared;
use crate::text::{
    chars_of, dec, has_prefix, join, joined, push_dec, starts_with, string_of, strings, trim,
    trimmed,
};
use crate::unlock::{Unlock, UnlockState};

verus! {

/// What choosing an item means.
#[derive(Debug, Clone, Copy, PartialEq, Eq, Structural)]
pub enum Pick {
    Interface(InterfaceKind),
    Candidate { channel: usize, candidate: usize },
    Operation(Operation),
}

/// A field the user types into.
#[derive(Debug, Clone, Copy, PartialEq, Eq, Structural)]
pub enum Field {
    DriverDll,
    SocketCan,
    Stmin,
}

/// A button that asks for a file.
#[derive(Debug, Clone, Copy, PartialEq, Eq, Structural)]
pub enum FileButton {
    Unlock,
    Firmware,
}

/// Something on a screen.
#[derive(Debug, Clone)]
pub enum Item {
    /// Text in the given size; in the usual one where it is 0.
    Text { size: u8, text: String },
    /// Small text, set in under what stands above it.
    Hint(String),
    /// A titled block of explanatory text.
    Callout { title: String, body: String },
    /// One of several things to choose from.
    Choice { label: String, pick: Pick, chosen: bool },
    /// A field, with its label, what it shows while it is empty, and what it
    /// holds.
    Input { field: Field, label: String, placeholder: String, value: String },
    /// A button that asks for a file, and the file that was chosen.
    File { button: FileButton, name: String },
    /// The box that acknowledges the risk.
    Acknowledge { label: String, on: bool },
    /// Some space.
    Gap,
    /// The progress bar.
    Progress,
    /// The log, in a box of the given height.
    Log { lines: Vec<String>, height: u16 },
}

/// An item as a value.
pub enum Piece {
    Text(u8, Seq<char>),
    Hint(Seq<char>),
    Callout(Seq<char>, Seq<char>),
    Choice(Seq<char>, Pick, bool),
    Input(Field, Seq<char>, Seq<char>, Seq<char>),
    File(FileButton, Seq<char>),
    Acknowledge(Seq<char>, bool),
    Gap,
    Progress,
    Log(Seq<Seq<char>>, u16),
}

impl View for Item {
    type V = Piece;

    open spec fn view(&self) -> Piece {
        match self {
            Item::Text { size, text } => Piece::Text(*size, text@),
            Item::Hint(text) => Piece::Hint(text@),
            Item::Callout { title, body } => Piece::Callout(title@, body@),
            Item::Choice { label, pick, chosen } => Piece::Choice(label@, *pick, *chosen),
            Item::Input { field, label, placeholder, value } => Piece::Input(
                *field,
                label@,
                placeholder@,
                value@,
            ),
            Item::File { button, name } => Piece::File(*button, name@),
            Item::Acknowledge { label, on } => Piece::Acknowledge(label@, *on),
            Item::Gap => Piece::Gap,
            Item::Progress => Piece::Progress,
            Item::Log { lines, height } => Piece::Log(strings(lines@), *height),
        }
    }
}

/// Items as values.
pub open spec fn pieces(v: Seq<Item>) -> Seq<Piece> {
    v.map_values(|i: Item| i@)
}

fn add_item(out: &mut Vec<Item>, item: Item)
    ensures
        pieces(final(out)@) == pieces(old(out)@).push(item@),
{
    let ghost before = pieces(out@);
    out.push(item);
    assert(pieces(out@) == before.push(item@));
}

fn add_text(out: &mut Vec<Item>, size: u8, text: &str)
    ensures
        pieces(final(out)@) == pieces(old(out)@).push(Piece::Text(size, text@)),
{
    add_item(out, Item::Text { size, text: text.to_owned() });
}

/// A text followed by another.
fn say(before: &str, what: &str) -> (s: String)
    ensures
        s@ == before@ + what@,
{
    let mut s: String = before.to_owned();
    s.push_str(what);
    s
}

fn add_line(out: &mut Vec<Item>, size: u8, before: &str, what: &str)
    ensures
        pieces(final(out)@) == pieces(old(out)@).push(Piece::Text(size, before@ + what@)),
{
    add_item(out, Item::Text { size, text: say(before, what) });
}

fn add_hint(out: &mut Vec<Item>, text: &str)
    ensures
        pieces(final(out)@) == pieces(old(out)@).push(Piece::Hint(text@)),
{
    add_item(out, Item::Hint(text.to_owned()));
}

fn add_callout(out: &mut Vec<Item>, title: &str, body: &str)
    ensures
        pieces(final(out)@) == pieces(old(out)@).push(Piece::Callout(title@, body@)),
{
    add_item(out, Item::Callout { title: title.to_owned(), body: body.to_owned() });
}

fn add_choice(out: &mut Vec<Item>, label: &str, pick: Pick, chosen: bool)
    ensures
        pieces(final(out)@) == pieces(old(out)@).push(Piece::Choice(label@, pick, chosen)),
{
    add_item(out, Item::Choice { label: label.to_owned(), pick, chosen });
}

fn add_input(out: &mut Vec<Item>, field: Field, label: &str, placeholder: &str, value: &String)
    ensures
        pieces(final(out)@) == pieces(old(out)@).push(
            Piece::Input(field, label@, placeholder@, value@),
        ),
{
    add_item(
        out,
        Item::Input {
            field,
            label: label.to_owned(),
            placeholder: placeholder.to_owned(),
            value: value.clone(),
        },
    );
}

fn start_items() -> (v: Vec<Item>)
    ensures
        pieces(v@) == Seq::<Piece>::empty(),
{
    let v: Vec<Item> = Vec::new();
    assert(pieces(v@) == Seq::<Piece>::empty());
    v
}

/// The buttons at the foot of a screen.
#[derive(Debug, Clone, Copy)]
pub struct NavRow {
    pub back_allowed: bool,
    /// Whether the flash is over, so that only a new start is offered.
    pub start_over: bool,
    pub next_label: &'static str,
    pub next_allowed: bool,
}

/// What the button to go on says.
pub open spec fn next_label(step: Step) -> Seq<char> {
    match step {
        Step::Confirm => "Write to the ECU"@,
        Step::Preflight => "Continue"@,
        _ => "Next"@,
    }
}

/// Whether there is a way back.
pub open spec fn may_go_back(n: NavValue) -> bool {
    n.busy is None && n.step != Step::Interface && n.step != Step::Flashing && n.step != Step::Done
}

/// The buttons at the foot of a screen.
pub fn nav_row<'a>(state: &State<'a>) -> (r: NavRow)
    ensures
        r.back_allowed == may_go_back(state@.nav),
        r.start_over == (state@.nav.step == Step::Done),
        r.next_label@ == next_label(state@.nav.step),
        r.next_allowed == may_advance(state@),
{
    let step = state.nav.step;
    let back_allowed = state.nav.busy.is_none() && step != Step::Interface && step
        != Step::Flashing && step != Step::Done;
    let next_label: &'static str = match step {
        Step::Confirm => "Write to the ECU",
        Step::Preflight => "Continue",
        _ => "Next",
    };
    NavRow {
        back_allowed,
        start_over: step == Step::Done,
        next_label,
        next_allowed: state.can_advance(),
    }
}

/// What the radio buttons for the adapters say.
pub open spec fn interface_choices(kind: InterfaceKind) -> Seq<Piece> {
    seq![
        Piece::Choice(
            "J2534 (hardware ISO-TP)"@,
            Pick::Interface(InterfaceKind::J2534IsoTp),
            kind == InterfaceKind::J2534IsoTp,
        ),
        Piece::Choice(
            "J2534 (raw CAN)"@,
            Pick::Interface(InterfaceKind::J2534),
            kind == InterfaceKind::J2534,
        ),
        Piece::Choice("Panda"@, Pick::Interface(InterfaceKind::Panda), kind == InterfaceKind::Panda),
        Piece::Choice(
            "SocketCAN"@,
            Pick::Interface(InterfaceKind::SocketCan),
            kind == InterfaceKind::SocketCan,
        ),
    ]
}

/// The screen where the adapter is chosen.
pub open spec fn interface_screen<'a>(s: StateValue<'a>) -> Seq<Piece> {
    let a = s.adapter;
    let choices = interface_choices(a.kind);
    let with_field = match a.kind {
        InterfaceKind::Panda => choices,
        InterfaceKind::SocketCan => choices.push(
            Piece::Input(Field::SocketCan, "Interface:"@, "can0"@, a.socketcan_name),
        ),
        _ => choices.push(
            Piece::Input(
                Field::DriverDll,
                "Driver DLL:"@,
                "(detect automatically)"@,
                a.j2534_dll_path,
            ),
        ),
    };
    with_field.push(
        Piece::Input(Field::Stmin, "STmin (µs):"@, "module default"@, a.stmin_input),
    ).push(Piece::Text(12, "Leave blank unless transfers are unreliable."@))
}

/// The screen where the adapter is chosen.
pub fn view_interface<'a>(state: &State<'a>) -> (v: Vec<Item>)
    ensures
        pieces(v@) == interface_screen(state@),
{
    let kind = state.adapter.interface_kind;
    let mut out = start_items();
    add_choice(
        &mut out,
        "J2534 (hardware ISO-TP)",
        Pick::Interface(InterfaceKind::J2534IsoTp),
        kind == InterfaceKind::J2534IsoTp,
    );
    add_choice(
        &mut out,
        "J2534 (raw CAN)",
        Pick::Interface(InterfaceKind::J2534),
        kind == InterfaceKind::J2534,
    );
    add_choice(
        &mut out,
        "Panda",
        Pick::Interface(InterfaceKind::Panda),
        kind == InterfaceKind::Panda,
    );
    add_choice(
        &mut out,
        "SocketCAN",
        Pick::Interface(InterfaceKind::SocketCan),
        kind == InterfaceKind::SocketCan,
    );
    assert(pieces(out@) == interface_choices(kind));
    match kind {
        InterfaceKind::Panda => {},
        InterfaceKind::SocketCan => {
            add_input(
                &mut out,
                Field::SocketCan,
                "Interface:",
                "can0",
                &state.adapter.socketcan_name,
            );
        },
        _ => {
            add_input(
                &mut out,
                Field::DriverDll,
                "Driver DLL:",
                "(detect automatically)",
                &state.adapter.j2534_dll_path,
            );
        },
    }
    add_input(&mut out, Field::Stmin, "STmin (µs):", "module default", &state.adapter.stmin_input);
    add_text(&mut out, 12, "Leave blank unless transfers are unreliable.");
    out
}

/// What is said while the bus is scanned.
pub const SCAN_TAKES_A_MOMENT: &'static str =
    "Each address gets a moment to answer, so this takes a few seconds. \
    Addresses with no module fitted stay silent — that is expected.";

/// What is said where a tie has to be broken.
pub const CHOOSE_ONE: &'static str =
    "These control modules share the same CAN addresses and report the same \
    records, so the wizard cannot tell them apart. Choose the one fitted to \
    this car — flashing the wrong one will not work.";

/// The name of a confidence.
pub open spec fn confidence_text(c: Confidence) -> Seq<char> {
    match c {
        Confidence::Ambiguous => "Ambiguous"@,
        Confidence::Possible => "Possible"@,
        Confidence::Likely => "Likely"@,
        Confidence::Confirmed => "Confirmed"@,
    }
}

/// The name of a confidence.
pub fn confidence_name(c: Confidence) -> (s: &'static str)
    ensures
        s@ == confidence_text(c),
{
    match c {
        Confidence::Ambiguous => "Ambiguous",
        Confidence::Possible => "Possible",
        Confidence::Likely => "Likely",
        Confidence::Confirmed => "Confirmed",
    }
}

/// Whether the user has to break a tie.
pub open spec fn ambiguous<'a>(ident: ChannelIdentification<'a>) -> bool {
    ident.candidates@.len() > 1 && forall|i: int|
        0 <= i < ident.candidates@.len() ==> (#[trigger] ident.candidates@[i]).confidence
            == Confidence::Ambiguous
}

/// The first `n` candidates of a channel.
pub open spec fn candidate_pieces<'a>(s: ScanValue<'a>, channel: int, n: nat) -> Seq<Piece>
    decreases n,
{
    if n == 0 {
        Seq::empty()
    } else {
        let c = s.results[channel].candidates@[n - 1];
        candidate_pieces(s, channel, (n - 1) as nat).push(
            Piece::Choice(
                c.module_name@ + " — "@ + confidence_text(c.confidence),
                Pick::Candidate { channel: channel as usize, candidate: (n - 1) as usize },
                s.chosen_channel == Some(channel as usize) && s.chosen_candidate == Some(
                    (n - 1) as usize,
                ),
            ),
        ).push(Piece::Hint(c.reason@))
    }
}

/// What is shown of a channel.
pub open spec fn channel_pieces<'a>(s: ScanValue<'a>, channel: int) -> Seq<Piece> {
    let ident = s.results[channel];
    let head = seq![Piece::Text(16, ident.channel.label@)];
    let warned = if ambiguous(ident) {
        head.push(Piece::Callout("Two modules are possible"@, CHOOSE_ONE@))
    } else {
        head
    };
    warned + candidate_pieces(s, channel, ident.candidates@.len())
}

/// What is shown of the first `n` channels.
pub open spec fn channels_pieces<'a>(s: ScanValue<'a>, n: nat) -> Seq<Piece>
    decreases n,
{
    if n == 0 {
        Seq::empty()
    } else {
        channels_pieces(s, (n - 1) as nat) + channel_pieces(s, n - 1)
    }
}

/// The screen where the module is identified.
pub open spec fn identify_screen<'a>(s: StateValue<'a>) -> Seq<Piece> {
    if s.nav.busy is Some {
        seq![Piece::Text(13, SCAN_TAKES_A_MOMENT@)]
    } else if s.scan.results.len() == 0 {
        seq![Piece::Text(0, "Nothing answered. Go back and check the adapter."@)]
    } else {
        channels_pieces(s.scan, s.scan.results.len())
    }
}

fn add_candidates<'a>(state: &State<'a>, channel: usize, out: &mut Vec<Item>)
    requires
        channel < state.scan.results@.len(),
    ensures
        pieces(final(out)@) == pieces(old(out)@) + candidate_pieces(
            state.scan@,
            channel as int,
            state.scan.results@[channel as int].candidates@.len(),
        ),
{
    let scan = &state.scan;
    let ident = &scan.results[channel];
    let ghost start = pieces(out@);
    let mut i: usize = 0;
    assert(start + Seq::<Piece>::empty() == start);
    while i < ident.candidates.len()
        invariant
            i <= ident.candidates@.len(),
            channel < scan.results@.len(),
            *ident == scan.results@[channel as int],
            pieces(out@) == start + candidate_pieces(scan@, channel as int, i as nat),
        decreases ident.candidates@.len() - i,
    {
        let c = &ident.candidates[i];
        let mut label: String = c.module_name.to_owned();
        label.push_str(" — ");
        label.push_str(confidence_name(c.confidence));
        let chosen_channel = match scan.chosen_channel {
            Some(n) => n == channel,
            None => false,
        };
        let chosen_candidate = match scan.chosen_candidate {
            Some(n) => n == i,
            None => false,
        };
        let chosen = chosen_channel && chosen_candidate;
        add_item(
            out,
            Item::Choice { label, pick: Pick::Candidate { channel, candidate: i }, chosen },
        );
        add_hint(out, c.reason.as_str());
        assert(pieces(out@) == start + candidate_pieces(scan@, channel as int, (i + 1) as nat));
        i = i + 1;
    }
}

/// The screen where the module is identified.
pub fn view_identify<'a>(state: &State<'a>) -> (v: Vec<Item>)
    ensures
        pieces(v@) == identify_screen(state@),
{
    let mut out = start_items();
    if state.nav.busy.is_some() {
        add_text(&mut out, 13, SCAN_TAKES_A_MOMENT);
        assert(pieces(out@) == identify_screen(state@));
        return out;
    }
    if state.scan.results.len() == 0 {
        add_text(&mut out, 0, "Nothing answered. Go back and check the adapter.");
        assert(pieces(out@) == identify_screen(state@));
        return out;
    }
    let mut i: usize = 0;
    while i < state.scan.results.len()
        invariant
            i <= state.scan.results@.len(),
            pieces(out@) == channels_pieces(state.scan@, i as nat),
        decreases state.scan.results@.len() - i,
    {
        let ghost before = pieces(out@);
        let ident = &state.scan.results[i];
        add_text(&mut out, 16, ident.channel.label);
        if ident.is_ambiguous() {
            add_callout(&mut out, "Two modules are possible", CHOOSE_ONE);
        }
        add_candidates(state, i, &mut out);
        assert(pieces(out@) == before + channel_pieces(state.scan@, i as int));
        i = i + 1;
    }
    out
}

/// What is said of an unlocked ECU.
pub const UNLOCKED_BODY: &'static str =
    "The bootloader reports an X-prefixed hardware version, which means the \
    sample-mode patch is present. It will accept modified software.";

/// What is said of a locked ECU.
pub const LOCKED_BODY: &'static str =
    "The bootloader reports a stock hardware version, so the ECU still checks \
    signatures and will reject modified software. Unlock it first.";

/// What is said where the lock could not be read.
pub const UNREAD_BODY: &'static str =
    "You can continue, but modified software will be rejected if the ECU \
    turns out to be locked. If you are not sure, unlocking an ECU that is \
    already unlocked is harmless.";

/// The name of a file, or what stands for none.
pub open spec fn file_shown(f: Option<Chosen>, otherwise: Seq<char>) -> Seq<char> {
    match f {
        Some(c) => match c.name {
            Some(name) => name,
            None => otherwise,
        },
        None => otherwise,
    }
}

fn show_file(f: &Option<ChosenFile>, otherwise: &str) -> (s: String)
    ensures
        s@ == file_shown(super::state::file_of(*f), otherwise@),
{
    match f {
        Some(c) => match &c.name {
            Some(name) => name.clone(),
            None => otherwise.to_owned(),
        },
        None => otherwise.to_owned(),
    }
}

/// What is said of the one file that fits.
pub open spec fn only_file_text(required: Seq<char>) -> Seq<char> {
    "Only one file works for this ECU: the stock firmware for box code "@ + part_of(required)
        + " (typically named FL_"@ + required
        + ".frf). The unlock patch is compiled against those exact software addresses — any other version, even a newer one for the same car, will not produce a working ECU."@
}

/// Where the file for an unlock is chosen.
pub open spec fn unlock_picker<'a>(s: StateValue<'a>) -> Seq<Piece> {
    match module_of(s.scan) {
        Some(fi) => match fi.patch_info {
            Some(p) => {
                let head = seq![
                    Piece::Text(16, "To unlock, supply the stock firmware file"@),
                    Piece::Text(13, only_file_text(p.patch_box_code@)),
                    Piece::File(
                        FileButton::Unlock,
                        file_shown(s.lock.unlock_file, "(none chosen)"@),
                    ),
                ];
                match s.lock.unlock_file_error {
                    Some(e) => head.push(Piece::Callout("This file cannot be used"@, e)),
                    None => if s.lock.unlock_file is Some {
                        head.push(
                            Piece::Text(
                                13,
                                "File accepted — choose Unlock on the next screen."@,
                            ),
                        )
                    } else {
                        head
                    },
                }
            },
            None => seq![Piece::Text(0, ""@)],
        },
        None => seq![Piece::Text(0, ""@)],
    }
}

/// Where the file for an unlock is chosen.
pub fn unlock_file_picker<'a>(state: &State<'a>) -> (v: Vec<Item>)
    ensures
        pieces(v@) == unlock_picker(state@),
{
    let mut out = start_items();
    let required = match state.scan.flash_info() {
        Some(fi) => required_unlock_box_code(fi),
        None => None,
    };
    match required {
        None => {
            add_text(&mut out, 0, "");
            assert(pieces(out@) == unlock_picker(state@));
        },
        Some(required) => {
            let part = part_number(required);
            add_text(&mut out, 16, "To unlock, supply the stock firmware file");
            let mut s: String =
                "Only one file works for this ECU: the stock firmware for box code ".to_owned();
            s.push_str(part.as_str());
            s.push_str(" (typically named FL_");
            s.push_str(required);
            s.push_str(
                ".frf). The unlock patch is compiled against those exact software addresses — any other version, even a newer one for the same car, will not produce a working ECU.",
            );
            add_item(&mut out, Item::Text { size: 13, text: s });
            let name = show_file(&state.lock.unlock_file, "(none chosen)");
            add_item(&mut out, Item::File { button: FileButton::Unlock, name });
            let ghost head = pieces(out@);
            match &state.lock.unlock_file_error {
                Some(e) => {
                    add_callout(&mut out, "This file cannot be used", e.as_str());
                },
                None => {
                    if state.lock.unlock_file.is_some() {
                        add_text(&mut out, 13, "File accepted — choose Unlock on the next screen.");
                    }
                },
            }
            assert(pieces(out@) == unlock_picker(state@));
        },
    }
    out
}

/// The screen that tells whether the ECU is locked.
pub open spec fn unlock_screen<'a>(s: StateValue<'a>) -> Seq<Piece> {
    if s.nav.busy is Some {
        seq![Piece::Text(0, "Reading the bootloader…"@)]
    } else {
        match s.lock.unlock {
            None => seq![Piece::Text(0, "The unlock state has not been read."@)],
            Some(p) => {
                let head = seq![
                    Piece::Text(15, "Bootloader hardware version: "@ + version_shown(p)),
                ];
                match p.state {
                    Unlock::Unlocked => head.push(
                        Piece::Callout("This ECU is unlocked"@, UNLOCKED_BODY@),
                    ),
                    Unlock::Locked => head.push(
                        Piece::Callout("This ECU is locked"@, LOCKED_BODY@),
                    ) + unlock_picker(s),
                    Unlock::Unknown(why) => head.push(
                        Piece::Callout("The unlock state could not be read"@, why),
                    ).push(Piece::Text(13, UNREAD_BODY@)) + unlock_picker(s),
                }
            },
        }
    }
}

fn add_all(out: &mut Vec<Item>, mut more: Vec<Item>)
    ensures
        pieces(final(out)@) == pieces(old(out)@) + pieces(more@),
{
    let ghost a = out@;
    let ghost b = more@;
    out.append(&mut more);
    assert(pieces(out@) == pieces(a) + pieces(b));
}

/// The screen that tells whether the ECU is locked.
///
/// Not being able to read the lock does not take the unlock away.
pub fn view_unlock<'a>(state: &State<'a>) -> (v: Vec<Item>)
    ensures
        pieces(v@) == unlock_screen(state@),
{
    let mut out = start_items();
    if state.nav.busy.is_some() {
        add_text(&mut out, 0, "Reading the bootloader…");
        assert(pieces(out@) == unlock_screen(state@));
        return out;
    }
    match &state.lock.unlock {
        None => {
            add_text(&mut out, 0, "The unlock state has not been read.");
            assert(pieces(out@) == unlock_screen(state@));
        },
        Some(probe) => {
            match &probe.hardware_version {
                Some(v) => {
                    add_line(&mut out, 15, "Bootloader hardware version: ", v.as_str());
                },
                None => {
                    add_line(&mut out, 15, "Bootloader hardware version: ", "—");
                },
            }
            assert(pieces(out@) == seq![
                Piece::Text(15, "Bootloader hardware version: "@ + version_shown(probe@)),
            ]);
            match &probe.state {
                UnlockState::Unlocked => {
                    add_callout(&mut out, "This ECU is unlocked", UNLOCKED_BODY);
                },
                UnlockState::Locked => {
                    add_callout(&mut out, "This ECU is locked", LOCKED_BODY);
                    add_all(&mut out, unlock_file_picker(state));
                },
                UnlockState::Unknown(why) => {
                    add_callout(&mut out, "The unlock state could not be read", why.as_str());
                    add_text(&mut out, 13, UNREAD_BODY);
                    add_all(&mut out, unlock_file_picker(state));
                },
            }
        },
    }
    out
}

/// What is said of an unlock.
pub const UNLOCK_HINT: &'static str =
    "Writes the unlock patch. Do this before flashing modified software.";

/// What is said of a calibration flash.
pub const CALIBRATION_HINT: &'static str =
    "Writes only the tune; the application software is untouched. Note this is \
    not immobilizer-safe: the allowed power classes live in the calibration \
    area, so a calibration flash can trip the anti-tuning interlock too.";

/// What is said of a full flash.
pub const FULL_HINT: &'static str =
    "Rewrites the bootloader, application software and tune, and patches the \
    bootloader into sample mode so the ECU keeps accepting modified software. \
    Use this to change software version or recover an ECU.";

/// What is said of a relock.
pub const RELOCK_HINT: &'static str =
    "The same full flash, but the bootloader is written exactly as the file \
    has it — no sample-mode patch. The ECU goes back to rejecting modified \
    software, so use a complete, unmodified factory file.";

/// What is said where the ECU is known to be locked.
pub const LOCKED_WARNING: &'static str =
    "Modified software will be rejected until the ECU is unlocked. Stock files will \
    still flash normally.";

/// An operation to choose, and what is said of it.
pub open spec fn operation_pieces(
    label: Seq<char>,
    op: Operation,
    chosen: Option<Operation>,
    hint: Seq<char>,
) -> Seq<Piece> {
    seq![Piece::Choice(label, Pick::Operation(op), chosen == Some(op)), Piece::Hint(hint)]
}

/// Nothing, unless it applies.
pub open spec fn only_if(applies: bool, v: Seq<Piece>) -> Seq<Piece> {
    if applies {
        v
    } else {
        Seq::empty()
    }
}

/// Whether the ECU is not known to be unlocked.
pub open spec fn maybe_locked<'a>(s: StateValue<'a>) -> bool {
    s.lock.unlock matches Some(p) && !(p.state is Unlocked)
}

/// Whether the ECU is known to be locked.
pub open spec fn surely_locked<'a>(s: StateValue<'a>) -> bool {
    s.lock.unlock matches Some(p) && p.state is Locked
}

/// Whether the module has a bootloader that can be patched.
pub open spec fn relockable<'a>(s: StateValue<'a>) -> bool {
    module_of(s.scan) matches Some(fi) && number_of(fi.block_names@, "CBOOT"@) is Some
}

/// The screen where the operation is chosen.
pub open spec fn operation_screen<'a>(s: StateValue<'a>) -> Seq<Piece> {
    let op = s.job.operation;
    only_if(
        maybe_locked(s) && s.lock.unlock_file is Some,
        operation_pieces("Unlock this ECU"@, Operation::Unlock, op, UNLOCK_HINT@),
    ) + operation_pieces("Calibration flash"@, Operation::CalibrationFlash, op, CALIBRATION_HINT@)
        + operation_pieces("Full flash"@, Operation::FullFlash, op, FULL_HINT@) + only_if(
        relockable(s),
        operation_pieces("Relock"@, Operation::Relock, op, RELOCK_HINT@),
    ) + only_if(surely_locked(s), seq![Piece::Callout("This ECU is locked"@, LOCKED_WARNING@)])
}

fn add_operation(
    out: &mut Vec<Item>,
    label: &str,
    op: Operation,
    chosen: Option<Operation>,
    hint: &str,
)
    ensures
        pieces(final(out)@) == pieces(old(out)@) + operation_pieces(label@, op, chosen, hint@),
{
    let is_chosen = match chosen {
        Some(c) => c == op,
        None => false,
    };
    add_choice(out, label, Pick::Operation(op), is_chosen);
    add_hint(out, hint);
    assert(pieces(out@) == pieces(old(out)@) + operation_pieces(label@, op, chosen, hint@));
}

/// The screen where the operation is chosen.
///
/// The unlock is offered whenever the ECU is not known to be unlocked. Relocking
/// only means anything on a module whose bootloader would otherwise be patched.
pub fn view_operation<'a>(state: &State<'a>) -> (v: Vec<Item>)
    ensures
        pieces(v@) == operation_screen(state@),
{
    let chosen = state.job.operation;
    let (locked, definitely_locked) = match &state.lock.unlock {
        Some(p) => match p.state {
            UnlockState::Unlocked => (false, false),
            UnlockState::Locked => (true, true),
            UnlockState::Unknown(_) => (true, false),
        },
        None => (false, false),
    };
    let has_cboot = match state.scan.flash_info() {
        Some(fi) => fi.block_to_number("CBOOT").is_some(),
        None => false,
    };
    let ghost s = state@;
    let mut out = start_items();
    if locked && state.lock.unlock_file.is_some() {
        add_operation(&mut out, "Unlock this ECU", Operation::Unlock, chosen, UNLOCK_HINT);
    }
    assert(pieces(out@) == only_if(
        maybe_locked(s) && s.lock.unlock_file is Some,
        operation_pieces("Unlock this ECU"@, Operation::Unlock, chosen, UNLOCK_HINT@),
    ));
    add_operation(
        &mut out,
        "Calibration flash",
        Operation::CalibrationFlash,
        chosen,
        CALIBRATION_HINT,
    );
    add_operation(&mut out, "Full flash", Operation::FullFlash, chosen, FULL_HINT);
    let ghost upto = pieces(out@);
    if has_cboot {
        add_operation(&mut out, "Relock", Operation::Relock, chosen, RELOCK_HINT);
    }
    assert(pieces(out@) == upto + only_if(
        relockable(s),
        operation_pieces("Relock"@, Operation::Relock, chosen, RELOCK_HINT@),
    ));
    let ghost upto = pieces(out@);
    if definitely_locked {
        add_callout(&mut out, "This ECU is locked", LOCKED_WARNING);
    }
    assert(pieces(out@) == upto + only_if(
        surely_locked(s),
        seq![Piece::Callout("This ECU is locked"@, LOCKED_WARNING@)],
    ));
    out
}

/// The software versions of a file, one line each.
pub open spec fn version_lines(versions: Seq<(Seq<char>, Seq<char>)>) -> Seq<Piece> {
    versions.map_values(
        |p: (Seq<char>, Seq<char>)| Piece::Text(13, p.0 + " version: "@ + p.1),
    )
}

/// The part number the ECU reports, where it contradicts the box code of a file.
pub open spec fn contradiction<'a>(box_code: Option<Seq<char>>, c: Option<Candidate<'a>>) -> Option<
    Seq<char>,
> {
    match (box_code, c) {
        (Some(bc), Some(cand)) => match opt(cand.strings.spare_part_number) {
            Some(part) => {
                let t = trimmed(part, false);
                if t.len() > 0 && !starts_with(t, bc) {
                    Some(t)
                } else {
                    None
                }
            },
            None => None,
        },
        _ => None,
    }
}

/// What is said of a file for another ECU.
pub open spec fn other_ecu_text(part: Seq<char>, box_code: Seq<char>) -> Seq<char> {
    "The control module reports part number "@ + part + ", but this file is for box code "@
        + box_code + ". Check you have the right file before continuing."@
}

/// What a file contains.
pub open spec fn contents<'a>(fi: FlashInfo, fw: Firmware, c: Option<Candidate<'a>>) -> Seq<Piece> {
    let head = seq![Piece::Text(16, "What this file contains"@)];
    let coded = match fw.box_code {
        Some(bc) => head.push(Piece::Text(13, "Box code: "@ + bc)),
        None => head,
    };
    let listed = coded.push(
        Piece::Text(13, "Blocks: "@ + joined(block_labels(fi, numbers(fw.blocks)), ", "@)),
    ) + version_lines(fw.versions);
    match contradiction(fw.box_code, c) {
        Some(part) => listed.push(
            Piece::Callout(
                "This file may be for a different ECU"@,
                other_ecu_text(part, fw.box_code.unwrap()),
            ),
        ),
        None => listed,
    }
}

/// The screen where the firmware is chosen.
pub open spec fn firmware_screen<'a>(s: StateValue<'a>) -> Seq<Piece> {
    let head = seq![
        Piece::File(FileButton::Firmware, file_shown(s.job.firmware_path, "(none chosen)"@)),
    ];
    match (s.job.firmware, module_of(s.scan)) {
        (Some(fw), Some(fi)) => head + contents(fi, fw, selection(s.scan)),
        _ => head,
    }
}

fn reported_part<'a>(box_code: &Option<String>, c: Option<&Candidate<'a>>) -> (r: Option<String>)
    ensures
        opt(r) == contradiction(
            opt(*box_code),
            match c {
                Some(c) => Some(*c),
                None => None,
            },
        ),
{
    match (box_code, c) {
        (Some(bc), Some(cand)) => match &cand.strings.spare_part_number {
            Some(part) => {
                let t = trim(&chars_of(part.as_str()), false);
                if t.len() > 0 && !has_prefix(&t, bc.as_str()) {
                    Some(string_of(&t))
                } else {
                    None
                }
            },
            None => None,
        },
        _ => None,
    }
}

fn add_contents<'a>(
    out: &mut Vec<Item>,
    info: &FirmwareInfo,
    fi: &FlashInfo,
    c: Option<&Candidate<'a>>,
)
    ensures
        pieces(final(out)@) == pieces(old(out)@) + contents(
            *fi,
            info@,
            match c {
                Some(c) => Some(*c),
                None => None,
            },
        ),
{
    let ghost start = pieces(out@);
    add_text(out, 16, "What this file contains");
    if let Some(bc) = &info.box_code {
        add_line(out, 13, "Box code: ", bc.as_str());
    }
    let names = info.block_names(fi);
    let list = join(&names, ", ");
    add_line(out, 13, "Blocks: ", list.as_str());
    let ghost before = pieces(out@);
    let ghost all = version_lines(info@.versions);
    let mut i: usize = 0;
    assert(all.take(0) == Seq::<Piece>::empty());
    assert(before + Seq::<Piece>::empty() == before);
    while i < info.versions.len()
        invariant
            i <= info.versions@.len(),
            all == version_lines(info@.versions),
            pieces(out@) == before + all.take(i as int),
        decreases info.versions@.len() - i,
    {
        let mut s: String = info.versions[i].0.clone();
        s.push_str(" version: ");
        s.push_str(info.versions[i].1.as_str());
        assert(info@.versions[i as int] == (info.versions@[i as int].0@, info.versions@[i as int].1@));
        assert(all[i as int] == Piece::Text(13, s@));
        add_item(out, Item::Text { size: 13, text: s });
        assert(all.take(i + 1) == all.take(i as int).push(all[i as int]));
        i = i + 1;
    }
    assert(all.take(i as int) == all);
    match reported_part(&info.box_code, c) {
        Some(part) => {
            if let Some(bc) = &info.box_code {
                let mut s: String = "The control module reports part number ".to_owned();
                s.push_str(part.as_str());
                s.push_str(", but this file is for box code ");
                s.push_str(bc.as_str());
                s.push_str(". Check you have the right file before continuing.");
                add_callout(out, "This file may be for a different ECU", s.as_str());
            }
        },
        None => {},
    }
    assert(pieces(out@) == start + contents(
        *fi,
        info@,
        match c {
            Some(c) => Some(*c),
            None => None,
        },
    ));
}

/// The screen where the firmware is chosen.
pub fn view_firmware<'a>(state: &State<'a>) -> (v: Vec<Item>)
    ensures
        pieces(v@) == firmware_screen(state@),
{
    let mut out = start_items();
    let name = show_file(&state.job.firmware_path, "(none chosen)");
    add_item(&mut out, Item::File { button: FileButton::Firmware, name });
    assert(pieces(out@) == seq![
        Piece::File(
            FileButton::Firmware,
            file_shown(state@.job.firmware_path, "(none chosen)"@),
        ),
    ]);
    match (&state.job.firmware, state.scan.flash_info()) {
        (Some(info), Some(fi)) => {
            add_contents(&mut out, info, fi, state.scan.selected());
        },
        _ => {},
    }
    out
}

/// What is said where the immobilizer check did not run.
pub const IMMO_SKIPPED: &'static str =
    "Either this module is not covered by the check, or the ECU did not answer. \
    You can continue — this is not itself a fault.";

/// What is said of a warning.
pub const RISK_WARNING: &'static str =
    "At least one check above is a warning. A full flash can leave an ECU that will \
    not start, and some of those states can only be recovered with data that is not \
    available over the diagnostic port.";

/// How a finding is marked.
pub open spec fn severity_text(s: Severity) -> Seq<char> {
    match s {
        Severity::Okay => "OK"@,
        Severity::Warn => "WARNING"@,
        Severity::Unknown => "UNVERIFIED"@,
    }
}

/// How a finding is marked.
pub fn severity_tag(s: Severity) -> (r: &'static str)
    ensures
        r@ == severity_text(s),
{
    match s {
        Severity::Okay => "OK",
        Severity::Warn => "WARNING",
        Severity::Unknown => "UNVERIFIED",
    }
}

/// Lines of text in the given size.
pub open spec fn text_lines(size: u8, lines: Seq<Seq<char>>) -> Seq<Piece> {
    lines.map_values(|l: Seq<char>| Piece::Text(size, l))
}

/// What is shown of some findings.
pub open spec fn finding_pieces(findings: Seq<Finding>) -> Seq<Piece>
    decreases findings.len(),
{
    if findings.len() == 0 {
        Seq::empty()
    } else {
        let f = findings.last();
        finding_pieces(findings.drop_last()).push(
            Piece::Text(13, "["@ + severity_text(f.severity) + "] "@ + f.message),
        ).push(Piece::Hint(f.detail))
    }
}

/// What is shown of the immobilizer.
pub open spec fn immo_pieces<'a>(s: StateValue<'a>) -> Seq<Piece> {
    match s.checks.findings {
        Some(findings) => {
            let head = seq![Piece::Text(16, "Immobilizer"@)];
            if findings.len() == 0 {
                head.push(Piece::Text(13, "No immobilizer problems found."@))
            } else {
                head + finding_pieces(findings)
            }
        },
        None => only_if(
            immo_applies_now(s),
            seq![Piece::Callout("The immobilizer check did not run"@, IMMO_SKIPPED@)],
        ),
    }
}

/// What is shown of a risk.
pub open spec fn risk_pieces(acknowledged: bool) -> Seq<Piece> {
    seq![
        Piece::Callout("Read this before continuing"@, RISK_WARNING@),
        Piece::Acknowledge("I have read the warnings above and want to continue"@, acknowledged),
    ]
}

/// What is shown of the preparation.
pub open spec fn note_pieces(notes: Seq<Seq<char>>) -> Seq<Piece> {
    only_if(
        notes.len() > 0,
        seq![Piece::Text(16, "Preparation"@)] + text_lines(12, notes),
    )
}

/// The screen of the safety checks.
pub open spec fn preflight_screen<'a>(s: StateValue<'a>) -> Seq<Piece> {
    if s.nav.busy is Some {
        seq![
            Piece::Text(
                0,
                "Correcting checksums and preparing blocks — this can take a moment…"@,
            ),
        ]
    } else {
        note_pieces(s.checks.prep_notes) + immo_pieces(s) + only_if(
            risky(s.checks),
            risk_pieces(s.checks.risk_acknowledged),
        )
    }
}

fn add_lines(out: &mut Vec<Item>, size: u8, lines: &Vec<String>)
    ensures
        pieces(final(out)@) == pieces(old(out)@) + text_lines(size, strings(lines@)),
{
    let ghost before = pieces(out@);
    let ghost all = text_lines(size, strings(lines@));
    let mut i: usize = 0;
    assert(before + all.take(0) == before);
    while i < lines.len()
        invariant
            i <= lines@.len(),
            all == text_lines(size, strings(lines@)),
            pieces(out@) == before + all.take(i as int),
        decreases lines@.len() - i,
    {
        add_text(out, size, lines[i].as_str());
        assert(all[i as int] == Piece::Text(size, lines@[i as int]@));
        assert(all.take(i + 1) == all.take(i as int).push(all[i as int]));
        i = i + 1;
    }
    assert(all.take(i as int) == all);
}

fn add_findings(out: &mut Vec<Item>, findings: &Vec<ImmoFinding>)
    ensures
        pieces(final(out)@) == pieces(old(out)@) + finding_pieces(said(findings@)),
{
    let ghost before = pieces(out@);
    let ghost all = said(findings@);
    let mut i: usize = 0;
    assert(all.take(0) == Seq::<Finding>::empty());
    assert(before + Seq::<Piece>::empty() == before);
    while i < findings.len()
        invariant
            i <= findings@.len(),
            all == said(findings@),
            pieces(out@) == before + finding_pieces(all.take(i as int)),
        decreases findings@.len() - i,
    {
        let f = &findings[i];
        let mut s: String = "[".to_owned();
        s.push_str(severity_tag(f.severity));
        s.push_str("] ");
        s.push_str(f.message.as_str());
        add_item(out, Item::Text { size: 13, text: s });
        add_hint(out, f.detail.as_str());
        assert(all[i as int] == findings@[i as int]@);
        assert(all.take(i + 1).drop_last() == all.take(i as int));
        assert(pieces(out@) == before + finding_pieces(all.take(i + 1)));
        i = i + 1;
    }
    assert(all.take(i as int) == all);
}

fn add_immo<'a>(out: &mut Vec<Item>, state: &State<'a>)
    ensures
        pieces(final(out)@) == pieces(old(out)@) + immo_pieces(state@),
{
    let ghost before = pieces(out@);
    match &state.checks.immo_report {
        Some(report) => {
            add_text(out, 16, "Immobilizer");
            assert(said(report.findings@).len() == report.findings@.len());
            if report.findings.len() == 0 {
                add_text(out, 13, "No immobilizer problems found.");
            } else {
                add_findings(out, &report.findings);
            }
        },
        None => {
            if state.immo_check_applies_now() {
                add_callout(out, "The immobilizer check did not run", IMMO_SKIPPED);
            }
        },
    }
    assert(pieces(out@) == before + immo_pieces(state@));
}

/// The screen of the safety checks. A warning asks for an acknowledgement; it does
/// not end the way.
pub fn view_preflight<'a>(state: &State<'a>) -> (v: Vec<Item>)
    ensures
        pieces(v@) == preflight_screen(state@),
{
    let mut out = start_items();
    if state.nav.busy.is_some() {
        add_text(
            &mut out,
            0,
            "Correcting checksums and preparing blocks — this can take a moment…",
        );
        assert(pieces(out@) == preflight_screen(state@));
        return out;
    }
    let ghost s = state@;
    if state.checks.prep_notes.len() > 0 {
        add_text(&mut out, 16, "Preparation");
        add_lines(&mut out, 12, &state.checks.prep_notes);
    }
    assert(pieces(out@) == note_pieces(s.checks.prep_notes));
    add_immo(&mut out, state);
    let ghost upto = pieces(out@);
    if state.checks.preflight_has_risk() {
        add_callout(&mut out, "Read this before continuing", RISK_WARNING);
        add_item(
            &mut out,
            Item::Acknowledge {
                label: "I have read the warnings above and want to continue".to_owned(),
                on: state.checks.risk_acknowledged,
            },
        );
    }
    assert(pieces(out@) == upto + only_if(
        risky(s.checks),
        risk_pieces(s.checks.risk_acknowledged),
    ));
    out
}

/// What is said of a relock.
pub const RELOCK_WARNING: &'static str =
    "The bootloader is written unpatched, so after this flash the ECU validates \
    signatures again and will refuse modified software. If the application software \
    or tune in this file is not the original signed factory content, the ECU will \
    not run until a stock file is flashed back.";

/// What is said before the flash.
pub const KEEP_POWERED: &'static str =
    "Keep the ignition on and the battery supported. Do not unplug the adapter or close \
    this window until the flash finishes. An interrupted flash usually leaves the ECU in \
    the bootloader, where it can be re-flashed, but it will not run the engine until it is.";

/// How many bytes are sent in all.
pub open spec fn payload_total(blocks: Seq<Prepared>) -> nat
    decreases blocks.len(),
{
    if blocks.len() == 0 {
        0
    } else {
        payload_total(blocks.drop_last()) + blocks.last().payload.len()
    }
}

/// The names of the blocks that are sent.
pub open spec fn block_titles(blocks: Seq<Prepared>) -> Seq<Seq<char>> {
    blocks.map_values(|b: Prepared| b.name)
}

/// What is said of the module.
pub open spec fn module_shown<'a>(c: Option<Candidate<'a>>) -> Seq<char> {
    match c {
        Some(c) => c.module_name@,
        None => "(unknown)"@,
    }
}

/// What is said of the operation.
pub open spec fn operation_shown(op: Option<Operation>) -> Seq<char> {
    match op {
        Some(op) => op.spec_label(),
        None => "(none)"@,
    }
}

/// What is said of the file.
pub open spec fn firmware_shown(fw: Option<Firmware>) -> Seq<char> {
    match fw {
        Some(fw) => file_shown(Some(fw.file), "(none)"@),
        None => "(none)"@,
    }
}

/// What is said of the blocks.
pub open spec fn block_pieces(prepared: Option<Seq<Prepared>>) -> Seq<Piece> {
    match prepared {
        Some(blocks) => seq![
            Piece::Text(15, "Blocks written:  "@ + joined(block_titles(blocks), ", "@)),
            Piece::Text(15, "Total payload:   "@ + dec(payload_total(blocks) / 1024) + " KB"@),
        ],
        None => Seq::empty(),
    }
}

/// The screen that lists what will be written.
pub open spec fn confirm_screen<'a>(s: StateValue<'a>) -> Seq<Piece> {
    seq![
        Piece::Text(15, "Control module:  "@ + module_shown(selection(s.scan))),
        Piece::Text(15, "Operation:       "@ + operation_shown(s.job.operation)),
        Piece::Text(15, "File:            "@ + firmware_shown(s.job.firmware)),
    ] + block_pieces(s.checks.prepared) + only_if(
        s.job.operation == Some(Operation::Relock),
        seq![Piece::Gap, Piece::Callout("This will relock the ECU"@, RELOCK_WARNING@)],
    ) + seq![Piece::Gap, Piece::Callout("Before you continue"@, KEEP_POWERED@)]
}

fn add_blocks(out: &mut Vec<Item>, blocks: &Vec<PreparedBlockData>)
    requires
        payload_total(super::state::ready(blocks@)) <= usize::MAX,
    ensures
        pieces(final(out)@) == pieces(old(out)@) + block_pieces(
            Some(super::state::ready(blocks@)),
        ),
{
    let ghost before = pieces(out@);
    let ghost all = super::state::ready(blocks@);
    let mut names: Vec<String> = Vec::new();
    let mut total: usize = 0;
    let mut i: usize = 0;
    assert(all.take(0) == Seq::<Prepared>::empty());
    while i < blocks.len()
        invariant
            i <= blocks@.len(),
            all == super::state::ready(blocks@),
            payload_total(all) <= usize::MAX,
            strings(names@) == block_titles(all.take(i as int)),
            total == payload_total(all.take(i as int)),
        decreases blocks@.len() - i,
    {
        let b = &blocks[i];
        let ghost next = all.take(i + 1);
        assert(next.drop_last() == all.take(i as int));
        assert(next.last() == b@);
        proof {
            lemma_total_grows(all, i + 1);
        }
        let name = b.block_name.clone();
        let ghost was = strings(names@);
        names.push(name);
        assert(strings(names@) == was.push(name@));
        assert(block_titles(next) == block_titles(all.take(i as int)).push(name@));
        total = total + b.block_encrypted_bytes.len();
        i = i + 1;
    }
    assert(all.take(i as int) == all);
    let list = join(&names, ", ");
    add_line(out, 15, "Blocks written:  ", list.as_str());
    let mut s: String = "Total payload:   ".to_owned();
    push_dec(&mut s, (total / 1024) as u64);
    s.push_str(" KB");
    add_item(out, Item::Text { size: 15, text: s });
    assert(pieces(out@) == before + block_pieces(Some(all)));
}

/// Fewer blocks hold fewer bytes.
proof fn lemma_total_grows(blocks: Seq<Prepared>, n: int)
    requires
        0 <= n <= blocks.len(),
    ensures
        payload_total(blocks.take(n)) <= payload_total(blocks),
    decreases blocks.len(),
{
    if n < blocks.len() {
        assert(blocks.drop_last().take(n) == blocks.take(n));
        lemma_total_grows(blocks.drop_last(), n);
    } else {
        assert(blocks.take(n) == blocks);
    }
}

/// The screen that lists what will be written: the module, the operation, the
/// file and every block.
pub fn view_confirm<'a>(state: &State<'a>) -> (v: Vec<Item>)
    requires
        state@.checks.prepared matches Some(blocks) ==> payload_total(blocks) <= usize::MAX,
    ensures
        pieces(v@) == confirm_screen(state@),
{
    let ghost s = state@;
    let mut out = start_items();
    match state.scan.selected() {
        Some(c) => {
            add_line(&mut out, 15, "Control module:  ", c.module_name);
        },
        None => {
            add_line(&mut out, 15, "Control module:  ", "(unknown)");
        },
    }
    match state.job.operation {
        Some(op) => {
            add_line(&mut out, 15, "Operation:       ", op.label());
        },
        None => {
            add_line(&mut out, 15, "Operation:       ", "(none)");
        },
    }
    let file: String = match &state.job.firmware {
        Some(fw) => match &fw.file.name {
            Some(name) => name.clone(),
            None => "(none)".to_owned(),
        },
        None => "(none)".to_owned(),
    };
    add_line(&mut out, 15, "File:            ", file.as_str());
    assert(pieces(out@) == seq![
        Piece::Text(15, "Control module:  "@ + module_shown(selection(s.scan))),
        Piece::Text(15, "Operation:       "@ + operation_shown(s.job.operation)),
        Piece::Text(15, "File:            "@ + firmware_shown(s.job.firmware)),
    ]);
    let ghost upto = pieces(out@);
    if let Some(blocks) = &state.checks.prepared {
        add_blocks(&mut out, blocks);
    }
    assert(pieces(out@) == upto + block_pieces(s.checks.prepared));
    let ghost upto = pieces(out@);
    let relocking = match state.job.operation {
        Some(Operation::Relock) => true,
        _ => false,
    };
    if relocking {
        add_item(&mut out, Item::Gap);
        add_callout(&mut out, "This will relock the ECU", RELOCK_WARNING);
    }
    assert(pieces(out@) == upto + only_if(
        s.job.operation == Some(Operation::Relock),
        seq![Piece::Gap, Piece::Callout("This will relock the ECU"@, RELOCK_WARNING@)],
    ));
    let ghost upto = pieces(out@);
    add_item(&mut out, Item::Gap);
    add_callout(&mut out, "Before you continue", KEEP_POWERED);
    assert(pieces(out@) == upto + seq![
        Piece::Gap,
        Piece::Callout("Before you continue"@, KEEP_POWERED@),
    ]);
    out
}

/// The last lines of a log, newest first.
pub open spec fn newest_first(lines: Seq<Seq<char>>, at_most: nat) -> Seq<Seq<char>> {
    Seq::new(
        if lines.len() < at_most {
            lines.len()
        } else {
            at_most
        },
        |i: int| lines[lines.len() - 1 - i],
    )
}

/// The screen shown during the flash.
pub open spec fn flashing_screen<'a>(s: StateValue<'a>) -> Seq<Piece> {
    seq![
        Piece::Text(15, s.flashing.progress_step),
        Piece::Progress,
        Piece::Log(newest_first(s.flashing.log_lines, 200), 240),
    ]
}

fn last_lines(lines: &Vec<String>, at_most: usize) -> (v: Vec<String>)
    ensures
        strings(v@) == newest_first(strings(lines@), at_most as nat),
{
    let ghost all = strings(lines@);
    let mut v: Vec<String> = Vec::new();
    let mut left: usize = lines.len();
    assert(strings(v@) == Seq::<Seq<char>>::empty());
    while left > 0 && v.len() < at_most
        invariant
            left + v@.len() == lines@.len(),
            v@.len() <= at_most,
            all == strings(lines@),
            strings(v@) == Seq::new(v@.len(), |i: int| all[all.len() - 1 - i]),
        decreases left,
    {
        left = left - 1;
        let line = lines[left].clone();
        assert(all[left as int] == lines@[left as int]@);
        let ghost before = strings(v@);
        v.push(line);
        assert(strings(v@) == before.push(line@));
        assert(strings(v@) == Seq::new(v@.len(), |i: int| all[all.len() - 1 - i]));
    }
    assert(strings(v@) == newest_first(all, at_most as nat));
    v
}

/// The screen shown during the flash.
pub fn view_flashing<'a>(state: &State<'a>) -> (v: Vec<Item>)
    ensures
        pieces(v@) == flashing_screen(state@),
{
    let mut out = start_items();
    add_text(&mut out, 15, state.flashing.progress_step.as_str());
    add_item(&mut out, Item::Progress);
    let lines = last_lines(&state.flashing.log_lines, 200);
    add_item(&mut out, Item::Log { lines, height: 240 });
    assert(pieces(out@) == flashing_screen(state@));
    out
}

/// What is said after a failed flash.
pub const WHAT_TO_DO: &'static str =
    "The ECU is most likely still in the bootloader, which means it can be flashed \
    again. Fix the reported problem and retry the same operation before switching \
    the ignition off.";

/// What is said of the outcome.
pub open spec fn outcome_pieces(finished_ok: bool) -> Seq<Piece> {
    if finished_ok {
        seq![Piece::Text(16, "The flash completed successfully."@)]
    } else {
        seq![
            Piece::Text(16, "The flash did not complete."@),
            Piece::Callout("What to do next"@, WHAT_TO_DO@),
        ]
    }
}

/// The screen shown after the flash.
pub open spec fn done_screen<'a>(s: StateValue<'a>) -> Seq<Piece> {
    (outcome_pieces(s.flashing.finished_ok) + only_if(
        s.flashing.findings.len() > 0,
        seq![Piece::Text(16, "Immobilizer, after the flash"@)] + text_lines(
            13,
            s.flashing.findings,
        ),
    )).push(Piece::Log(s.flashing.log_lines, 200))
}

fn copy_lines(lines: &Vec<String>) -> (v: Vec<String>)
    ensures
        strings(v@) == strings(lines@),
{
    let ghost all = strings(lines@);
    let mut v: Vec<String> = Vec::new();
    let mut i: usize = 0;
    while i < lines.len()
        invariant
            i <= lines@.len(),
            all == strings(lines@),
            strings(v@) == all.take(i as int),
        decreases lines@.len() - i,
    {
        let line = lines[i].clone();
        let ghost before = strings(v@);
        v.push(line);
        assert(strings(v@) == before.push(line@));
        assert(all[i as int] == lines@[i as int]@);
        assert(all.take(i + 1) == all.take(i as int).push(line@));
        i = i + 1;
    }
    assert(all.take(i as int) == all);
    v
}

/// The screen shown after the flash.
pub fn view_done<'a>(state: &State<'a>) -> (v: Vec<Item>)
    ensures
        pieces(v@) == done_screen(state@),
{
    let ghost s = state@;
    let mut out = start_items();
    if state.flashing.finished_ok {
        add_text(&mut out, 16, "The flash completed successfully.");
    } else {
        add_text(&mut out, 16, "The flash did not complete.");
        add_callout(&mut out, "What to do next", WHAT_TO_DO);
    }
    assert(pieces(out@) == outcome_pieces(s.flashing.finished_ok));
    let ghost upto = pieces(out@);
    if state.flashing.post_flash_findings.len() > 0 {
        add_text(&mut out, 16, "Immobilizer, after the flash");
        add_lines(&mut out, 13, &state.flashing.post_flash_findings);
    }
    assert(pieces(out@) == upto + only_if(
        s.flashing.findings.len() > 0,
        seq![Piece::Text(16, "Immobilizer, after the flash"@)] + text_lines(
            13,
            s.flashing.findings,
        ),
    ));
    let lines = copy_lines(&state.flashing.log_lines);
    add_item(&mut out, Item::Log { lines, height: 200 });
    out
}

/// The body of a screen.
pub open spec fn screen<'a>(s: StateValue<'a>) -> Seq<Piece> {
    match s.nav.step {
        Step::Interface => interface_screen(s),
        Step::Identify => identify_screen(s),
        Step::Unlock => unlock_screen(s),
        Step::Operation => operation_screen(s),
        Step::Firmware => firmware_screen(s),
        Step::Preflight => preflight_screen(s),
        Step::Confirm => confirm_screen(s),
        Step::Flashing => flashing_screen(s),
        Step::Done => done_screen(s),
    }
}

/// What stands above the body: the title, what the screen is for, what is being
/// waited for and what went wrong.
pub open spec fn heading(n: NavValue) -> Seq<Piece> {
    let head = seq![
        Piece::Text(24, n.step.spec_title()),
        Piece::Text(13, n.step.spec_blurb()),
    ];
    let waiting = match n.busy {
        Some(b) => head.push(Piece::Text(14, b)),
        None => head,
    };
    match n.error {
        Some(e) => waiting.push(Piece::Callout("Problem"@, e)),
        None => waiting,
    }
}

/// What stands above the body of a screen.
pub fn view_heading<'a>(state: &State<'a>) -> (v: Vec<Item>)
    ensures
        pieces(v@) == heading(state@.nav),
{
    let mut out = start_items();
    add_text(&mut out, 24, state.nav.step.title());
    add_text(&mut out, 13, state.nav.step.blurb());
    assert(pieces(out@) == seq![
        Piece::Text(24, state@.nav.step.spec_title()),
        Piece::Text(13, state@.nav.step.spec_blurb()),
    ]);
    if let Some(busy) = &state.nav.busy {
        add_text(&mut out, 14, busy.as_str());
    }
    if let Some(err) = &state.nav.error {
        add_callout(&mut out, "Problem", err.as_str());
    }
    out
}

/// The body of the screen that is shown.
pub fn view<'a>(state: &State<'a>) -> (v: Vec<Item>)
    requires
        state@.nav.step == Step::Confirm ==> (state@.checks.prepared matches Some(blocks) ==>
            payload_total(blocks) <= usize::MAX),
    ensures
        pieces(v@) == screen(state@),
{
    match state.nav.step {
        Step::Interface => view_interface(state),
        Step::Identify => view_identify(state),
        Step::Unlock => view_unlock(state),
        Step::Operation => view_operation(state),
        Step::Firmware => view_firmware(state),
        Step::Preflight => view_preflight(state),
        Step::Confirm => view_confirm(state),
        Step::Flashing => view_flashing(state),
        Step::Done => view_done(state),
    }
}

/// What is said where the immobilizer could not be read again.
pub const UNREAD_AFTER: &'static str =
    "The immobilizer state could not be re-read after the flash. \
    This is not itself a fault; try reading it again with the ignition on.";

/// What is said of the findings after a flash; of none, where the immobilizer
/// could not be read again.
pub open spec fn after_lines(findings: Option<Seq<Finding>>) -> Seq<Seq<char>> {
    match findings {
        Some(v) => v.map_values(|f: Finding| f.message + " — "@ + f.detail),
        None => seq![UNREAD_AFTER@],
    }
}

/// What is said of the findings after a flash.
pub fn describe_after(findings: &Option<Vec<ImmoFinding>>) -> (v: Vec<String>)
    ensures
        strings(v@) == after_lines(
            match findings {
                Some(f) => Some(said(f@)),
                None => None,
            },
        ),
{
    let mut v: Vec<String> = Vec::new();
    match findings {
        None => {
            v.push(UNREAD_AFTER.to_owned());
            assert(strings(v@) == seq![UNREAD_AFTER@]);
        },
        Some(list) => {
            let ghost all = after_lines(Some(said(list@)));
            let mut i: usize = 0;
            while i < list.len()
                invariant
                    i <= list@.len(),
                    all == after_lines(Some(said(list@))),
                    strings(v@) == all.take(i as int),
                decreases list@.len() - i,
            {
                let mut s: String = list[i].message.clone();
                s.push_str(" — ");
                s.push_str(list[i].detail.as_str());
                assert(said(list@)[i as int] == list@[i as int]@);
                assert(all[i as int] == s@);
                let ghost before = strings(v@);
                v.push(s);
                assert(strings(v@) == before.push(s@));
                assert(all.take(i + 1) == all.take(i as int).push(s@));
                i = i + 1;
            }
            assert(all.take(i as int) == all);
        },
    }
    v
}

/// Before anything is written, every block that will be written is named on the
/// screen, with the module, the operation and the file.
pub proof fn law_what_is_written_was_shown<'a>(s: StateValue<'a>)
    requires
        s.nav.step == Step::Confirm,
        s.checks.prepared is Some,
    ensures
        screen(s).len() >= 5,
        screen(s)[0] == Piece::Text(15, "Control module:  "@ + module_shown(selection(s.scan))),
        screen(s)[1] == Piece::Text(15, "Operation:       "@ + operation_shown(s.job.operation)),
        screen(s)[2] == Piece::Text(15, "File:            "@ + firmware_shown(s.job.firmware)),
        screen(s)[3] == Piece::Text(
            15,
            "Blocks written:  "@ + joined(block_titles(s.checks.prepared.unwrap()), ", "@),
        ),
{
}

/// A warning asks for an acknowledgement, which then lets the wizard go on; it
/// does not end the way.
pub proof fn law_a_warning_is_never_a_block<'a>(s: StateValue<'a>)
    requires
        s.nav.step == Step::Preflight,
        s.nav.busy is None,
        s.checks.prepared is Some,
    ensures
        !risky(s.checks) ==> may_advance(s),
        risky(s.checks) ==> {
            &&& may_advance(s) == s.checks.risk_acknowledged
            &&& screen(s).contains(
                Piece::Acknowledge(
                    "I have read the warnings above and want to continue"@,
                    s.checks.risk_acknowledged,
                ),
            )
        },
{
    if risky(s.checks) {
        let v = screen(s);
        let r = risk_pieces(s.checks.risk_acknowledged);
        assert(v[v.len() - 1] == r[1]);
    }
}

} // verus!
