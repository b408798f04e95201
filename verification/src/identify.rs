//! Control-module identification: working out which ECU is on the bus.
//!
//! * The supported modules occupy only three CAN channels ([`ident_channels`]),
//!   so the channel alone already narrows the answer.
//! * Where a channel hosts more than one module, a handful of identification
//!   DIDs ([`IDENT_DIDS`]) rank the candidates.
//! * The Simos variants sharing `0x7E0` name themselves: the Boot Loader
//!   Identification record starts with the project name of the module.
//! * When the data cannot separate two modules both are returned as
//!   [`Confidence::Ambiguous`]. Nothing falls back to a default guess.

use std::collections::HashMap;

use vstd::prelude::*;

use crate::module::{FlashInfo, Registry};
use crate::text::{
    chars_eq, chars_of, copy_chars, has_prefix, hex_bytes, is_white, joined, lower_chars, lowered,
    lossy_utf8, push_hex_bytes, raised, starts_with, string_of, trim, trimmed,
    upper_chars, utf8_lossy, white,
};

verus! {

broadcast use vstd::std_specs::hash::group_hash_axioms;

/// ASAM/ODX File Identifier, e.g. `"EV_ECM20TFS0208V0906259K"`.
pub const DID_ODX_FILE_IDENTIFIER: u16 = 0xF19E;

/// ASAM/ODX File Version, e.g. `"001005"`.
pub const DID_ODX_FILE_VERSION: u16 = 0xF1A2;

/// VW Spare Part Number, 11 characters including a trailing pad space.
pub const DID_SPARE_PART_NUMBER: u16 = 0xF187;

/// VW System Name Or Engine Type, e.g. `"2.0l R4 TFSI "`.
pub const DID_SYSTEM_NAME: u16 = 0xF197;

/// Boot Loader Identification, e.g. `"SC8.1 CB.00.00.I0 C02.00 SC8 "`.
///
/// The best discriminator on the engine channel: the string opens with the
/// project prefix of the running bootloader.
pub const DID_BOOT_LOADER_IDENTIFICATION: u16 = 0xF1F4;

/// The DIDs identification reads, in request order.
pub const IDENT_DIDS: [u16; 5] = [0xF19E, 0xF1A2, 0xF187, 0xF197, 0xF1F4];

/// One record shown to the user on the identification page.
#[derive(Debug, Clone, Copy)]
pub struct InfoField {
    /// The Data Identifier to read.
    pub did: u16,
    /// How the field is named to the user.
    pub label: &'static str,
    /// `true` when the record is a string; `false` renders as hex bytes.
    pub text: bool,
}

/// A record shown to the user, as a value.
pub struct Info {
    pub did: u16,
    pub label: Seq<char>,
    pub text: bool,
}

/// A record shown to the user.
pub open spec fn info(did: u16, label: Seq<char>, text: bool) -> Info {
    Info { did, label, text }
}

impl View for InfoField {
    type V = Info;

    open spec fn view(&self) -> Info {
        info(self.did, self.label@, self.text)
    }
}

/// The records the identification page displays, in display order.
pub open spec fn info_table() -> Seq<Info> {
    seq![
        info(0xF190, "VIN"@, true),
        info(DID_SPARE_PART_NUMBER, "VW spare part number"@, true),
        info(0xF189, "Application software version"@, true),
        info(0xF191, "ECU hardware number"@, true),
        info(0xF1A3, "ECU hardware version"@, true),
        info(DID_SYSTEM_NAME, "System name / engine type"@, true),
        info(0xF1AD, "Engine code letters"@, true),
        info(DID_BOOT_LOADER_IDENTIFICATION, "Boot loader identification"@, true),
        info(DID_ODX_FILE_IDENTIFIER, "ASAM/ODX file identifier"@, true),
        info(DID_ODX_FILE_VERSION, "ASAM/ODX file version"@, true),
        info(0xF804, "Calibration ID"@, true),
        info(0xF1AB, "Logical software block version"@, true),
        info(0xF18C, "ECU serial number"@, true),
        info(0xF17C, "VW FAZIT identification string"@, true),
        info(0xF17E, "ECU production change number"@, true),
        info(0xF1AA, "VW workshop system name"@, true),
        info(0x0600, "Coding value"@, false),
        info(0xF442, "Control module voltage"@, false),
        info(0x295B, "Control module mileage"@, false),
        info(0x0407, "Programming attempts"@, false),
        info(0x0408, "Successful programming attempts"@, false),
        info(0xF1F1, "Tuning protection SO2"@, false),
    ]
}

/// The records the identification page displays, in display order.
pub fn info_fields() -> (v: Vec<InfoField>)
    ensures
        v@.map_values(|f: InfoField| f@) == info_table(),
{
    let mut v: Vec<InfoField> = Vec::new();
    v.push(InfoField { did: 0xF190, label: "VIN", text: true });
    v.push(InfoField { did: DID_SPARE_PART_NUMBER, label: "VW spare part number", text: true });
    v.push(InfoField { did: 0xF189, label: "Application software version", text: true });
    v.push(InfoField { did: 0xF191, label: "ECU hardware number", text: true });
    v.push(InfoField { did: 0xF1A3, label: "ECU hardware version", text: true });
    v.push(InfoField { did: DID_SYSTEM_NAME, label: "System name / engine type", text: true });
    v.push(InfoField { did: 0xF1AD, label: "Engine code letters", text: true });
    v.push(InfoField { did: DID_BOOT_LOADER_IDENTIFICATION, label: "Boot loader identification", text: true });
    v.push(InfoField { did: DID_ODX_FILE_IDENTIFIER, label: "ASAM/ODX file identifier", text: true });
    v.push(InfoField { did: DID_ODX_FILE_VERSION, label: "ASAM/ODX file version", text: true });
    v.push(InfoField { did: 0xF804, label: "Calibration ID", text: true });
    v.push(InfoField { did: 0xF1AB, label: "Logical software block version", text: true });
    v.push(InfoField { did: 0xF18C, label: "ECU serial number", text: true });
    v.push(InfoField { did: 0xF17C, label: "VW FAZIT identification string", text: true });
    v.push(InfoField { did: 0xF17E, label: "ECU production change number", text: true });
    v.push(InfoField { did: 0xF1AA, label: "VW workshop system name", text: true });
    v.push(InfoField { did: 0x0600, label: "Coding value", text: false });
    v.push(InfoField { did: 0xF442, label: "Control module voltage", text: false });
    v.push(InfoField { did: 0x295B, label: "Control module mileage", text: false });
    v.push(InfoField { did: 0x0407, label: "Programming attempts", text: false });
    v.push(InfoField { did: 0x0408, label: "Successful programming attempts", text: false });
    v.push(InfoField { did: 0xF1F1, label: "Tuning protection SO2", text: false });
    assert(v@.map_values(|f: InfoField| f@) == info_table());
    v
}

fn is_ident_did(did: u16) -> (r: bool)
    ensures
        r == IDENT_DIDS@.contains(did),
{
    let mut i: usize = 0;
    while i < 5
        invariant
            i <= 5,
            forall|j: int| 0 <= j < i ==> IDENT_DIDS@[j] != did,
        decreases 5 - i,
    {
        if IDENT_DIDS[i] == did {
            return true;
        }
        i = i + 1;
    }
    false
}

/// The displayed DIDs that identification does not already read.
pub open spec fn extra_dids(table: Seq<Info>) -> Seq<u16>
    decreases table.len(),
{
    if table.len() == 0 {
        Seq::empty()
    } else {
        let before = extra_dids(table.drop_last());
        if IDENT_DIDS@.contains(table.last().did) {
            before
        } else {
            before.push(table.last().did)
        }
    }
}

/// The displayed DIDs that identification does not already read: nothing is
/// requested twice.
pub fn extra_info_dids() -> (v: Vec<u16>)
    ensures
        v@ == extra_dids(info_table()),
        forall|i: int| 0 <= i < v@.len() ==> !IDENT_DIDS@.contains(#[trigger] v@[i]),
{
    let fields = info_fields();
    let ghost table = info_table();
    let mut v: Vec<u16> = Vec::new();
    let mut i: usize = 0;
    assert(table.take(0) == Seq::<Info>::empty());
    while i < fields.len()
        invariant
            i <= fields@.len(),
            table == fields@.map_values(|f: InfoField| f@),
            v@ == extra_dids(table.take(i as int)),
            forall|k: int| 0 <= k < v@.len() ==> !IDENT_DIDS@.contains(#[trigger] v@[k]),
        decreases fields@.len() - i,
    {
        let ghost next = table.take(i + 1);
        assert(next.drop_last() == table.take(i as int));
        assert(next.last() == fields@[i as int]@);
        if !is_ident_did(fields[i].did) {
            v.push(fields[i].did);
        }
        i = i + 1;
    }
    assert(table.take(i as int) == table);
    v
}

/// A text without its padding; nothing but padding counts as absent.
pub open spec fn unpadded(text: Seq<char>) -> Option<Seq<char>> {
    let t = trimmed(text, true);
    if t.len() == 0 {
        None
    } else {
        Some(t)
    }
}

/// The text of a DID value.
pub open spec fn did_text(dids: Map<u16, Seq<u8>>, did: u16) -> Option<Seq<char>> {
    if dids.contains_key(did) {
        unpadded(utf8_lossy(dids[did]))
    } else {
        None
    }
}

/// The characters of an optional text.
pub open spec fn opt(s: Option<String>) -> Option<Seq<char>> {
    match s {
        Some(t) => Some(t@),
        None => None,
    }
}

/// Strip padding off a text; `None` where nothing is left.
pub fn strip_padding(text: &str) -> (r: Option<String>)
    ensures
        opt(r) == unpadded(text@),
{
    let chars = chars_of(text);
    let t = trim(&chars, true);
    if t.len() == 0 {
        None
    } else {
        Some(string_of(&t))
    }
}

fn decode(dids: &HashMap<u16, Vec<u8>>, did: u16) -> (r: Option<String>)
    ensures
        opt(r) == did_text(did_map(dids@), did),
{
    match dids.get(&did) {
        Some(bytes) => {
            let text = lossy_utf8(bytes.as_slice());
            strip_padding(text.as_str())
        },
        None => None,
    }
}

/// What a map of DID values holds.
pub open spec fn did_map(m: Map<u16, Vec<u8>>) -> Map<u16, Seq<u8>> {
    m.map_values(|v: Vec<u8>| v@)
}

/// How one record is shown. Absent and empty records are not.
pub open spec fn shown(field: Info, dids: Map<u16, Seq<u8>>) -> Option<Seq<char>> {
    if !dids.contains_key(field.did) {
        None
    } else if field.text {
        did_text(dids, field.did)
    } else if dids[field.did].len() == 0 {
        None
    } else {
        Some(hex_bytes(dids[field.did]))
    }
}

/// What the identification page shows of a table.
pub open spec fn page(table: Seq<Info>, dids: Map<u16, Seq<u8>>) -> Seq<(Seq<char>, Seq<char>)>
    decreases table.len(),
{
    if table.len() == 0 {
        Seq::empty()
    } else {
        let before = page(table.drop_last(), dids);
        match shown(table.last(), dids) {
            Some(value) => before.push((table.last().label, value)),
            None => before,
        }
    }
}

/// What a list of labelled values holds.
pub open spec fn labelled(v: Seq<(&'static str, String)>) -> Seq<(Seq<char>, Seq<char>)> {
    v.map_values(|p: (&'static str, String)| (p.0@, p.1@))
}

/// Render the displayed records against a raw DID map, skipping absent or empty
/// ones. A refused DID is normal, so it is left out rather than shown blank.
pub fn info_values(dids: &HashMap<u16, Vec<u8>>) -> (v: Vec<(&'static str, String)>)
    ensures
        labelled(v@) == page(info_table(), did_map(dids@)),
{
    let fields = info_fields();
    let ghost table = info_table();
    let ghost map = did_map(dids@);
    let mut v: Vec<(&'static str, String)> = Vec::new();
    let mut i: usize = 0;
    assert(labelled(v@) == page(table.take(0), map));
    while i < fields.len()
        invariant
            i <= fields@.len(),
            table == fields@.map_values(|f: InfoField| f@),
            map == did_map(dids@),
            labelled(v@) == page(table.take(i as int), map),
        decreases fields@.len() - i,
    {
        let ghost next = table.take(i + 1);
        assert(next.drop_last() == table.take(i as int));
        assert(next.last() == fields@[i as int]@);
        let field = fields[i];
        let value = if field.text {
            decode(dids, field.did)
        } else {
            match dids.get(&field.did) {
                Some(bytes) => {
                    if bytes.len() == 0 {
                        None
                    } else {
                        let mut s = String::new();
                        push_hex_bytes(&mut s, bytes.as_slice());
                        assert(s@ == hex_bytes(bytes@));
                        Some(s)
                    }
                },
                None => None,
            }
        };
        assert(opt(value) == shown(next.last(), map));
        let ghost before = v@;
        if let Some(s) = value {
            v.push((field.label, s));
            assert(labelled(v@) == labelled(before).push((field.label@, s@)));
        }
        i = i + 1;
    }
    assert(table.take(i as int) == table);
    v
}

/// What kind of controller a channel hosts, which selects the ranking rules.
#[derive(Debug, Clone, Copy, PartialEq, Eq, Structural)]
pub enum ChannelKind {
    /// `0x7E0`/`0x7E8`: the engine ECU.
    SimosEngine,
    /// `0x7E1`/`0x7E9`: the transmission controller.
    Transmission,
    /// `0x70F`/`0x779`: the Haldex AWD coupler.
    HaldexAwd,
}

/// One CAN channel to probe, and the supported modules that live on it.
#[derive(Debug, Clone, Copy)]
pub struct IdentChannel {
    /// Human-readable channel name for progress reporting.
    pub label: &'static str,
    /// Tester to ECU CAN identifier.
    pub txid: u32,
    /// ECU to tester CAN identifier.
    pub rxid: u32,
    /// Which ranking rules apply to this channel.
    pub kind: ChannelKind,
    /// Registry names of every supported module reachable here.
    pub modules: &'static [&'static str],
}

/// A channel as a value.
pub struct Channel {
    pub label: Seq<char>,
    pub txid: u32,
    pub rxid: u32,
    pub kind: ChannelKind,
    pub modules: Seq<Seq<char>>,
}

/// The characters of several texts.
pub open spec fn strs(v: Seq<&'static str>) -> Seq<Seq<char>> {
    v.map_values(|s: &'static str| s@)
}

impl View for IdentChannel {
    type V = Channel;

    open spec fn view(&self) -> Channel {
        Channel {
            label: self.label@,
            txid: self.txid,
            rxid: self.rxid,
            kind: self.kind,
            modules: strs(self.modules@),
        }
    }
}

/// The engine channel.
pub open spec fn engine_channel() -> Channel {
    Channel {
        label: "Engine (0x7E0)"@,
        txid: 0x7E0,
        rxid: 0x7E8,
        kind: ChannelKind::SimosEngine,
        modules: seq!["simos18"@, "simos1810"@, "simos184"@],
    }
}

/// The transmission channel.
pub open spec fn transmission_channel() -> Channel {
    Channel {
        label: "Transmission (0x7E1)"@,
        txid: 0x7E1,
        rxid: 0x7E9,
        kind: ChannelKind::Transmission,
        modules: seq!["dq250"@, "dq381"@],
    }
}

/// The channel of the AWD coupler.
pub open spec fn haldex_channel() -> Channel {
    Channel {
        label: "Haldex AWD (0x70F)"@,
        txid: 0x70F,
        rxid: 0x779,
        kind: ChannelKind::HaldexAwd,
        modules: seq!["haldex"@],
    }
}

/// The channels in scan order.
pub open spec fn channel_at(i: int) -> Channel {
    if i == 0 {
        engine_channel()
    } else if i == 1 {
        transmission_channel()
    } else {
        haldex_channel()
    }
}

/// Every channel to scan, in scan order. Engine first: the most commonly flashed
/// module.
pub fn ident_channels() -> (r: [IdentChannel; 3])
    ensures
        r@[0]@ == engine_channel(),
        r@[1]@ == transmission_channel(),
        r@[2]@ == haldex_channel(),
{
    let engine = IdentChannel {
        label: "Engine (0x7E0)",
        txid: 0x7E0,
        rxid: 0x7E8,
        kind: ChannelKind::SimosEngine,
        modules: &["simos18", "simos1810", "simos184"],
    };
    assert(strs(engine.modules@) == engine_channel().modules);
    let transmission = IdentChannel {
        label: "Transmission (0x7E1)",
        txid: 0x7E1,
        rxid: 0x7E9,
        kind: ChannelKind::Transmission,
        modules: &["dq250", "dq381"],
    };
    assert(strs(transmission.modules@) == transmission_channel().modules);
    let haldex = IdentChannel {
        label: "Haldex AWD (0x70F)",
        txid: 0x70F,
        rxid: 0x779,
        kind: ChannelKind::HaldexAwd,
        modules: &["haldex"],
    };
    assert(strs(haldex.modules@) == haldex_channel().modules);
    [engine, transmission, haldex]
}

impl IdentChannel {
    /// The module to build the probe transport from. Any module on the channel
    /// would do: only the CAN identifiers matter for a read-only probe.
    pub fn probe_flash_info<'a>(&self, registry: &'a Registry) -> (r: &'a FlashInfo)
        requires
            self.modules@.len() > 0,
            registry.spec_get(self.modules@[0]@) is Some,
        ensures
            registry.spec_get(self.modules@[0]@) == Some(*r),
    {
        registry.get_flash_info(self.modules[0]).unwrap()
    }
}

/// The channel of a pair of CAN identifiers.
pub open spec fn channel_of(txid: u32, rxid: u32) -> Option<Channel> {
    if txid == 0x7E0 && rxid == 0x7E8 {
        Some(engine_channel())
    } else if txid == 0x7E1 && rxid == 0x7E9 {
        Some(transmission_channel())
    } else if txid == 0x70F && rxid == 0x779 {
        Some(haldex_channel())
    } else {
        None
    }
}

/// Find the identification channel a module belongs to, by CAN address.
pub fn channel_for(flash_info: &FlashInfo) -> (r: Option<IdentChannel>)
    ensures
        match r {
            Some(c) => channel_of(
                flash_info.control_module_identifier.txid,
                flash_info.control_module_identifier.rxid,
            ) == Some(c@),
            None => channel_of(
                flash_info.control_module_identifier.txid,
                flash_info.control_module_identifier.rxid,
            ) is None,
        },
{
    let channels = ident_channels();
    let cmi = flash_info.control_module_identifier;
    if channels[0].txid == cmi.txid && channels[0].rxid == cmi.rxid {
        Some(channels[0])
    } else if channels[1].txid == cmi.txid && channels[1].rxid == cmi.rxid {
        Some(channels[1])
    } else if channels[2].txid == cmi.txid && channels[2].rxid == cmi.rxid {
        Some(channels[2])
    } else {
        None
    }
}

/// The identification strings read from the ECU, without padding. A refused DID,
/// or one that was all padding, is [`None`].
#[derive(Debug, Clone, PartialEq, Eq)]
pub struct IdentStrings {
    /// e.g. `"EV_ECM20TFS0208V0906259K"`.
    pub odx_file_identifier: Option<String>,
    /// e.g. `"001005"`.
    pub odx_file_version: Option<String>,
    /// e.g. `"8V0906259K"`.
    pub spare_part_number: Option<String>,
    /// e.g. `"2.0l R4 TFSI"`.
    pub system_name: Option<String>,
    /// e.g. `"SC8.1 CB.00.00.I0 C02.00 SC8"`.
    pub boot_loader_identification: Option<String>,
}

/// The identification strings as values.
pub struct Strings {
    pub odx_file_identifier: Option<Seq<char>>,
    pub odx_file_version: Option<Seq<char>>,
    pub spare_part_number: Option<Seq<char>>,
    pub system_name: Option<Seq<char>>,
    pub boot_loader_identification: Option<Seq<char>>,
}

impl View for IdentStrings {
    type V = Strings;

    open spec fn view(&self) -> Strings {
        Strings {
            odx_file_identifier: opt(self.odx_file_identifier),
            odx_file_version: opt(self.odx_file_version),
            spare_part_number: opt(self.spare_part_number),
            system_name: opt(self.system_name),
            boot_loader_identification: opt(self.boot_loader_identification),
        }
    }
}

/// The identification strings of a DID map.
pub open spec fn strings_of(dids: Map<u16, Seq<u8>>) -> Strings {
    Strings {
        odx_file_identifier: did_text(dids, DID_ODX_FILE_IDENTIFIER),
        odx_file_version: did_text(dids, DID_ODX_FILE_VERSION),
        spare_part_number: did_text(dids, DID_SPARE_PART_NUMBER),
        system_name: did_text(dids, DID_SYSTEM_NAME),
        boot_loader_identification: did_text(dids, DID_BOOT_LOADER_IDENTIFICATION),
    }
}

/// An ASCII digit.
pub open spec fn is_digit(c: char) -> bool {
    '0' <= c <= '9'
}

/// An ASCII letter.
pub open spec fn is_letter(c: char) -> bool {
    'a' <= c <= 'z' || 'A' <= c <= 'Z'
}

/// The position of the last `c`.
pub open spec fn last_position(s: Seq<char>, c: char) -> Option<int>
    decreases s.len(),
{
    if s.len() == 0 {
        None
    } else if s.last() == c {
        Some(s.len() - 1)
    } else {
        last_position(s.drop_last(), c)
    }
}

/// The identifier without a three-digit revision suffix.
pub open spec fn without_revision(ident: Seq<char>) -> Seq<char> {
    match last_position(ident, '_') {
        Some(i) => if ident.len() - i == 4 && (forall|k: int|
            i < k < ident.len() ==> is_digit(#[trigger] ident[k])) {
            ident.take(i)
        } else {
            ident
        },
        None => ident,
    }
}

/// Letters and digits, and at least one of each.
pub open spec fn part_number_shaped(s: Seq<char>) -> bool {
    &&& forall|k: int| 0 <= k < s.len() ==> is_digit(#[trigger] s[k]) || is_letter(s[k])
    &&& exists|k: int| 0 <= k < s.len() && is_digit(#[trigger] s[k])
    &&& exists|k: int| 0 <= k < s.len() && is_letter(#[trigger] s[k])
}

/// The spare part number an ODX file identifier ends with.
pub open spec fn part_from_odx(ident: Seq<char>) -> Option<Seq<char>> {
    let core = without_revision(ident);
    let tail = core.skip(core.len() - 10);
    if vstd::utf8::is_ascii_chars(ident) && core.len() >= 10 && part_number_shaped(tail) {
        Some(raised(tail))
    } else {
        None
    }
}

/// The part of a text in front of the first dot or white space.
pub open spec fn head(s: Seq<char>) -> Seq<char>
    decreases s.len(),
{
    if s.len() == 0 || s[0] == '.' || is_white(s[0]) {
        Seq::empty()
    } else {
        seq![s[0]] + head(s.skip(1))
    }
}

/// The project prefix of a Boot Loader Identification: two to four letters and
/// digits, with at least one letter.
pub open spec fn project_of(ident: Seq<char>) -> Option<Seq<char>> {
    let h = head(ident);
    if 2 <= h.len() <= 4 && (forall|k: int|
        0 <= k < h.len() ==> is_digit(#[trigger] h[k]) || is_letter(h[k])) && (exists|k: int|
        0 <= k < h.len() && is_letter(#[trigger] h[k])) {
        Some(h)
    } else {
        None
    }
}

impl Strings {
    /// The project prefix the bootloader reports for itself.
    pub open spec fn project(self) -> Option<Seq<char>> {
        match self.boot_loader_identification {
            Some(s) => project_of(s),
            None => None,
        }
    }

    /// The best available spare part number.
    pub open spec fn part_number(self) -> Option<Seq<char>> {
        match self.spare_part_number {
            Some(pn) => Some(raised(pn)),
            None => match self.odx_file_identifier {
                Some(id) => part_from_odx(id),
                None => None,
            },
        }
    }

    /// The parts of a summary.
    pub open spec fn parts(self) -> Seq<Seq<char>> {
        let p0 = Seq::<Seq<char>>::empty();
        let p1 = match self.odx_file_identifier {
            Some(v) => p0.push("ODX ident "@ + v),
            None => p0,
        };
        let p2 = match self.odx_file_version {
            Some(v) => p1.push("version "@ + v),
            None => p1,
        };
        let p3 = match self.spare_part_number {
            Some(v) => p2.push("part number "@ + v),
            None => p2,
        };
        let p4 = match self.system_name {
            Some(v) => p3.push("system \""@ + v + "\""@),
            None => p3,
        };
        match self.boot_loader_identification {
            Some(v) => p4.push("bootloader \""@ + v + "\""@),
            None => p4,
        }
    }

    /// A one-line summary.
    pub open spec fn summary(self) -> Seq<char> {
        if self.parts().len() == 0 {
            "no identification strings"@
        } else {
            joined(self.parts(), ", "@)
        }
    }
}

/// Where an identifier ends without its revision suffix.
fn revision_end(chars: &Vec<char>) -> (end: usize)
    ensures
        end <= chars@.len(),
        chars@.take(end as int) == without_revision(chars@),
{
    let mut i: usize = chars.len();
    assert(chars@.take(i as int) == chars@);
    while i > 0 && chars[i - 1] != '_'
        invariant
            i <= chars@.len(),
            last_position(chars@, '_') == last_position(chars@.take(i as int), '_'),
        decreases i,
    {
        assert(chars@.take(i as int).drop_last() == chars@.take(i - 1));
        i = i - 1;
    }
    assert(chars@.take(chars@.len() as int) == chars@);
    if i > 0 {
        let at: usize = i - 1;
        assert(chars@.take(i as int).last() == '_');
        assert(last_position(chars@, '_') == Some(at as int));
        if chars.len() - at == 4 {
            let revision = is_digit_char(chars[at + 1]) && is_digit_char(chars[at + 2])
                && is_digit_char(chars[at + 3]);
            assert(revision == (forall|k: int|
                at < k < chars@.len() ==> is_digit(#[trigger] chars@[k]))) by {
                if revision {
                    assert forall|k: int| at < k < chars@.len() implies is_digit(
                        #[trigger] chars@[k],
                    ) by {
                        assert(k == at + 1 || k == at + 2 || k == at + 3);
                    }
                }
            }
            if revision {
                return at;
            }
        }
    }
    chars.len()
}

fn plausible_part_number(tail: &Vec<char>) -> (r: bool)
    ensures
        r == part_number_shaped(tail@),
{
    let mut digit = false;
    let mut letter = false;
    let mut k: usize = 0;
    while k < tail.len()
        invariant
            k <= tail@.len(),
            forall|j: int| 0 <= j < k ==> is_digit(#[trigger] tail@[j]) || is_letter(tail@[j]),
            digit == exists|j: int| 0 <= j < k && is_digit(#[trigger] tail@[j]),
            letter == exists|j: int| 0 <= j < k && is_letter(#[trigger] tail@[j]),
        decreases tail@.len() - k,
    {
        let c: char = tail[k];
        if is_digit_char(c) {
            digit = true;
        } else if is_letter_char(c) {
            letter = true;
        } else {
            return false;
        }
        k = k + 1;
    }
    digit && letter
}

/// Pull the 10-character spare part number off the tail of an ODX file
/// identifier: `"EV_ECM20TFS0208V0906259K"` gives `"8V0906259K"`.
///
/// A three-digit revision suffix (`"_001"`) is stripped first. [`None`] rather
/// than a guess when the tail is not part-number shaped.
pub fn spare_part_from_odx_identifier(ident: &str) -> (r: Option<String>)
    ensures
        opt(r) == part_from_odx(ident@),
{
    if !ident.is_ascii() {
        return None;
    }
    let chars = chars_of(ident);
    let end: usize = revision_end(&chars);
    if end < 10 {
        return None;
    }
    let tail = copy_chars(&chars, end - 10, end);
    assert(tail@ == without_revision(chars@).skip(end - 10));
    if plausible_part_number(&tail) {
        Some(string_of(&upper_chars(&tail)))
    } else {
        None
    }
}

fn is_digit_char(c: char) -> (r: bool)
    ensures
        r == is_digit(c),
{
    '0' <= c && c <= '9'
}

fn is_letter_char(c: char) -> (r: bool)
    ensures
        r == is_letter(c),
{
    ('a' <= c && c <= 'z') || ('A' <= c && c <= 'Z')
}

/// Pull the project prefix off the head of a Boot Loader Identification:
/// `"SC8.1 CB.00.00.I0 C02.00 SC8"` gives `"SC8"`.
pub fn project_from_boot_loader_identification(ident: &str) -> (r: Option<String>)
    ensures
        opt(r) == project_of(ident@),
{
    let chars = chars_of(ident);
    let mut letter = false;
    let mut i: usize = 0;
    let mut plain = true;
    assert(chars@.take(0) + head(chars@.skip(0)) == head(chars@)) by {
        assert(chars@.skip(0) == chars@);
    }
    while i < chars.len() && chars[i] != '.' && !white(chars[i])
        invariant
            i <= chars@.len(),
            head(chars@) == chars@.take(i as int) + head(chars@.skip(i as int)),
            plain == (forall|k: int|
                0 <= k < i ==> is_digit(#[trigger] chars@[k]) || is_letter(chars@[k])),
            letter == exists|k: int| 0 <= k < i && is_letter(#[trigger] chars@[k]),
        decreases chars@.len() - i,
    {
        let ghost rest = chars@.skip(i as int);
        assert(rest.skip(1) == chars@.skip(i + 1));
        assert(chars@.take(i as int) + (seq![rest[0]] + head(rest.skip(1))) == chars@.take(i + 1)
            + head(chars@.skip(i + 1)));
        if is_letter_char(chars[i]) {
            letter = true;
        } else if !is_digit_char(chars[i]) {
            plain = false;
        }
        i = i + 1;
    }
    let ghost h = chars@.take(i as int);
    assert(head(chars@) == h);
    assert(plain == (forall|k: int| 0 <= k < h.len() ==> is_digit(#[trigger] h[k]) || is_letter(h[k])))
        by {
        if plain {
            assert(forall|k: int| 0 <= k < h.len() ==> h[k] == chars@[k]);
        } else {
            let k = choose|k: int|
                0 <= k < i && !(is_digit(#[trigger] chars@[k]) || is_letter(chars@[k]));
            assert(h[k] == chars@[k]);
        }
    }
    assert(letter == exists|k: int| 0 <= k < h.len() && is_letter(#[trigger] h[k])) by {
        if letter {
            let k = choose|k: int| 0 <= k < i && is_letter(#[trigger] chars@[k]);
            assert(is_letter(h[k]));
        } else {
            assert(forall|k: int| 0 <= k < h.len() ==> h[k] == chars@[k]);
        }
    }
    if 2 <= i && i <= 4 && plain && letter {
        Some(string_of(&copy_chars(&chars, 0, i)))
    } else {
        None
    }
}

fn add_part(out: &mut String, count: usize, before: &str, value: &str, after: &str, Ghost(
    parts,
): Ghost<Seq<Seq<char>>>) -> (n: usize)
    requires
        count == parts.len(),
        count < 10,
        old(out)@ == joined(parts, ", "@),
    ensures
        n == count + 1,
        final(out)@ == joined(parts.push(before@ + value@ + after@), ", "@),
{
    if count > 0 {
        out.push_str(", ");
    }
    out.push_str(before);
    out.push_str(value);
    out.push_str(after);
    proof {
        let next = parts.push(before@ + value@ + after@);
        assert(next.drop_last() == parts);
        if count == 0 {
            assert(parts == Seq::<Seq<char>>::empty());
        }
        assert(out@ == joined(next, ", "@));
    }
    count + 1
}

impl IdentStrings {
    /// Decode the identification DIDs out of a raw DID map.
    pub fn from_dids(dids: &HashMap<u16, Vec<u8>>) -> (r: Self)
        ensures
            r@ == strings_of(did_map(dids@)),
    {
        Self {
            odx_file_identifier: decode(dids, DID_ODX_FILE_IDENTIFIER),
            odx_file_version: decode(dids, DID_ODX_FILE_VERSION),
            spare_part_number: decode(dids, DID_SPARE_PART_NUMBER),
            system_name: decode(dids, DID_SYSTEM_NAME),
            boot_loader_identification: decode(dids, DID_BOOT_LOADER_IDENTIFICATION),
        }
    }

    /// The project prefix the bootloader reports for itself, e.g. `"SC8"`, or
    /// [`None`] when the record was absent or not project-shaped.
    pub fn boot_loader_project(&self) -> (r: Option<String>)
        ensures
            opt(r) == self@.project(),
    {
        match &self.boot_loader_identification {
            Some(s) => project_from_boot_loader_identification(s.as_str()),
            None => None,
        }
    }

    /// The best available spare part number: the dedicated record, else the one
    /// embedded in the ODX file identifier.
    pub fn effective_spare_part_number(&self) -> (r: Option<String>)
        ensures
            opt(r) == self@.part_number(),
    {
        match &self.spare_part_number {
            Some(pn) => {
                let chars = chars_of(pn.as_str());
                Some(string_of(&upper_chars(&chars)))
            },
            None => match &self.odx_file_identifier {
                Some(id) => spare_part_from_odx_identifier(id.as_str()),
                None => None,
            },
        }
    }

    /// A one-line summary for the reason text and for logs.
    pub fn summary(&self) -> (s: String)
        ensures
            s@ == self@.summary(),
    {
        let mut out = String::new();
        let mut n: usize = 0;
        let ghost mut parts = Seq::<Seq<char>>::empty();
        if let Some(v) = &self.odx_file_identifier {
            n = add_part(&mut out, n, "ODX ident ", v.as_str(), "", Ghost(parts));
            proof {
                reveal_strlit("");
                assert("ODX ident "@ + v@ + ""@ == "ODX ident "@ + v@);
                parts = parts.push("ODX ident "@ + v@);
            }
        }
        if let Some(v) = &self.odx_file_version {
            n = add_part(&mut out, n, "version ", v.as_str(), "", Ghost(parts));
            proof {
                reveal_strlit("");
                assert("version "@ + v@ + ""@ == "version "@ + v@);
                parts = parts.push("version "@ + v@);
            }
        }
        if let Some(v) = &self.spare_part_number {
            n = add_part(&mut out, n, "part number ", v.as_str(), "", Ghost(parts));
            proof {
                reveal_strlit("");
                assert("part number "@ + v@ + ""@ == "part number "@ + v@);
                parts = parts.push("part number "@ + v@);
            }
        }
        if let Some(v) = &self.system_name {
            n = add_part(&mut out, n, "system \"", v.as_str(), "\"", Ghost(parts));
            proof {
                parts = parts.push("system \""@ + v@ + "\""@);
            }
        }
        if let Some(v) = &self.boot_loader_identification {
            n = add_part(&mut out, n, "bootloader \"", v.as_str(), "\"", Ghost(parts));
            proof {
                parts = parts.push("bootloader \""@ + v@ + "\""@);
            }
        }
        assert(parts == self@.parts());
        if n == 0 {
            "no identification strings".to_owned()
        } else {
            out
        }
    }
}

/// How sure we are about a candidate, ordered least to most certain.
#[derive(Debug, Clone, Copy, PartialEq, Eq, PartialOrd, Ord, Structural)]
pub enum Confidence {
    /// At least one other candidate on this channel cannot be told apart from
    /// this one. The user must choose.
    Ambiguous,
    /// Reachable on this channel, but nothing in the response singles it out.
    Possible,
    /// The identification strings match this module's known box code.
    Likely,
    /// No other supported module can answer on this channel.
    Confirmed,
}

/// One module that could be the ECU that answered.
#[derive(Debug, Clone)]
pub struct Candidate<'a> {
    /// The flashing configuration this candidate selects.
    pub flash_info: &'a FlashInfo,
    /// Registry name.
    pub module_name: &'static str,
    /// How sure we are.
    pub confidence: Confidence,
    /// The strings the ECU returned.
    pub strings: IdentStrings,
    /// Why this candidate is being offered, in the user's language.
    pub reason: String,
}

/// A candidate as a value.
pub struct Offer {
    pub flash_info: FlashInfo,
    pub module_name: Seq<char>,
    pub confidence: Confidence,
    pub strings: Strings,
    pub reason: Seq<char>,
}

impl<'a> View for Candidate<'a> {
    type V = Offer;

    open spec fn view(&self) -> Offer {
        Offer {
            flash_info: *self.flash_info,
            module_name: self.module_name@,
            confidence: self.confidence,
            strings: self.strings@,
            reason: self.reason@,
        }
    }
}

/// What a list of candidates offers.
pub open spec fn offers<'a>(v: Seq<Candidate<'a>>) -> Seq<Offer> {
    v.map_values(|c: Candidate<'a>| c@)
}

/// One candidate, or none if the registry does not know the name.
pub open spec fn offer(
    registry: Registry,
    name: Seq<char>,
    confidence: Confidence,
    strings: Strings,
    reason: Seq<char>,
) -> Seq<Offer> {
    match registry.spec_get(name) {
        Some(flash_info) => seq![
            Offer { flash_info, module_name: name, confidence, strings, reason },
        ],
        None => Seq::empty(),
    }
}

fn copy_opt(s: &Option<String>) -> (r: Option<String>)
    ensures
        opt(r) == opt(*s),
{
    match s {
        Some(t) => Some(t.clone()),
        None => None,
    }
}

fn copy_strings(s: &IdentStrings) -> (r: IdentStrings)
    ensures
        r@ == s@,
{
    IdentStrings {
        odx_file_identifier: copy_opt(&s.odx_file_identifier),
        odx_file_version: copy_opt(&s.odx_file_version),
        spare_part_number: copy_opt(&s.spare_part_number),
        system_name: copy_opt(&s.system_name),
        boot_loader_identification: copy_opt(&s.boot_loader_identification),
    }
}

/// Add one candidate, skipping it if the registry does not know the name.
fn add_candidate<'a>(
    out: &mut Vec<Candidate<'a>>,
    registry: &'a Registry,
    module_name: &'static str,
    confidence: Confidence,
    strings: &IdentStrings,
    reason: String,
)
    ensures
        offers(final(out)@) == offers(old(out)@) + offer(
            *registry,
            module_name@,
            confidence,
            strings@,
            reason@,
        ),
{
    let ghost before = out@;
    if let Some(flash_info) = registry.get_flash_info(module_name) {
        let c = Candidate {
            flash_info,
            module_name,
            confidence,
            strings: copy_strings(strings),
            reason,
        };
        out.push(c);
        assert(offers(out@) == offers(before).push(c@));
    }
    assert(offers(out@) == offers(before) + offer(
        *registry,
        module_name@,
        confidence,
        strings@,
        reason@,
    ));
}

/// A module of the registry has the given project name, in any case.
pub open spec fn has_project(registry: Registry, name: Seq<char>, project: Seq<char>) -> bool {
    match registry.spec_get(name) {
        Some(f) => lowered(f.project_name@) == lowered(project),
        None => false,
    }
}

fn same_project(a: &str, b: &str) -> (r: bool)
    ensures
        r == (lowered(a@) == lowered(b@)),
{
    let x = chars_of(a);
    let y = chars_of(b);
    chars_eq(&lower_chars(&x), &lower_chars(&y))
}

fn module_has_project(registry: &Registry, name: &str, project: &str) -> (r: bool)
    ensures
        r == has_project(*registry, name@, project@),
{
    match registry.get_flash_info(name) {
        Some(f) => same_project(f.project_name.as_str(), project),
        None => false,
    }
}

/// The modules among the first `n` that have the project name.
pub open spec fn matching_below(
    registry: Registry,
    modules: Seq<Seq<char>>,
    project: Seq<char>,
    n: nat,
) -> Seq<Seq<char>>
    decreases n,
{
    if n == 0 {
        Seq::empty()
    } else {
        let before = matching_below(registry, modules, project, (n - 1) as nat);
        if has_project(registry, modules[n - 1], project) {
            before.push(modules[n - 1])
        } else {
            before
        }
    }
}

/// A row of the registry has a project name, and it is this one.
pub open spec fn row_has_project(registry: Registry, i: int, project: Seq<char>) -> bool {
    registry.modules@[i].1.project_name@.len() > 0 && lowered(
        registry.modules@[i].1.project_name@,
    ) == lowered(project)
}

/// The rows among the first `n` that have the project name.
pub open spec fn rows_below(registry: Registry, project: Seq<char>, n: nat) -> Seq<int>
    decreases n,
{
    if n == 0 {
        Seq::empty()
    } else {
        let before = rows_below(registry, project, (n - 1) as nat);
        if row_has_project(registry, n - 1, project) {
            before.push(n - 1)
        } else {
            before
        }
    }
}

/// The name of the one module of the registry that has the project name.
pub open spec fn project_owner(registry: Registry, project: Seq<char>) -> Option<Seq<char>> {
    let rows = rows_below(registry, project, registry.modules@.len());
    if rows.len() == 1 {
        Some(registry.modules@[rows[0]].0@)
    } else {
        None
    }
}

/// The registry module with the given project name, when exactly one has it. A
/// name that two modules share names neither.
pub fn module_with_project_name<'a>(registry: &'a Registry, project: &str) -> (r: Option<&'a str>)
    ensures
        match r {
            Some(name) => project_owner(*registry, project@) == Some(name@),
            None => project_owner(*registry, project@) is None,
        },
{
    let mut hits: usize = 0;
    let mut only: usize = 0;
    let mut i: usize = 0;
    while i < registry.modules.len()
        invariant
            i <= registry.modules@.len(),
            hits <= i,
            hits == rows_below(*registry, project@, i as nat).len(),
            hits > 0 ==> only < i && rows_below(*registry, project@, i as nat)[hits - 1] == only,
        decreases registry.modules@.len() - i,
    {
        let name = &registry.modules[i].1.project_name;
        if !name.as_str().is_empty() && same_project(name.as_str(), project) {
            hits = hits + 1;
            only = i;
        }
        i = i + 1;
    }
    if hits == 1 {
        Some(registry.modules[only].0.as_str())
    } else {
        None
    }
}

/// Why the bootloader's own project name settles the channel.
pub open spec fn named_reason(project: Seq<char>, reported: Seq<char>, only: Seq<char>) -> Seq<
    char,
> {
    "The bootloader identifies itself as project "@ + project + " (\""@ + reported
        + "\"), which is the "@ + only
        + " project name. No other module on this channel uses it."@
}

/// Why the bootloader's own project name fits nothing on the channel.
pub open spec fn foreign_reason(
    project: Seq<char>,
    reported: Seq<char>,
    owner: Option<Seq<char>>,
) -> Seq<char> {
    match owner {
        Some(other) => "The bootloader identifies itself as project "@ + project + " (\""@ + reported
            + "\"), which is the "@ + other
            + " project name — not one of the modules this channel flashes. Only pick one of these if you know the bootloader is lying about itself."@,
        None => "The bootloader identifies itself as project "@ + project + " (\""@ + reported
            + "\"), which matches none of the modules this tool knows. Flashing any of these would be a guess."@,
    }
}

/// The first `n` modules, each offered as possible.
pub open spec fn possible_below(
    registry: Registry,
    modules: Seq<Seq<char>>,
    strings: Strings,
    reason: Seq<char>,
    n: nat,
) -> Seq<Offer>
    decreases n,
{
    if n == 0 {
        Seq::empty()
    } else {
        possible_below(registry, modules, strings, reason, (n - 1) as nat) + offer(
            registry,
            modules[n - 1],
            Confidence::Possible,
            strings,
            reason,
        )
    }
}

/// What the bootloader's own project prefix decides. `None` falls through to
/// weaker evidence: the record was unreadable, or ambiguous on this channel. A
/// prefix of a module the channel does not offer is not ignored.
pub open spec fn boot_loader_offers(
    registry: Registry,
    strings: Strings,
    modules: Seq<Seq<char>>,
) -> Option<Seq<Offer>> {
    match strings.project() {
        None => None,
        Some(project) => {
            let reported = strings.boot_loader_identification->0;
            let matching = matching_below(registry, modules, project, modules.len());
            if matching.len() == 1 {
                Some(
                    offer(
                        registry,
                        matching[0],
                        Confidence::Confirmed,
                        strings,
                        named_reason(project, reported, matching[0]),
                    ),
                )
            } else if matching.len() > 1 {
                None
            } else {
                let all = possible_below(
                    registry,
                    modules,
                    strings,
                    foreign_reason(project, reported, project_owner(registry, project)),
                    modules.len(),
                );
                if all.len() == 0 {
                    None
                } else {
                    Some(all)
                }
            }
        },
    }
}

fn foreign_text(project: &str, reported: &str, owner: Option<&str>) -> (s: String)
    ensures
        s@ == foreign_reason(
            project@,
            reported@,
            match owner {
                Some(o) => Some(o@),
                None => None,
            },
        ),
{
    let mut s = "The bootloader identifies itself as project ".to_owned();
    s.push_str(project);
    s.push_str(" (\"");
    s.push_str(reported);
    match owner {
        Some(other) => {
            s.push_str("\"), which is the ");
            s.push_str(other);
            s.push_str(
                " project name — not one of the modules this channel flashes. Only pick one of these if you know the bootloader is lying about itself.",
            );
        },
        None => {
            s.push_str(
                "\"), which matches none of the modules this tool knows. Flashing any of these would be a guess.",
            );
        },
    }
    s
}

/// Decide a channel from the bootloader's own project prefix, when it read.
pub fn boot_loader_candidates<'a>(
    strings: &IdentStrings,
    channel: &IdentChannel,
    registry: &'a Registry,
) -> (r: Option<Vec<Candidate<'a>>>)
    ensures
        match r {
            Some(v) => boot_loader_offers(*registry, strings@, channel@.modules) == Some(
                offers(v@),
            ),
            None => boot_loader_offers(*registry, strings@, channel@.modules) is None,
        },
{
    let project = match strings.boot_loader_project() {
        Some(p) => p,
        None => {
            return None;
        },
    };
    let reported = match &strings.boot_loader_identification {
        Some(s) => s,
        None => {
            return None;
        },
    };
    let ghost modules = channel@.modules;
    let mut hits: usize = 0;
    let mut only: usize = 0;
    let mut i: usize = 0;
    while i < channel.modules.len()
        invariant
            i <= channel.modules@.len(),
            modules == channel@.modules,
            hits <= i,
            hits == matching_below(*registry, modules, project@, i as nat).len(),
            hits > 0 ==> only < i && matching_below(*registry, modules, project@, i as nat)[hits
                - 1] == channel.modules@[only as int]@,
        decreases channel.modules@.len() - i,
    {
        assert(modules[i as int] == channel.modules@[i as int]@);
        if module_has_project(registry, channel.modules[i], project.as_str()) {
            hits = hits + 1;
            only = i;
        }
        i = i + 1;
    }
    let mut out: Vec<Candidate<'a>> = Vec::new();
    assert(offers(out@) == Seq::<Offer>::empty());
    if hits == 1 {
        let name = channel.modules[only];
        let mut reason = "The bootloader identifies itself as project ".to_owned();
        reason.push_str(project.as_str());
        reason.push_str(" (\"");
        reason.push_str(reported.as_str());
        reason.push_str("\"), which is the ");
        reason.push_str(name);
        reason.push_str(" project name. No other module on this channel uses it.");
        add_candidate(&mut out, registry, name, Confidence::Confirmed, strings, reason);
        assert(offers(out@) == offer(
            *registry,
            name@,
            Confidence::Confirmed,
            strings@,
            named_reason(project@, reported@, name@),
        ));
        return Some(out);
    }
    if hits > 1 {
        return None;
    }
    let owner = module_with_project_name(registry, project.as_str());
    let ghost reason = foreign_reason(project@, reported@, project_owner(*registry, project@));
    let mut k: usize = 0;
    while k < channel.modules.len()
        invariant
            k <= channel.modules@.len(),
            modules == channel@.modules,
            reason == foreign_reason(project@, reported@, project_owner(*registry, project@)),
            match owner {
                Some(o) => project_owner(*registry, project@) == Some(o@),
                None => project_owner(*registry, project@) is None,
            },
            offers(out@) == possible_below(*registry, modules, strings@, reason, k as nat),
        decreases channel.modules@.len() - k,
    {
        assert(modules[k as int] == channel.modules@[k as int]@);
        let text = foreign_text(project.as_str(), reported.as_str(), owner);
        add_candidate(
            &mut out,
            registry,
            channel.modules[k],
            Confidence::Possible,
            strings,
            text,
        );
        k = k + 1;
    }
    assert(offers(out@).len() == out@.len());
    if out.len() == 0 {
        None
    } else {
        Some(out)
    }
}

/// Spare part numbers of the DQ250 begin with this: a hint, not a rule.
pub const DQ250_PART_NUMBER_PREFIX: &'static str = "0D9300012";

/// Marker that a control module is a petrol engine ECU in VW's ODX naming.
pub const SIMOS_ODX_PREFIX: &'static str = "EV_ECM";

/// Known-good box codes per Simos variant. The only evidence that ties a part
/// number to a variant, so it is a positive match only.
pub open spec fn box_codes() -> Seq<(Seq<char>, Seq<char>)> {
    seq![
        ("simos18"@, "8V0906259H"@),
        ("simos1810"@, "5G0906259Q"@),
        ("simos184"@, "80A906259F"@),
    ]
}

/// The rows of a table of names and codes.
pub open spec fn name_codes(v: Seq<(&'static str, &'static str)>) -> Seq<(Seq<char>, Seq<char>)> {
    v.map_values(|p: (&'static str, &'static str)| (p.0@, p.1@))
}

/// Known-good box codes per Simos variant.
pub fn simos_variant_box_codes() -> (r: [(&'static str, &'static str); 3])
    ensures
        name_codes(r@) == box_codes(),
{
    let r: [(&'static str, &'static str); 3] = [
        ("simos18", "8V0906259H"),
        ("simos1810", "5G0906259Q"),
        ("simos184", "80A906259F"),
    ];
    assert(name_codes(r@) == box_codes());
    r
}

/// The variant whose box code a part number starts with.
pub open spec fn variant_of(part: Option<Seq<char>>) -> Option<Seq<char>> {
    match part {
        None => None,
        Some(pn) => if starts_with(pn, box_codes()[0].1) {
            Some(box_codes()[0].0)
        } else if starts_with(pn, box_codes()[1].1) {
            Some(box_codes()[1].0)
        } else if starts_with(pn, box_codes()[2].1) {
            Some(box_codes()[2].0)
        } else {
            None
        },
    }
}

/// What the identifier says about being an engine ECU; `None` if it was not
/// read.
pub open spec fn ecm_like(strings: Strings) -> Option<bool> {
    match strings.odx_file_identifier {
        Some(id) => Some(starts_with(id, SIMOS_ODX_PREFIX@)),
        None => None,
    }
}

/// How sure we are of one Simos variant.
pub open spec fn variant_confidence(
    name: Seq<char>,
    matched: Option<Seq<char>>,
    ecm: Option<bool>,
) -> Confidence {
    match matched {
        Some(hit) => if hit == name {
            Confidence::Likely
        } else {
            Confidence::Possible
        },
        None => if ecm == Some(false) {
            Confidence::Possible
        } else {
            Confidence::Ambiguous
        },
    }
}

/// Why one Simos variant is offered.
pub open spec fn variant_reason(
    name: Seq<char>,
    code: Seq<char>,
    strings: Strings,
    matched: Option<Seq<char>>,
    ecm: Option<bool>,
) -> Seq<char> {
    match matched {
        Some(hit) => if hit == name {
            "Spare part number "@ + (match strings.part_number() {
                Some(p) => p,
                None => "?"@,
            }) + " matches the known "@ + name + " box code "@ + code + " ("@ + strings.summary()
                + ")."@
        } else {
            "Also flashable on 0x7E0, but the part number matches "@ + hit
                + " instead. Only pick "@ + name + " if you know this ECU is one."@
        },
        None => if ecm == Some(false) {
            "Answered on the engine channel 0x7E0, but the ODX identifier does not start with "@
                + SIMOS_ODX_PREFIX@ + " — this may not be a Simos ECU at all ("@
                + strings.summary() + ")."@
        } else {
            "Simos 18 variants share 0x7E0 and nothing read back distinguishes them ("@
                + strings.summary() + "). Choose the variant that matches your ECU."@
        },
    }
}

/// The first `n` Simos variants, as the part number ranks them.
pub open spec fn variants_below(registry: Registry, strings: Strings, n: nat) -> Seq<Offer>
    decreases n,
{
    if n == 0 {
        Seq::empty()
    } else {
        let (name, code) = box_codes()[n - 1];
        let matched = variant_of(strings.part_number());
        let ecm = ecm_like(strings);
        variants_below(registry, strings, (n - 1) as nat) + offer(
            registry,
            name,
            variant_confidence(name, matched, ecm),
            strings,
            variant_reason(name, code, strings, matched, ecm),
        )
    }
}

/// The offers of one confidence, in order.
pub open spec fn of_confidence(all: Seq<Offer>, confidence: Confidence) -> Seq<Offer>
    decreases all.len(),
{
    if all.len() == 0 {
        Seq::empty()
    } else {
        let before = of_confidence(all.drop_last(), confidence);
        if all.last().confidence == confidence {
            before.push(all.last())
        } else {
            before
        }
    }
}

/// The offers best first; those of one confidence stay in order.
pub open spec fn ranked(all: Seq<Offer>) -> Seq<Offer> {
    of_confidence(all, Confidence::Confirmed) + of_confidence(all, Confidence::Likely)
        + of_confidence(all, Confidence::Possible) + of_confidence(all, Confidence::Ambiguous)
}

fn copy_candidate<'a>(c: &Candidate<'a>) -> (r: Candidate<'a>)
    ensures
        r@ == c@,
{
    Candidate {
        flash_info: c.flash_info,
        module_name: c.module_name,
        confidence: c.confidence,
        strings: copy_strings(&c.strings),
        reason: c.reason.clone(),
    }
}

fn append_of_confidence<'a>(
    out: &mut Vec<Candidate<'a>>,
    all: &Vec<Candidate<'a>>,
    confidence: Confidence,
)
    ensures
        offers(final(out)@) == offers(old(out)@) + of_confidence(offers(all@), confidence),
{
    let ghost start = offers(out@);
    let ghost list = offers(all@);
    let mut i: usize = 0;
    assert(list.take(0) == Seq::<Offer>::empty());
    while i < all.len()
        invariant
            i <= all@.len(),
            list == offers(all@),
            start == offers(old(out)@),
            offers(out@) == start + of_confidence(list.take(i as int), confidence),
        decreases all@.len() - i,
    {
        let ghost next = list.take(i + 1);
        assert(next.drop_last() == list.take(i as int));
        assert(next.last() == all@[i as int]@);
        let ghost before = out@;
        if all[i].confidence == confidence {
            let c = copy_candidate(&all[i]);
            out.push(c);
            assert(offers(out@) == offers(before).push(all@[i as int]@));
        }
        assert(offers(out@) == start + of_confidence(next, confidence));
        i = i + 1;
    }
    assert(list.take(i as int) == list);
}

/// Order candidates best first, keeping the order within one confidence.
pub fn rank<'a>(all: &Vec<Candidate<'a>>) -> (r: Vec<Candidate<'a>>)
    ensures
        offers(r@) == ranked(offers(all@)),
{
    let mut out: Vec<Candidate<'a>> = Vec::new();
    assert(offers(out@) == Seq::<Offer>::empty());
    append_of_confidence(&mut out, all, Confidence::Confirmed);
    append_of_confidence(&mut out, all, Confidence::Likely);
    append_of_confidence(&mut out, all, Confidence::Possible);
    append_of_confidence(&mut out, all, Confidence::Ambiguous);
    assert(offers(out@) == ranked(offers(all@)));
    out
}

fn matched_variant(part: &Option<String>) -> (r: Option<&'static str>)
    ensures
        variant_of(opt(*part)) == match r {
            Some(name) => Some(name@),
            None => None,
        },
{
    let codes = simos_variant_box_codes();
    assert(box_codes()[0] == (codes@[0].0@, codes@[0].1@));
    assert(box_codes()[1] == (codes@[1].0@, codes@[1].1@));
    assert(box_codes()[2] == (codes@[2].0@, codes@[2].1@));
    match part {
        None => None,
        Some(pn) => {
            let chars = chars_of(pn.as_str());
            if has_prefix(&chars, codes[0].1) {
                Some(codes[0].0)
            } else if has_prefix(&chars, codes[1].1) {
                Some(codes[1].0)
            } else if has_prefix(&chars, codes[2].1) {
                Some(codes[2].0)
            } else {
                None
            }
        },
    }
}

fn variant_text(
    name: &'static str,
    code: &'static str,
    strings: &IdentStrings,
    part: &Option<String>,
    matched: Option<&'static str>,
    ecm: Option<bool>,
) -> (r: (Confidence, String))
    requires
        opt(*part) == strings@.part_number(),
    ensures
        ({
            let hit = match matched {
                Some(m) => Some(m@),
                None => None,
            };
            &&& r.0 == variant_confidence(name@, hit, ecm)
            &&& r.1@ == variant_reason(name@, code@, strings@, hit, ecm)
        }),
{
    let summary = strings.summary();
    match matched {
        Some(hit) => {
            if crate::text::str_eq(hit, name) {
                let mut s = "Spare part number ".to_owned();
                match part {
                    Some(p) => {
                        s.push_str(p.as_str());
                    },
                    None => {
                        s.push_str("?");
                    },
                }
                s.push_str(" matches the known ");
                s.push_str(name);
                s.push_str(" box code ");
                s.push_str(code);
                s.push_str(" (");
                s.push_str(summary.as_str());
                s.push_str(").");
                (Confidence::Likely, s)
            } else {
                let mut s = "Also flashable on 0x7E0, but the part number matches ".to_owned();
                s.push_str(hit);
                s.push_str(" instead. Only pick ");
                s.push_str(name);
                s.push_str(" if you know this ECU is one.");
                (Confidence::Possible, s)
            }
        },
        None => {
            let foreign = match ecm {
                Some(like) => !like,
                None => false,
            };
            if foreign {
                let mut s = "Answered on the engine channel 0x7E0, but the ODX identifier does not start with ".to_owned();
                s.push_str(SIMOS_ODX_PREFIX);
                s.push_str(" — this may not be a Simos ECU at all (");
                s.push_str(summary.as_str());
                s.push_str(").");
                (Confidence::Possible, s)
            } else {
                let mut s = "Simos 18 variants share 0x7E0 and nothing read back distinguishes them (".to_owned();
                s.push_str(summary.as_str());
                s.push_str("). Choose the variant that matches your ECU.");
                (Confidence::Ambiguous, s)
            }
        },
    }
}

/// What the engine channel offers, strongest evidence first: the bootloader's
/// own project prefix, else the spare part number.
pub open spec fn simos_offers(registry: Registry, strings: Strings, modules: Seq<Seq<char>>) -> Seq<
    Offer,
> {
    match boot_loader_offers(registry, strings, modules) {
        Some(all) => all,
        None => ranked(variants_below(registry, strings, 3)),
    }
}

/// Rank the Simos variants.
pub fn simos_candidates<'a>(
    strings: &IdentStrings,
    channel: &IdentChannel,
    registry: &'a Registry,
) -> (r: Vec<Candidate<'a>>)
    ensures
        offers(r@) == simos_offers(*registry, strings@, channel@.modules),
{
    if let Some(c) = boot_loader_candidates(strings, channel, registry) {
        return c;
    }
    let part = strings.effective_spare_part_number();
    let matched = matched_variant(&part);
    let ecm = match &strings.odx_file_identifier {
        Some(id) => {
            let chars = chars_of(id.as_str());
            Some(has_prefix(&chars, SIMOS_ODX_PREFIX))
        },
        None => None,
    };
    assert(ecm == ecm_like(strings@));
    let codes = simos_variant_box_codes();
    let mut out: Vec<Candidate<'a>> = Vec::new();
    let mut i: usize = 0;
    assert(offers(out@) == Seq::<Offer>::empty());
    while i < 3
        invariant
            i <= 3,
            name_codes(codes@) == box_codes(),
            opt(part) == strings@.part_number(),
            variant_of(opt(part)) == match matched {
                Some(name) => Some(name@),
                None => None,
            },
            ecm == ecm_like(strings@),
            offers(out@) == variants_below(*registry, strings@, i as nat),
        decreases 3 - i,
    {
        let (name, code) = codes[i];
        assert(box_codes()[i as int] == (name@, code@));
        let (confidence, reason) = variant_text(name, code, strings, &part, matched, ecm);
        add_candidate(&mut out, registry, name, confidence, strings, reason);
        i = i + 1;
    }
    rank(&out)
}

/// Why neither transmission controller can be told apart.
pub open spec fn shared_reason(strings: Strings) -> Seq<char> {
    "DQ250 and DQ381 both answer on 0x7E1 and report the same records, so this cannot be decided automatically ("@
        + strings.summary() + ")."@
}

/// Why the DQ250 is offered: a known part number prefix is told, but decides
/// nothing.
pub open spec fn dq250_reason(strings: Strings) -> Seq<char> {
    match strings.part_number() {
        Some(pn) => if starts_with(pn, DQ250_PART_NUMBER_PREFIX@) {
            "Spare part number "@ + pn + " starts with "@ + DQ250_PART_NUMBER_PREFIX@
                + ", which is the only DQ250 part number known to this tool — a hint, not proof. "@
                + shared_reason(strings)
        } else {
            shared_reason(strings)
        },
        None => shared_reason(strings),
    }
}

/// What the transmission channel offers: always both controllers, without any
/// preference.
pub open spec fn transmission_offers(registry: Registry, strings: Strings) -> Seq<Offer> {
    offer(registry, "dq250"@, Confidence::Ambiguous, strings, dq250_reason(strings)) + offer(
        registry,
        "dq381"@,
        Confidence::Ambiguous,
        strings,
        shared_reason(strings),
    )
}

fn shared_text(strings: &IdentStrings) -> (s: String)
    ensures
        s@ == shared_reason(strings@),
{
    let summary = strings.summary();
    let mut s = "DQ250 and DQ381 both answer on 0x7E1 and report the same records, so this cannot be decided automatically (".to_owned();
    s.push_str(summary.as_str());
    s.push_str(").");
    s
}

/// Rank the two transmission controllers.
///
/// They cannot be told apart, so both come back as [`Confidence::Ambiguous`];
/// a known part number only changes the explanation.
pub fn transmission_candidates<'a>(strings: &IdentStrings, registry: &'a Registry) -> (r: Vec<
    Candidate<'a>,
>)
    ensures
        offers(r@) == transmission_offers(*registry, strings@),
{
    let shared = shared_text(strings);
    let dq250 = match strings.effective_spare_part_number() {
        Some(pn) => {
            let chars = chars_of(pn.as_str());
            if has_prefix(&chars, DQ250_PART_NUMBER_PREFIX) {
                let mut s = "Spare part number ".to_owned();
                s.push_str(pn.as_str());
                s.push_str(" starts with ");
                s.push_str(DQ250_PART_NUMBER_PREFIX);
                s.push_str(
                    ", which is the only DQ250 part number known to this tool — a hint, not proof. ",
                );
                s.push_str(shared.as_str());
                s
            } else {
                shared.clone()
            }
        },
        None => shared.clone(),
    };
    let mut out: Vec<Candidate<'a>> = Vec::new();
    assert(offers(out@) == Seq::<Offer>::empty());
    add_candidate(&mut out, registry, "dq250", Confidence::Ambiguous, strings, dq250);
    add_candidate(&mut out, registry, "dq381", Confidence::Ambiguous, strings, shared);
    assert(offers(out@) == transmission_offers(*registry, strings@));
    out
}

/// What the channel of the AWD coupler offers.
pub open spec fn haldex_offers(registry: Registry, strings: Strings) -> Seq<Offer> {
    offer(
        registry,
        "haldex"@,
        Confidence::Confirmed,
        strings,
        "0x70F/0x779 is used only by the Haldex AWD coupler among the supported modules ("@
            + strings.summary() + ")."@,
    )
}

/// The Haldex coupler is the only supported module on its channel, so an answer
/// resolves it outright.
pub fn haldex_candidates<'a>(strings: &IdentStrings, registry: &'a Registry) -> (r: Vec<
    Candidate<'a>,
>)
    ensures
        offers(r@) == haldex_offers(*registry, strings@),
{
    let summary = strings.summary();
    let mut reason = "0x70F/0x779 is used only by the Haldex AWD coupler among the supported modules (".to_owned();
    reason.push_str(summary.as_str());
    reason.push_str(").");
    let mut out: Vec<Candidate<'a>> = Vec::new();
    assert(offers(out@) == Seq::<Offer>::empty());
    add_candidate(&mut out, registry, "haldex", Confidence::Confirmed, strings, reason);
    assert(offers(out@) == haldex_offers(*registry, strings@));
    out
}

/// What a DID map offers on a channel.
pub open spec fn channel_offers(
    registry: Registry,
    dids: Map<u16, Seq<u8>>,
    channel: Channel,
) -> Seq<Offer> {
    if dids.dom() == Set::<u16>::empty() {
        Seq::empty()
    } else {
        strings_offers(registry, strings_of(dids), channel)
    }
}

/// What identification strings offer on a channel.
pub open spec fn strings_offers(registry: Registry, strings: Strings, channel: Channel) -> Seq<
    Offer,
> {
    match channel.kind {
        ChannelKind::SimosEngine => simos_offers(registry, strings, channel.modules),
        ChannelKind::Transmission => transmission_offers(registry, strings),
        ChannelKind::HaldexAwd => haldex_offers(registry, strings),
    }
}

/// Rank the modules of a channel that fit some identification strings, best
/// first.
pub fn candidates_from_strings<'a>(
    strings: &IdentStrings,
    channel: &IdentChannel,
    registry: &'a Registry,
) -> (r: Vec<Candidate<'a>>)
    ensures
        offers(r@) == strings_offers(*registry, strings@, channel@),
{
    match channel.kind {
        ChannelKind::SimosEngine => simos_candidates(strings, channel, registry),
        ChannelKind::Transmission => transmission_candidates(strings, registry),
        ChannelKind::HaldexAwd => haldex_candidates(strings, registry),
    }
}

/// Rank the modules that could have produced this DID map, best first.
///
/// An empty map is not evidence of anything, so the result is empty.
pub fn candidates_from_dids<'a>(
    dids: &HashMap<u16, Vec<u8>>,
    channel: &IdentChannel,
    registry: &'a Registry,
) -> (r: Vec<Candidate<'a>>)
    ensures
        offers(r@) == channel_offers(*registry, did_map(dids@), channel@),
{
    assert(did_map(dids@).dom() == dids@.dom());
    if dids.is_empty() {
        assert(dids@.dom() == Set::<u16>::empty());
        let out: Vec<Candidate<'a>> = Vec::new();
        assert(offers(out@) == Seq::<Offer>::empty());
        return out;
    }
    let strings = IdentStrings::from_dids(dids);
    candidates_from_strings(&strings, channel, registry)
}

/// The result of probing one channel.
#[derive(Debug, Clone)]
pub struct ChannelIdentification<'a> {
    /// The channel that answered.
    pub channel: IdentChannel,
    /// Raw DID bytes exactly as read.
    pub dids: HashMap<u16, Vec<u8>>,
    /// Ranked best-first; may hold more than one entry.
    pub candidates: Vec<Candidate<'a>>,
}

impl<'a> ChannelIdentification<'a> {
    /// True when the user has to break a tie.
    pub fn is_ambiguous(&self) -> (r: bool)
        ensures
            r == (self.candidates@.len() > 1 && forall|i: int|
                0 <= i < self.candidates@.len() ==> (#[trigger] self.candidates@[i]).confidence
                    == Confidence::Ambiguous),
    {
        if self.candidates.len() <= 1 {
            return false;
        }
        let mut i: usize = 0;
        while i < self.candidates.len()
            invariant
                i <= self.candidates@.len(),
                forall|j: int|
                    0 <= j < i ==> (#[trigger] self.candidates@[j]).confidence
                        == Confidence::Ambiguous,
            decreases self.candidates@.len() - i,
        {
            if self.candidates[i].confidence != Confidence::Ambiguous {
                return false;
            }
            i = i + 1;
        }
        true
    }

    /// The single answer, when there is one.
    pub fn resolved(&self) -> (r: Option<&Candidate<'a>>)
        ensures
            r is Some <==> self.candidates@.len() == 1,
            r matches Some(c) ==> *c == self.candidates@[0],
    {
        if self.candidates.len() == 1 {
            Some(&self.candidates[0])
        } else {
            None
        }
    }
}

/// A DID map after some answers came in. A refused DID is simply absent.
pub open spec fn answered(
    dids: Map<u16, Seq<u8>>,
    answers: Seq<(u16, Option<Seq<u8>>)>,
) -> Map<u16, Seq<u8>>
    decreases answers.len(),
{
    if answers.len() == 0 {
        dids
    } else {
        let before = answered(dids, answers.drop_last());
        match answers.last().1 {
            Some(bytes) => before.insert(answers.last().0, bytes),
            None => before,
        }
    }
}

/// What a list of answers holds.
pub open spec fn answers_of(v: Seq<(u16, Option<Vec<u8>>)>) -> Seq<(u16, Option<Seq<u8>>)> {
    v.map_values(
        |a: (u16, Option<Vec<u8>>)|
            (
                a.0,
                match a.1 {
                    Some(b) => Some(b@),
                    None => None,
                },
            ),
    )
}

/// Record the answers to a list of read requests.
pub fn record_answers(dids: &mut HashMap<u16, Vec<u8>>, answers: &Vec<(u16, Option<Vec<u8>>)>)
    ensures
        did_map(final(dids)@) == answered(did_map(old(dids)@), answers_of(answers@)),
{
    let ghost all = answers_of(answers@);
    let mut i: usize = 0;
    assert(all.take(0) == Seq::<(u16, Option<Seq<u8>>)>::empty());
    while i < answers.len()
        invariant
            i <= answers@.len(),
            all == answers_of(answers@),
            did_map(dids@) == answered(did_map(old(dids)@), all.take(i as int)),
        decreases answers@.len() - i,
    {
        let ghost next = all.take(i + 1);
        assert(next.drop_last() == all.take(i as int));
        assert(next.last() == all[i as int]);
        let ghost before = dids@;
        if let Some(bytes) = &answers[i].1 {
            let copy = crate::bytes::to_vec(bytes.as_slice());
            dids.insert(answers[i].0, copy);
            assert(did_map(dids@) == did_map(before).insert(answers@[i as int].0, bytes@));
        }
        i = i + 1;
    }
    assert(all.take(i as int) == all);
}

/// What to read next on a channel that was probed: nothing if the session was
/// refused or no identification DID was readable, else the informational
/// records. A silent address costs no extra request.
pub fn further_reads(opened: bool, dids: &HashMap<u16, Vec<u8>>) -> (r: Option<Vec<u16>>)
    ensures
        r is Some <==> opened && dids@.dom() != Set::<u16>::empty(),
        r matches Some(v) ==> v@ == extra_dids(info_table()),
{
    if !opened {
        return None;
    }
    if dids.is_empty() {
        assert(dids@.dom() == Set::<u16>::empty());
        return None;
    }
    Some(extra_info_dids())
}

/// Conclude the probe of a channel from everything that was read on it.
pub fn conclude<'a>(
    channel: IdentChannel,
    dids: HashMap<u16, Vec<u8>>,
    extra: &Vec<(u16, Option<Vec<u8>>)>,
    registry: &'a Registry,
) -> (r: ChannelIdentification<'a>)
    ensures
        r.channel == channel,
        did_map(r.dids@) == answered(did_map(dids@), answers_of(extra@)),
        offers(r.candidates@) == channel_offers(*registry, did_map(r.dids@), channel@),
{
    let mut all = dids;
    record_answers(&mut all, extra);
    let candidates = candidates_from_dids(&all, &channel, registry);
    ChannelIdentification { channel, dids: all, candidates }
}

/// No evidence is no answer: an empty DID map offers nothing on any channel.
pub proof fn law_no_evidence_never_guesses(registry: Registry, channel: Channel)
    ensures
        channel_offers(registry, Map::empty(), channel) == Seq::<Offer>::empty(),
{
}

/// The transmission channel never resolves: as long as the registry knows both
/// controllers, both are offered, both ambiguous, DQ250 first.
pub proof fn law_transmission_is_never_resolved(registry: Registry, strings: Strings)
    requires
        registry.spec_get("dq250"@) is Some,
        registry.spec_get("dq381"@) is Some,
    ensures
        transmission_offers(registry, strings).len() == 2,
        transmission_offers(registry, strings)[0].module_name == "dq250"@,
        transmission_offers(registry, strings)[1].module_name == "dq381"@,
        transmission_offers(registry, strings)[0].confidence == Confidence::Ambiguous,
        transmission_offers(registry, strings)[1].confidence == Confidence::Ambiguous,
{
}

/// The Haldex channel always resolves, whatever was read.
pub proof fn law_haldex_always_resolves(registry: Registry, strings: Strings)
    requires
        registry.spec_get("haldex"@) is Some,
    ensures
        haldex_offers(registry, strings).len() == 1,
        haldex_offers(registry, strings)[0].module_name == "haldex"@,
        haldex_offers(registry, strings)[0].confidence == Confidence::Confirmed,
{
}

/// A bootloader whose project name exactly one module of the channel has settles
/// the channel, whatever the part number says.
pub proof fn law_bootloader_outranks_the_part_number(
    registry: Registry,
    strings: Strings,
    modules: Seq<Seq<char>>,
)
    requires
        strings.project() is Some,
        matching_below(registry, modules, strings.project()->0, modules.len()).len() == 1,
    ensures
        simos_offers(registry, strings, modules).len() == 1,
        simos_offers(registry, strings, modules)[0].module_name == matching_below(
            registry,
            modules,
            strings.project()->0,
            modules.len(),
        )[0],
        simos_offers(registry, strings, modules)[0].confidence == Confidence::Confirmed,
{
    lemma_matching_is_known(registry, modules, strings.project()->0, modules.len());
}

proof fn lemma_matching_is_known(
    registry: Registry,
    modules: Seq<Seq<char>>,
    project: Seq<char>,
    n: nat,
)
    ensures
        forall|k: int|
            0 <= k < matching_below(registry, modules, project, n).len() ==> registry.spec_get(
                #[trigger] matching_below(registry, modules, project, n)[k],
            ) is Some,
    decreases n,
{
    if n > 0 {
        lemma_matching_is_known(registry, modules, project, (n - 1) as nat);
    }
}

/// Without a readable bootloader record every Simos variant stays on offer, and
/// none is confirmed: a part number promotes one, it never drops the others.
pub proof fn law_part_numbers_never_drop_a_variant(registry: Registry, strings: Strings)
    requires
        registry.spec_get("simos18"@) is Some,
        registry.spec_get("simos1810"@) is Some,
        registry.spec_get("simos184"@) is Some,
    ensures
        ranked(variants_below(registry, strings, 3)).len() == 3,
        forall|i: int|
            0 <= i < 3 ==> (#[trigger] ranked(variants_below(registry, strings, 3))[i]).confidence
                != Confidence::Confirmed,
{
    reveal_with_fuel(variants_below, 4);
    let all = variants_below(registry, strings, 3);
    assert(all.len() == 3);
    assert(all.drop_last().drop_last().drop_last() == Seq::<Offer>::empty());
    reveal_with_fuel(of_confidence, 4);
    let first = all[0].confidence;
    let second = all[1].confidence;
    let third = all[2].confidence;
    assert(all.drop_last().last() == all[1]);
    assert(all.drop_last().drop_last().last() == all[0]);
    assert(of_confidence(all, Confidence::Confirmed).len() == 0);
    lemma_of_confidence(all, Confidence::Likely);
    lemma_of_confidence(all, Confidence::Possible);
    lemma_of_confidence(all, Confidence::Ambiguous);
    let r = ranked(all);
    assert forall|i: int| 0 <= i < 3 implies (#[trigger] r[i]).confidence != Confidence::Confirmed by {
        let a = of_confidence(all, Confidence::Likely);
        let b = of_confidence(all, Confidence::Possible);
        let c = of_confidence(all, Confidence::Ambiguous);
        if i < a.len() {
            assert(r[i] == a[i]);
        } else if i < a.len() + b.len() {
            assert(r[i] == b[i - a.len()]);
        } else {
            assert(r[i] == c[i - a.len() - b.len()]);
        }
    }
}

proof fn lemma_of_confidence(all: Seq<Offer>, confidence: Confidence)
    ensures
        forall|i: int|
            0 <= i < of_confidence(all, confidence).len() ==> (#[trigger] of_confidence(
                all,
                confidence,
            )[i]).confidence == confidence,
    decreases all.len(),
{
    if all.len() > 0 {
        lemma_of_confidence(all.drop_last(), confidence);
    }
}

/// How sure a confidence is.
pub open spec fn sureness(confidence: Confidence) -> int {
    match confidence {
        Confidence::Ambiguous => 0,
        Confidence::Possible => 1,
        Confidence::Likely => 2,
        Confidence::Confirmed => 3,
    }
}

/// Whether no offer is surer than one before it.
pub open spec fn best_first(v: Seq<Offer>) -> bool {
    forall|i: int, j: int|
        0 <= i < j < v.len() ==> sureness((#[trigger] v[i]).confidence) >= sureness(
            (#[trigger] v[j]).confidence,
        )
}

proof fn lemma_possible(
    registry: Registry,
    modules: Seq<Seq<char>>,
    strings: Strings,
    reason: Seq<char>,
    n: nat,
)
    ensures
        forall|i: int|
            0 <= i < possible_below(registry, modules, strings, reason, n).len() ==> (
            #[trigger] possible_below(registry, modules, strings, reason, n)[i]).confidence
                == Confidence::Possible,
    decreases n,
{
    if n > 0 {
        lemma_possible(registry, modules, strings, reason, (n - 1) as nat);
    }
}

proof fn lemma_ranked_is_best_first(all: Seq<Offer>)
    ensures
        best_first(ranked(all)),
{
    let a = of_confidence(all, Confidence::Confirmed);
    let b = of_confidence(all, Confidence::Likely);
    let c = of_confidence(all, Confidence::Possible);
    let d = of_confidence(all, Confidence::Ambiguous);
    lemma_of_confidence(all, Confidence::Confirmed);
    lemma_of_confidence(all, Confidence::Likely);
    lemma_of_confidence(all, Confidence::Possible);
    lemma_of_confidence(all, Confidence::Ambiguous);
    let r = ranked(all);
    assert forall|i: int| 0 <= i < r.len() implies sureness((#[trigger] r[i]).confidence) == (
    if i < a.len() {
        3int
    } else if i < a.len() + b.len() {
        2
    } else if i < a.len() + b.len() + c.len() {
        1
    } else {
        0
    }) by {
        if i < a.len() {
            assert(r[i] == a[i]);
        } else if i < a.len() + b.len() {
            assert(r[i] == b[i - a.len()]);
        } else if i < a.len() + b.len() + c.len() {
            assert(r[i] == c[i - a.len() - b.len()]);
        } else {
            assert(r[i] == d[i - a.len() - b.len() - c.len()]);
        }
    }
}

/// The candidates of a channel come best first.
pub proof fn law_candidates_come_best_first(
    registry: Registry,
    dids: Map<u16, Seq<u8>>,
    channel: Channel,
)
    ensures
        best_first(channel_offers(registry, dids, channel)),
{
    let strings = strings_of(dids);
    lemma_ranked_is_best_first(variants_below(registry, strings, 3));
    if let Some(project) = strings.project() {
        let reported = strings.boot_loader_identification->0;
        lemma_possible(
            registry,
            channel.modules,
            strings,
            foreign_reason(project, reported, project_owner(registry, project)),
            channel.modules.len(),
        );
    }
}

} // verus!
