//! How the wizard leads through a flash.

use vstd::prelude::*;

use crate::fixup::{after_all, Fixing};
use crate::identify::ChannelIdentification;
use crate::immo::Severity;
use crate::interface::Iface;
use crate::flash::Progress;
use crate::module::{name_of, number_of, row_of, ChecksumState, FlashInfo};
use crate::wizard::firmware::{
    box_code_of, corrected, immo_applies, numbers_below, parts_of, version_of, versions_of, Part,
};
use crate::wizard::state::{
    chosen_interface, command_for, may_advance, module_of, progressed, selection, typed_stmin,
    updated, AdapterValue, Bar, Cmd, Message, Picked, StateValue,
};
use crate::wizard::steps::{Operation, Step};

verus! {

/// Blank: nothing but white space.
pub open spec fn blank(t: Seq<char>) -> bool {
    forall|i: int| 0 <= i < t.len() ==> crate::text::is_white(#[trigger] t[i])
}

proof fn lemma_blank(t: Seq<char>)
    requires
        blank(t),
    ensures
        crate::text::trimmed(t, false).len() == 0,
    decreases t.len(),
{
    if t.len() > 0 {
        assert(crate::text::is_white(t[0]));
        let rest = t.skip(1);
        assert forall|i: int| 0 <= i < rest.len() implies crate::text::is_white(
            #[trigger] rest[i],
        ) by {
            assert(rest[i] == t[i + 1]);
        }
        lemma_blank(rest);
    }
}

/// Which interface a choice stands for: a PassThru device runs at 500 kbit/s, and does the
/// framing itself only where that was chosen; a SocketCAN interface needs a name.
pub proof fn law_the_interface_that_is_chosen(a: AdapterValue)
    ensures
        a.kind is Panda ==> chosen_interface(a) == Some(Iface::Panda),
        a.kind is J2534 || a.kind is J2534IsoTp ==> (chosen_interface(a) matches Some(i)
            && i matches Iface::J2534 { bitrate, native_isotp, dll } && bitrate == 500_000
            && native_isotp == (a.kind is J2534IsoTp) && (blank(a.j2534_dll_path) ==> dll is None)),
        a.kind is SocketCan && blank(a.socketcan_name) ==> chosen_interface(a) is None,
        a.kind is SocketCan && chosen_interface(a) is Some ==> chosen_interface(a)->0 is SocketCan,
{
    if blank(a.j2534_dll_path) {
        lemma_blank(a.j2534_dll_path);
    }
    if blank(a.socketcan_name) {
        lemma_blank(a.socketcan_name);
    }
}

/// Nothing goes on while the bus is waited for, nor from a flash that runs or has ended.
pub proof fn law_when_nothing_goes_on<'a>(s: StateValue<'a>)
    requires
        s.nav.busy is Some || s.nav.step is Flashing || s.nav.step is Done,
    ensures
        !may_advance(s),
{
}

/// A check that warned has to be acknowledged before the wizard goes on; one that did not
/// warn holds nothing up once the blocks are there.
pub proof fn law_a_risk_has_to_be_acknowledged<'a>(s: StateValue<'a>, i: int)
    requires
        s.nav.step is Preflight,
        s.nav.busy is None,
    ensures
        s.checks.prepared is None ==> !may_advance(s),
        s.checks.prepared is Some && s.checks.risk_acknowledged ==> may_advance(s),
        s.checks.prepared is Some && s.checks.findings is None ==> may_advance(s),
        s.checks.findings matches Some(f) ==> 0 <= i < f.len() && f[i].severity == Severity::Warn
            && !s.checks.risk_acknowledged ==> !may_advance(s),
        s.checks.findings matches Some(f) ==> s.checks.prepared is Some && (forall|k: int|
            0 <= k < f.len() ==> (#[trigger] f[k]).severity != Severity::Warn) ==> may_advance(s),
{
}

/// What each screen needs before the wizard goes on.
pub proof fn law_what_each_screen_needs<'a>(s: StateValue<'a>)
    requires
        s.nav.busy is None,
    ensures
        s.nav.step is Interface ==> may_advance(s) == (chosen_interface(s.adapter) is Some),
        s.nav.step is Identify ==> may_advance(s) == (selection(s.scan) is Some),
        s.nav.step is Unlock ==> may_advance(s) == (s.lock.unlock is Some),
        s.nav.step is Operation ==> may_advance(s) == (s.job.operation is Some),
        s.nav.step is Firmware ==> may_advance(s) == (s.job.firmware is Some),
        s.nav.step is Confirm ==> may_advance(s) == (s.checks.prepared is Some),
{
}

/// The screens in turn. The unlock screen is only shown for a module with an unlock patch,
/// and an unlock that already has its file needs no firmware screen.
pub proof fn law_the_screens_in_turn<'a>(s: StateValue<'a>)
    ensures
        ({
            let t = updated(s, Message::Next).nav.step;
            let patchable = module_of(s.scan) matches Some(fi) && fi.patch_info is Some;
            let unlocking = s.job.operation == Some(Operation::Unlock);
            &&& s.nav.step is Interface ==> t is Identify
            &&& s.nav.step is Identify && patchable ==> t is Unlock
            &&& s.nav.step is Identify && !patchable ==> t is Operation
            &&& s.nav.step is Unlock ==> t is Operation
            &&& s.nav.step is Operation && unlocking && s.job.firmware is Some ==> t is Preflight
            &&& s.nav.step is Operation && !(unlocking && s.job.firmware is Some) ==> t is Firmware
            &&& s.nav.step is Firmware ==> t is Preflight
            &&& s.nav.step is Preflight ==> t is Confirm
            &&& s.nav.step is Done || s.nav.step is Flashing ==> t == s.nav.step
            &&& s.nav.step is Confirm && s.checks.prepared is None ==> t is Confirm
        }),
        updated(s, Message::Next).nav.error is None,
{
}

/// What is done on the way: the bus is scanned through the chosen interface, with nothing
/// selected any more; the lock is read where there is one; and the blocks are prepared for
/// the chosen operation, with the immobilizer asked on a Simos18 alone, unless it is an
/// unlock.
pub proof fn law_what_is_done_on_the_way<'a>(s: StateValue<'a>)
    requires
        chosen_interface(s.adapter) is Some,
    ensures
        ({
            let c = command_for(s, Message::Next);
            let t = updated(s, Message::Next);
            let i = chosen_interface(s.adapter)->0;
            &&& s.nav.step is Interface ==> c == Cmd::Scan(i) && t.nav.busy is Some
                && t.scan.results.len() == 0 && t.scan.chosen_channel is None
                && t.scan.chosen_candidate is None
            &&& s.nav.step is Identify && t.nav.step is Unlock ==> c == Cmd::ProbeUnlock(i)
                && t.nav.busy is Some
            &&& s.nav.step is Firmware && module_of(s.scan) is Some && s.job.firmware is Some
                && s.job.operation is Some ==> {
                let (fi, fw, op) = (module_of(s.scan)->0, s.job.firmware->0, s.job.operation->0);
                let asks = fi.project_name@ == "SC8"@ && op != Operation::Unlock && (number_of(
                    fi.block_names@,
                    "CAL"@,
                ) matches Some(cal) && fw.blocks.contains_key(cal));
                c == Cmd::Prepare(i, op, asks) && t.nav.busy is Some
                    && !t.checks.risk_acknowledged
            }
            &&& s.nav.step is Unlock || s.nav.step is Preflight || s.nav.step is Confirm ==> c
                == Cmd::Nothing
        }),
{
}

/// A flash gets a number of its own, one above the last, the typed separation time, and a
/// log that goes on.
pub proof fn law_how_a_flash_starts<'a>(s: StateValue<'a>)
    requires
        s.nav.step is Confirm,
        chosen_interface(s.adapter) is Some,
        module_of(s.scan) is Some,
        s.checks.prepared is Some,
        s.flashing.op_id < u64::MAX,
    ensures
        ({
            let t = updated(s, Message::Next);
            &&& t.nav.step is Flashing
            &&& t.flashing.op_id == s.flashing.op_id + 1
            &&& t.flashing.op matches Some(op) && op.id == s.flashing.op_id + 1
                && op.stmin_override == typed_stmin(s.adapter)
            &&& t.flashing.bar == Bar::Percent(0)
            &&& t.flashing.log_lines == s.flashing.log_lines
        }),
{
}

/// Going back leads to the screen that was shown before, and takes an error off.
pub proof fn law_where_back_leads<'a>(s: StateValue<'a>)
    ensures
        ({
            let t = updated(s, Message::Back).nav;
            let patchable = module_of(s.scan) matches Some(fi) && fi.patch_info is Some;
            &&& t.error is None
            &&& s.nav.step is Identify || s.nav.step is Interface ==> t.step is Interface
            &&& s.nav.step is Unlock ==> t.step is Identify
            &&& s.nav.step is Operation && patchable ==> t.step is Unlock
            &&& s.nav.step is Operation && !patchable ==> t.step is Identify
            &&& s.nav.step is Firmware ==> t.step is Operation
            &&& s.nav.step is Preflight && s.job.operation == Some(Operation::Unlock) ==> t.step
                is Operation
            &&& s.nav.step is Preflight && s.job.operation != Some(Operation::Unlock) ==> t.step
                is Firmware
            &&& s.nav.step is Confirm ==> t.step is Preflight
        }),
{
}

/// After a scan the wizard is free again. Where just one module answered, and it is just
/// one, it is selected; otherwise the user selects. Nothing at all is an error.
pub proof fn law_what_a_scan_settles<'a>(
    s: StateValue<'a>,
    results: Vec<ChannelIdentification<'a>>,
)
    requires
        s.scan.chosen_channel is None,
        s.scan.chosen_candidate is None,
    ensures
        ({
            let t = updated(s, Message::ScanFinished(results));
            let one = results@.len() == 1 && results@[0].candidates@.len() == 1;
            &&& t.nav.busy is None
            &&& t.nav.error is Some <==> results@.len() == 0
            &&& t.scan.results == results@
            &&& one ==> selection(t.scan) == Some(results@[0].candidates@[0])
            &&& !one ==> selection(t.scan) is None
        }),
{
}

/// The candidate that is chosen is the one of the channel that it stands on.
pub proof fn law_the_chosen_candidate<'a>(s: StateValue<'a>, channel: usize, candidate: usize)
    requires
        channel < s.scan.results.len(),
        candidate < s.scan.results[channel as int].candidates@.len(),
    ensures
        ({
            let t = updated(s, Message::CandidateChosen(channel, candidate));
            &&& selection(t.scan) == Some(
                s.scan.results[channel as int].candidates@[candidate as int],
            )
            &&& t.lock.unlock is None
            &&& t.job.operation is None
            &&& t.job.firmware is None
        }),
{
}

/// A file that cannot be read, or holds no blocks, is an error and no firmware; another
/// becomes the firmware, whole.
pub proof fn law_what_a_picked_file_gives<'a>(s: StateValue<'a>, picked: Picked)
    requires
        module_of(s.scan) is Some,
    ensures
        ({
            let t = updated(s, Message::FirmwareSelected(Some(picked)));
            let taken = picked.loaded matches Ok(b) && exists|n: u8| b@.contains_key(n);
            &&& t.job.firmware_path == Some(picked.file@)
            &&& t.job.firmware is Some <==> taken
            &&& t.nav.error is None <==> taken
            &&& picked.loaded matches Ok(b) ==> t.job.firmware matches Some(fw) ==> fw.blocks
                == crate::binfile::raw_blocks(b@)
        }),
{
}

/// Where preparing fails, the error is shown and nothing can be flashed.
pub proof fn law_a_failed_preparation_flashes_nothing<'a>(
    s: StateValue<'a>,
    o: crate::wizard::state::PreflightOutcome,
)
    ensures
        ({
            let t = updated(s, Message::PreflightFinished(o));
            &&& t.nav.busy is None
            &&& t.checks.prepared is Some <==> o.prepared is Ok
            &&& t.nav.error is Some <==> o.prepared is Err
            &&& o.prepared is Err ==> updated(
                StateValue { nav: crate::wizard::state::NavValue { step: Step::Confirm, ..t.nav }, ..t },
                Message::Next,
            ).flashing.op == t.flashing.op
        }),
{
}

/// The bar of a flash outside of its blocks, in hundredths.
pub proof fn law_the_bar_of_a_flash<'a>(s: StateValue<'a>, vin: Seq<char>, percent: Seq<char>)
    ensures
        progressed(s, Progress::ClearingDtcs, percent).flashing.bar == Bar::Percent(1),
        progressed(s, Progress::Connecting, percent).flashing.bar == Bar::Percent(2),
        progressed(s, Progress::ReadVin(vin), percent).flashing.bar == Bar::Percent(3),
        progressed(s, Progress::CheckingPreconditions, percent).flashing.bar == Bar::Percent(4),
        progressed(s, Progress::ProgrammingSession, percent).flashing.bar == Bar::Percent(5),
        progressed(s, Progress::Authenticating, percent).flashing.bar == Bar::Percent(7),
        progressed(s, Progress::WritingWorkshopCode, percent).flashing.bar == Bar::Percent(10),
        progressed(s, Progress::Verifying, percent).flashing.bar == Bar::Percent(92),
        progressed(s, Progress::EcuReset, percent).flashing.bar == Bar::Percent(96),
        progressed(s, Progress::Complete, percent).flashing.bar == Bar::Percent(100),
{
}

/// The bar of a flash within its blocks: a block that begins stands on those before it,
/// the bytes that are sent count within it, and a block that is done counts whole.
pub proof fn law_the_bar_of_a_block<'a>(
    s: StateValue<'a>,
    name: Seq<char>,
    index: usize,
    total: usize,
    sent: usize,
    of: usize,
    percent: Seq<char>,
)
    requires
        index < usize::MAX,
    ensures
        ({
            let a = progressed(s, Progress::FlashingBlock(name, index, total), percent);
            let b = progressed(a, Progress::BlockTransferProgress(name, sent, of), percent);
            let c = progressed(b, Progress::BlockComplete(index), percent);
            &&& a.flashing.bar matches Bar::Blocks(p) && p.index == index && p.total == total
            &&& a.flashing.base matches Some(p) && p.index == index && p.total == total
            &&& b.flashing.base == a.flashing.base
            &&& b.flashing.bar == (Bar::Within { sent, of, blocks: total })
            &&& c.flashing.bar matches Bar::Blocks(p) && p.index == index + 1 && p.total == total
        }),
{
}

/// A flash that is complete is compared with what the immobilizer said before, on a
/// Simos18 that was asked before; one that failed is not.
pub proof fn law_what_is_compared<'a>(
    s: StateValue<'a>,
    update: crate::flash::ProgressUpdate,
    percent: String,
)
    ensures
        ({
            let c = command_for(s, Message::FlashProgress(update, percent));
            let due = update@ is Complete && chosen_interface(s.adapter) is Some
                && s.checks.immo_before is Some && (module_of(s.scan) matches Some(fi)
                && fi.project_name@ == "SC8"@);
            &&& due ==> c == Cmd::CheckAgain(chosen_interface(s.adapter)->0)
            &&& !due ==> c == Cmd::Nothing
        }),
{
}

/// Starting over keeps what was typed about the adapter, and nothing else.
pub proof fn law_starting_over<'a>(s: StateValue<'a>)
    ensures
        ({
            let t = updated(s, Message::StartOver);
            &&& t.adapter == s.adapter
            &&& t.nav.step is Interface
            &&& t.nav.busy is None
            &&& t.nav.error is None
            &&& t.scan.results.len() == 0
            &&& selection(t.scan) is None
            &&& t.lock.unlock is None
            &&& t.lock.unlock_file is None
            &&& t.job.operation is None
            &&& t.job.firmware is None
            &&& t.job.firmware_path is None
            &&& t.checks.prepared is None
            &&& t.checks.immo_before is None
            &&& !t.checks.risk_acknowledged
            &&& t.flashing.op is None
        }),
{
}

/// The immobilizer is asked where the calibration is written and the software runs
/// afterwards: on every operation with a calibration block but the unlock.
pub proof fn law_when_the_immobilizer_matters(
    flash_info: FlashInfo,
    blocks: Map<u8, Seq<u8>>,
    op: Operation,
    cal: u8,
)
    requires
        number_of(flash_info.block_names@, "CAL"@) == Some(cal),
    ensures
        immo_applies(flash_info, blocks, op) <==> blocks.contains_key(cal) && !(op is Unlock),
{
}

proof fn lemma_numbers(blocks: Map<u8, Seq<u8>>, n: nat, number: u8)
    requires
        n <= 256,
    ensures
        numbers_below(blocks, n).contains(number) == (blocks.contains_key(number) && number < n),
        forall|i: int, j: int|
            0 <= i < j < numbers_below(blocks, n).len() ==> (#[trigger] numbers_below(
                blocks,
                n,
            )[i]) < (#[trigger] numbers_below(blocks, n)[j]),
        forall|i: int|
            0 <= i < numbers_below(blocks, n).len() ==> (#[trigger] numbers_below(blocks, n)[i])
                < n,
    decreases n,
{
    if n > 0 {
        lemma_numbers(blocks, (n - 1) as nat, number);
        let before = numbers_below(blocks, (n - 1) as nat);
        let now = numbers_below(blocks, n);
        if before.contains(number) {
            let k = choose|k: int| 0 <= k < before.len() && before[k] == number;
            assert(now[k] == number);
        }
        if blocks.contains_key(number) && number == n - 1 {
            assert(now[now.len() - 1] == number);
        }
        if now.contains(number) {
            let k = choose|k: int| 0 <= k < now.len() && now[k] == number;
            if k < before.len() {
                assert(before[k] == number);
            }
        }
    }
}

/// A full flash and a relock write every block of the file up to 5, in ascending order,
/// and no other.
pub proof fn law_what_a_full_flash_writes(
    flash_info: FlashInfo,
    blocks: Map<u8, Seq<u8>>,
    number: u8,
    op: Operation,
)
    requires
        op is FullFlash || op is Relock,
    ensures
        parts_of(flash_info, blocks, op) matches Ok(parts) && {
            &&& parts.contains(Part::Block(number)) <==> blocks.contains_key(number) && number <= 5
            &&& forall|i: int| 0 <= i < parts.len() ==> (#[trigger] parts[i]) is Block
            &&& forall|i: int, j: int|
                0 <= i < j < parts.len() ==> (#[trigger] parts[i])->Block_0 < (
                #[trigger] parts[j])->Block_0
        },
{
    lemma_numbers(blocks, 6, number);
    let list = numbers_below(blocks, 6);
    let parts = parts_of(flash_info, blocks, op)->Ok_0;
    assert(parts.len() == list.len());
    assert forall|i: int| 0 <= i < parts.len() implies #[trigger] parts[i] == Part::Block(
        list[i],
    ) by {}
    if list.contains(number) {
        let k = choose|k: int| 0 <= k < list.len() && list[k] == number;
        assert(parts[k] == Part::Block(number));
    }
    if parts.contains(Part::Block(number)) {
        let k = choose|k: int| 0 <= k < parts.len() && parts[k] == Part::Block(number);
        assert(list[k] == number);
    }
}

/// A relock without a bootloader block is refused, and only a full flash of a file that
/// has one patches it.
pub proof fn law_who_patches_the_bootloader(
    csv: Seq<char>,
    flash_info: FlashInfo,
    blocks: Map<u8, Seq<u8>>,
    op: Operation,
    simos: Seq<(u8, (ChecksumState, Vec<u8>))>,
)
    ensures
        ({
            let c = corrected(csv, flash_info, blocks, op, simos);
            let cboot = number_of(flash_info.block_names@, "CBOOT"@) matches Some(n)
                && blocks.contains_key(n);
            let start = Fixing { blocks, notes: Seq::empty(), changed: Seq::empty() };
            let patched = after_all(csv, flash_info, start, true, simos);
            let plain = after_all(csv, flash_info, start, false, simos);
            &&& op is Relock && !cboot ==> c.parts is Err && c.blocks == blocks
            &&& op is FullFlash && cboot ==> c.blocks == patched.0.blocks && (c.parts is Ok
                <==> patched.1 is None)
            &&& op is FullFlash && !cboot ==> c.blocks == plain.0.blocks
            &&& op is Relock && cboot ==> c.blocks == plain.0.blocks && (c.parts is Ok
                <==> plain.1 is None)
            &&& op is CalibrationFlash || op is Unlock ==> c.blocks == plain.0.blocks
        }),
{
}

/// The box code stands in the calibration block, where the module keeps it, without the
/// white space round it; a version stands in its own block in the same way.
pub proof fn law_where_box_code_and_versions_stand(
    flash_info: FlashInfo,
    blocks: Map<u8, Seq<u8>>,
    cal: u8,
    from: usize,
    to: usize,
)
    requires
        from < to,
        blocks.contains_key(cal),
        to <= blocks[cal].len(),
    ensures
        ({
            let t = crate::text::trimmed(
                crate::text::utf8_lossy(blocks[cal].subrange(from as int, to as int)),
                false,
            );
            let found = if t == Seq::<char>::empty() {
                None
            } else {
                Some(t)
            };
            &&& number_of(flash_info.block_names@, "CAL"@) == Some(cal) && row_of(
                flash_info.box_code_locations@,
                cal,
            ) == Some((from, to)) ==> box_code_of(flash_info, blocks) == found
            &&& row_of(flash_info.software_version_locations@, cal) == Some((from, to))
                ==> version_of(flash_info, blocks, cal) == found
        }),
{
    let t = crate::text::trimmed(
        crate::text::utf8_lossy(blocks[cal].subrange(from as int, to as int)),
        false,
    );
    if t.len() == 0 {
        assert(t =~= Seq::<char>::empty());
    }
}

/// The separation time that is typed in digits is taken; a blank field asks for none.
pub proof fn law_the_typed_separation_time(a: AdapterValue, n: nat)
    ensures
        blank(a.stmin_input) ==> typed_stmin(a) is None,
        crate::text::digits_value(crate::text::trimmed(a.stmin_input, false)) == Some(n) && n
            <= u32::MAX ==> typed_stmin(a) == Some(n as u32),
        crate::text::digits_value(crate::text::trimmed(a.stmin_input, false)) == Some(n) && n
            > u32::MAX ==> typed_stmin(a) is None,
{
    if blank(a.stmin_input) {
        lemma_blank(a.stmin_input);
    }
    let t = crate::text::trimmed(a.stmin_input, false);
    if t.len() > 0 && t[0] == '+' {
        lemma_plus_is_no_digit(t);
    }
}

proof fn lemma_plus_is_no_digit(t: Seq<char>)
    requires
        t.len() > 0,
        t[0] == '+',
    ensures
        crate::text::digits_value(t) is None,
    decreases t.len(),
{
    if t.len() > 1 {
        assert(t.drop_last()[0] == t[0]);
        lemma_plus_is_no_digit(t.drop_last());
    } else {
        assert(t.last() == '+');
    }
}

/// What is typed about the adapter is kept, each in its own field.
pub proof fn law_what_is_typed_is_kept<'a>(
    s: StateValue<'a>,
    kind: crate::wizard::steps::InterfaceKind,
    t: String,
)
    ensures
        updated(s, Message::InterfaceKindChanged(kind)) == (StateValue {
            adapter: AdapterValue { kind, ..s.adapter },
            ..s
        }),
        updated(s, Message::SocketCanNameChanged(t)).adapter.socketcan_name == t@,
        updated(s, Message::SocketCanNameChanged(t)).adapter.j2534_dll_path
            == s.adapter.j2534_dll_path,
        updated(s, Message::SocketCanNameChanged(t)).adapter.stmin_input == s.adapter.stmin_input,
        updated(s, Message::J2534DllPathChanged(t)).adapter.j2534_dll_path == t@,
        updated(s, Message::J2534DllPathChanged(t)).adapter.socketcan_name
            == s.adapter.socketcan_name,
        updated(s, Message::J2534DllPathChanged(t)).adapter.stmin_input == s.adapter.stmin_input,
        updated(s, Message::StminChanged(t)).adapter.stmin_input == t@,
        updated(s, Message::StminChanged(t)).adapter.socketcan_name == s.adapter.socketcan_name,
        updated(s, Message::StminChanged(t)).adapter.j2534_dll_path == s.adapter.j2534_dll_path,
        updated(s, Message::AcknowledgeRisk(true)).checks.risk_acknowledged,
        !updated(s, Message::AcknowledgeRisk(false)).checks.risk_acknowledged,
{
}

/// What a probe of the lock says is kept, and one that failed is an error; either way the
/// wizard is free again.
pub proof fn law_what_a_probe_leaves<'a>(
    s: StateValue<'a>,
    r: Result<crate::unlock::UnlockProbe, String>,
)
    ensures
        ({
            let t = updated(s, Message::UnlockProbeFinished(r));
            &&& t.nav.busy is None
            &&& r matches Ok(p) ==> t.lock.unlock == Some(p@) && t.nav.error == s.nav.error
            &&& r matches Err(e) ==> t.nav.error == Some(e@) && t.lock.unlock == s.lock.unlock
        }),
{
}

/// A file for the unlock is taken where it fits the patch, and becomes the firmware without
/// becoming the chosen firmware file; another is refused and changes no firmware.
pub proof fn law_a_fitting_file_is_taken<'a>(s: StateValue<'a>, picked: Picked)
    requires
        module_of(s.scan) is Some,
    ensures
        ({
            let t = updated(s, Message::UnlockFileSelected(Some(picked)));
            let fi = module_of(s.scan)->0;
            let loaded = picked.loaded matches Ok(b) && exists|n: u8| b@.contains_key(n);
            let raw = crate::binfile::raw_blocks(picked.loaded->Ok_0@);
            let fits = loaded && crate::wizard::firmware::unlock_refusal(
                fi,
                box_code_of(fi, raw),
            ) is None;
            &&& fits ==> t.lock.unlock_file == Some(picked.file@) && t.lock.unlock_file_error
                is None && (t.job.firmware matches Some(fw) && fw.blocks == raw)
            &&& !fits ==> t.lock.unlock_file is None && t.lock.unlock_file_error is Some
                && t.job.firmware == s.job.firmware
            &&& t.job.firmware_path == s.job.firmware_path
        }),
{
}

/// The version of every block that carries one is told, under the name of the block.
pub proof fn law_every_version_is_told(
    flash_info: FlashInfo,
    blocks: Map<u8, Seq<u8>>,
    list: Seq<u8>,
    i: int,
)
    requires
        0 <= i < list.len(),
        version_of(flash_info, blocks, list[i]) is Some,
    ensures
        versions_of(flash_info, blocks, list).contains(
            (
                match name_of(flash_info.block_names@, list[i]) {
                    Some(name) => name,
                    None => "block "@ + crate::text::dec(list[i] as nat),
                },
                version_of(flash_info, blocks, list[i])->0,
            ),
        ),
    decreases list.len(),
{
    let now = versions_of(flash_info, blocks, list);
    let fewer = versions_of(flash_info, blocks, list.drop_last());
    let line = (
        match name_of(flash_info.block_names@, list[i]) {
            Some(name) => name,
            None => "block "@ + crate::text::dec(list[i] as nat),
        },
        version_of(flash_info, blocks, list[i])->0,
    );
    if i == list.len() - 1 {
        assert(now[now.len() - 1] == line);
    } else {
        assert(list.drop_last()[i] == list[i]);
        law_every_version_is_told(flash_info, blocks, list.drop_last(), i);
        let k = choose|k: int| 0 <= k < fewer.len() && fewer[k] == line;
        assert(now[k] == line);
    }
}

} // verus!
