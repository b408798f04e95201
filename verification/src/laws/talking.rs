//! How control modules are reached and asked.

use vstd::prelude::*;

use crate::flash::{
    channel_settings, dtc_outcome, separation_time, sweep, switchpatch_outcome,
    with_line, DataRecord, Dtc, Incoming, Line,
};
use crate::identify::answered;
use crate::interface::Iface;
use crate::j2534::channel::{begun, stepped, Asked, Gave, Kind, PlanValue, RunValue};
use crate::j2534::wire::{arrival, failure, msg_of, Arrival, Msg};
use crate::module::FlashInfo;
use crate::session::opened;
use crate::text::hex_upper;
use crate::uds::Trouble;

verus! {

/// The diagnostic channel of a module: requests go to its transmit identifier, answers
/// come from its receive identifier, frames are filled up with 0x55.
pub proof fn law_the_channel_of_a_module(
    flash_info: FlashInfo,
    timeout: u64,
    stmin_override: Option<u32>,
)
    ensures
        ({
            let s = channel_settings(flash_info, timeout);
            &&& s.tx_id == flash_info.control_module_identifier.txid
            &&& s.rx_id == flash_info.control_module_identifier.rxid
            &&& s.timeout == timeout
            &&& s.padding == Some(0x55u8)
            &&& s.separation_time_min is None
        }),
        stmin_override matches Some(us) ==> separation_time(stmin_override, flash_info) == us,
        stmin_override is None ==> separation_time(stmin_override, flash_info)
            == flash_info.default_stmin_us,
{
}

/// A session over raw frames reaches every module; one over a hardware channel reaches the
/// modules with the identifiers that it was opened for, and has its separation time fixed.
pub proof fn law_what_a_session_reaches(
    interface: Iface,
    opened_for: FlashInfo,
    asked: FlashInfo,
    stmin_override: Option<u32>,
    timeout: u64,
)
    ensures
        ({
            let link = opened(interface, opened_for, stmin_override, timeout);
            let hardware = interface matches Iface::J2534 { native_isotp, .. } && native_isotp;
            &&& link.open
            &&& link.timeout == timeout
            &&& link.serves(asked) <==> !hardware || (
            opened_for.control_module_identifier.txid == asked.control_module_identifier.txid
                && opened_for.control_module_identifier.rxid
                == asked.control_module_identifier.rxid)
            &&& link.separation_time_min is Some <==> hardware
        }),
{
}

/// An answer to the clearing of the emission codes: 0x44 says that they are cleared, a
/// refusal of service 0x04 says why not, an answer that is still to come is waited for,
/// and nothing else counts as cleared.
pub proof fn law_answers_to_a_clear(message: Vec<u8>)
    ensures
        ({
            let m = message@;
            let pending = m.len() >= 3 && m[0] == 0x7F && m[2] == 0x78;
            let r = dtc_outcome(Incoming::Message(message));
            &&& r is None <==> pending
            &&& r == Some(Dtc::Cleared) <==> m.len() > 0 && m[0] == 0x44
            &&& m.len() >= 3 && m[0] == 0x7F && m[1] == 0x04 && m[2] != 0x78 ==> r == Some(
                Dtc::Refused(m[2]),
            )
            &&& m.len() == 0 ==> r == Some(Dtc::Unexpected(m))
            &&& m.len() > 0 && m[0] != 0x44 && m[0] != 0x7F ==> r == Some(Dtc::Unexpected(m))
            &&& m.len() > 1 && m[0] == 0x7F && m[1] != 0x04 && !pending ==> r == Some(
                Dtc::Unexpected(m),
            )
        }),
        dtc_outcome(Incoming::TimedOut) == Some(Dtc::Silent),
        dtc_outcome(Incoming::Closed) == Some(Dtc::Failed("the transport closed"@)),
{
}

/// An answer to the other way into the programming session: the echo of either service
/// lets in, a refusal does not, and what is still to come is waited for.
pub proof fn law_answers_to_the_other_way_in(message: Vec<u8>)
    ensures
        ({
            let m = message@;
            let pending = m.len() >= 3 && m[0] == 0x7F && m[2] == 0x78;
            let r = switchpatch_outcome(Incoming::Message(message));
            &&& r is None <==> m.len() == 0 || pending
            &&& r == Some(Ok::<(), Trouble>(())) <==> m.len() > 0 && (m[0] == 0x7E || m[0] == 0x50)
            &&& m.len() >= 3 && m[0] == 0x7F && m[2] != 0x78 ==> r == Some(
                Err::<(), Trouble>(Trouble::NegativeResponse("SwitchPatch (3E 10 02)"@, m[2])),
            )
            &&& 0 < m.len() < 3 && m[0] == 0x7F ==> r == Some(
                Err::<(), Trouble>(Trouble::NegativeResponse("SwitchPatch (3E 10 02)"@, 0)),
            )
            &&& m.len() > 0 && m[0] != 0x7E && m[0] != 0x50 && m[0] != 0x7F ==> r == Some(
                Err::<(), Trouble>(
                    Trouble::Interface(
                        "SwitchPatch: unexpected response SID 0x"@ + hex_upper(m[0] as nat, 2),
                    ),
                ),
            )
        }),
        switchpatch_outcome(Incoming::TimedOut) == Some(Err::<(), Trouble>(Trouble::Timeout)),
        switchpatch_outcome(Incoming::Closed) == Some(Err::<(), Trouble>(Trouble::Timeout)),
{
}

proof fn lemma_with_line(lines: Seq<Line>, line: Line, other: Line)
    ensures
        with_line(lines, line).contains(line),
        other.key != line.key ==> with_line(lines, line).contains(other) == lines.contains(other),
        with_line(lines, line).contains(other) ==> other == line || lines.contains(other),
    decreases lines.len(),
{
    let out = with_line(lines, line);
    if lines.len() == 0 {
        assert(out[0] == line);
    } else {
        let rest = lines.skip(1);
        assert(lines == seq![lines[0]] + rest);
        if lines[0].key == line.key {
            assert(out[0] == line);
            if lines.contains(other) && other.key != line.key {
                let i = choose|i: int| 0 <= i < lines.len() && lines[i] == other;
                assert(out[i] == other);
            }
            if out.contains(other) && other != line {
                let i = choose|i: int| 0 <= i < out.len() && out[i] == other;
                assert(lines[i] == other);
            }
        } else {
            lemma_with_line(rest, line, other);
            let tail = with_line(rest, line);
            let k = choose|k: int| 0 <= k < tail.len() && tail[k] == line;
            assert(out[k + 1] == line);
            if lines.contains(other) && other.key != line.key {
                let i = choose|i: int| 0 <= i < lines.len() && lines[i] == other;
                if i == 0 {
                    assert(out[0] == other);
                } else {
                    assert(rest[i - 1] == other);
                    let j = choose|j: int| 0 <= j < tail.len() && tail[j] == other;
                    assert(out[j + 1] == other);
                }
            }
            if out.contains(other) && other != line {
                let i = choose|i: int| 0 <= i < out.len() && out[i] == other;
                if i == 0 {
                    assert(lines[0] == other);
                } else {
                    assert(tail[i - 1] == other);
                    let j = choose|j: int| 0 <= j < rest.len() && rest[j] == other;
                    assert(lines[j + 1] == other);
                }
            }
        }
    }
}

/// How the answer to a record is listed: under its description, or its number where it has
/// none, as text or as bytes.
pub open spec fn listed(record: DataRecord, bytes: Seq<u8>) -> Line {
    Line {
        key: if record.description@ == Seq::<char>::empty() {
            "DID 0x"@ + hex_upper(record.address as nat, 4)
        } else {
            record.description@
        },
        value: if record.text {
            crate::text::utf8_lossy(bytes)
        } else {
            crate::text::hex_bytes(bytes)
        },
    }
}

/// Every record that was answered is listed, unless a later one is listed under the same
/// name.
pub proof fn law_every_answer_is_listed(
    answers: Seq<(DataRecord, Option<Vec<u8>>)>,
    i: int,
)
    requires
        0 <= i < answers.len(),
        answers[i].1 is Some,
        forall|j: int|
            i < j < answers.len() && (#[trigger] answers[j]).1 is Some ==> listed(
                answers[j].0,
                answers[j].1->0@,
            ).key != listed(answers[i].0, answers[i].1->0@).key,
    ensures
        sweep(answers).contains(listed(answers[i].0, answers[i].1->0@)),
    decreases answers.len(),
{
    let shorter = answers.drop_last();
    let wanted = listed(answers[i].0, answers[i].1->0@);
    if i < answers.len() - 1 {
        assert(shorter[i] == answers[i]);
        assert forall|j: int| i < j < shorter.len() && (#[trigger] shorter[j]).1 is Some implies
            listed(shorter[j].0, shorter[j].1->0@).key != wanted.key by {
            assert(shorter[j] == answers[j]);
        }
        law_every_answer_is_listed(shorter, i);
    }
    let (record, answer) = answers.last();
    if let Some(bytes) = answer {
        if record.description@.len() == 0 {
            assert(record.description@ =~= Seq::<char>::empty());
        }
        lemma_with_line(sweep(shorter), listed(record, bytes@), wanted);
    }
}

/// Of the answers to one identifier the last counts; one that was refused changes nothing.
pub proof fn law_the_last_answer_counts(
    dids: Map<u16, Seq<u8>>,
    answers: Seq<(u16, Option<Seq<u8>>)>,
    did: u16,
    i: int,
)
    ensures
        0 <= i < answers.len() && answers[i].0 == did && answers[i].1 is Some && (forall|j: int|
            i < j < answers.len() ==> (#[trigger] answers[j]).0 != did || answers[j].1 is None)
            ==> answered(dids, answers).contains_key(did) && answered(dids, answers)[did]
            == answers[i].1->0,
        (forall|j: int|
            0 <= j < answers.len() ==> (#[trigger] answers[j]).0 != did || answers[j].1 is None)
            ==> answered(dids, answers).contains_key(did) == dids.contains_key(did) && (
        dids.contains_key(did) ==> answered(dids, answers)[did] == dids[did]),
    decreases answers.len(),
{
    if answers.len() > 0 {
        let shorter = answers.drop_last();
        law_the_last_answer_counts(dids, shorter, did, i);
        assert forall|j: int| 0 <= j < shorter.len() implies #[trigger] shorter[j]
            == answers[j] by {}
        let last = answers[answers.len() - 1];
        if 0 <= i < answers.len() - 1 && answers[i].0 == did && answers[i].1 is Some && (forall|
            j: int,
        |
            i < j < answers.len() ==> (#[trigger] answers[j]).0 != did || answers[j].1 is None) {
            assert forall|j: int| i < j < shorter.len() implies (#[trigger] shorter[j]).0 != did
                || shorter[j].1 is None by {
                assert(answers[j].0 != did || answers[j].1 is None);
            }
            assert(last.0 != did || last.1 is None);
        }
        if forall|j: int|
            0 <= j < answers.len() ==> (#[trigger] answers[j]).0 != did || answers[j].1 is None {
            assert forall|j: int| 0 <= j < shorter.len() implies (#[trigger] shorter[j]).0 != did
                || shorter[j].1 is None by {
                assert(answers[j].0 != did || answers[j].1 is None);
            }
            assert(last.0 != did || last.1 is None);
        }
    }
}

/// A message for a driver: the identifier in four bytes, most significant first, then the
/// payload; both counted.
pub proof fn law_the_layout_of_a_message(protocol: u32, can_id: u32, payload: Seq<u8>)
    requires
        payload.len() <= 4124,
    ensures
        ({
            let m = msg_of(protocol, can_id, payload);
            &&& m.protocol_id == protocol
            &&& m.data.len() == 4128
            &&& m.data_size == payload.len() + 4
            &&& m.extra_data_index == payload.len() + 4
            &&& m.rx_status == 0
            &&& m.tx_flags == 0
            &&& m.timestamp == 0
            &&& crate::laws::checksums::high_first(m.data, 0) == can_id
            &&& m.data.subrange(4, 4 + payload.len() as int) == payload
            &&& forall|i: int| 4 + payload.len() <= i < 4128 ==> m.data[i] == 0
        }),
{
    let m = msg_of(protocol, can_id, payload);
    crate::bytes::lemma_be_round_trip(m.data, 0, can_id as int);
    let head = crate::bytes::be_bytes(can_id as int);
    assert(crate::bytes::spliced(m.data, 0, head) == m.data);
    assert(m.data.subrange(4, 4 + payload.len() as int) == payload);
}

/// What a read means: a message of at least four bytes is a frame, one that only echoes a
/// transmission of a hardware channel is passed over, an empty buffer or a timeout is
/// nothing, and any other failure is the end of the connection.
pub proof fn law_what_a_read_means(ret: i32, count: u32, msg: Msg, isotp: bool)
    ensures
        ret == 0 && count > 0 && msg.data_size >= 4 && (!isotp || msg.rx_status == 0) ==> (arrival(
            ret,
            count,
            msg,
            isotp,
        ) matches Arrival::Frame(id, data) && data == msg.data.subrange(4, msg.data_size as int)),
        ret == 0 && count > 0 && (msg.data_size < 4 || (isotp && msg.rx_status != 0)) ==> arrival(
            ret,
            count,
            msg,
            isotp,
        ) is Skipped,
        ret == 0 && count == 0 ==> arrival(ret, count, msg, isotp) is Nothing,
        ret == 0x09 || ret == 0x10 ==> arrival(ret, count, msg, isotp) is Nothing,
        ret != 0 && ret != 0x09 && ret != 0x10 ==> arrival(ret, count, msg, isotp) is Disconnected,
{
}

/// The calls of an opening in which every call works; a device and a channel come with the
/// handles that are given.
pub open spec fn calls(
    plan: PlanValue,
    at: (RunValue, Asked),
    device: u32,
    channel: u32,
    n: nat,
) -> Seq<Asked>
    decreases n,
{
    if n == 0 {
        Seq::empty()
    } else {
        let gave = match at.1 {
            Asked::Open => Gave::Status(0, device),
            Asked::Connect(_, _, _, _) => Gave::Status(0, channel),
            _ => Gave::Done,
        };
        seq![at.1] + calls(plan, stepped(plan, at.0, gave), device, channel, (n - 1) as nat)
    }
}

/// A padded message without a payload.
pub open spec fn padded_head(can_id: u32) -> Msg {
    Msg { tx_flags: 0x40, ..msg_of(6, can_id, Seq::empty()) }
}

/// A hardware channel is opened on a device that is open: connected, filtered to the
/// answers of one module with flow control to it, cleared, and given its separation times,
/// none for what comes in; then both threads are started.
pub proof fn law_how_a_hardware_channel_is_opened(
    plan: PlanValue,
    device: u32,
    channel: u32,
    tx_id: u32,
    rx_id: u32,
    us: u32,
)
    requires
        plan.kind == (Kind::IsoTp { tx_id, rx_id, stmin_us: Some(us) }),
        100 <= us < 1_000,
    ensures
        calls(plan, begun(plan, device), device, channel, 8) == seq![
            Asked::Connect(device, 6, 0, plan.bitrate),
            Asked::StartFilter(
                channel,
                3,
                padded_head(0xFFFF_FFFF),
                padded_head(rx_id),
                Some(padded_head(tx_id)),
            ),
            Asked::ClearReceiveBuffer(channel),
            Asked::SetConfig(channel, 0x1F, 0),
            Asked::SetConfig(channel, 0x23, (0xF0 + us as int / 100) as u32),
            Asked::SpawnTransmitter,
            Asked::SpawnReceiver,
            Asked::Ready(device, channel),
        ],
{
    reveal_with_fuel(calls, 9);
    let all = calls(plan, begun(plan, device), device, channel, 8);
    assert(all.len() == 8);
    assert(all == seq![
        Asked::Connect(device, 6, 0, plan.bitrate),
        Asked::StartFilter(
            channel,
            3,
            padded_head(0xFFFF_FFFF),
            padded_head(rx_id),
            Some(padded_head(tx_id)),
        ),
        Asked::ClearReceiveBuffer(channel),
        Asked::SetConfig(channel, 0x1F, 0),
        Asked::SetConfig(channel, 0x23, (0xF0 + us as int / 100) as u32),
        Asked::SpawnTransmitter,
        Asked::SpawnReceiver,
        Asked::Ready(device, channel),
    ]);
}

/// A raw channel loads its driver, looks up seven functions, opens the device, connects,
/// and lets every frame pass; then both threads are started.
pub proof fn law_how_a_raw_channel_is_opened(plan: PlanValue, device: u32, channel: u32)
    requires
        plan.kind == Kind::Can,
    ensures
        ({
            let all = calls(plan, begun(plan, device), device, channel, 14);
            let any = msg_of(5, 0, Seq::empty());
            &&& all[0] is LoadLibrary
            &&& forall|i: int| 1 <= i < 8 ==> (#[trigger] all[i]) is FindSymbol
            &&& all[8] is Open
            &&& all[9] == Asked::Connect(device, 5, 0, plan.bitrate)
            &&& all[10] == Asked::StartFilter(channel, 1, any, any, None)
            &&& all[11] is SpawnTransmitter
            &&& all[12] is SpawnReceiver
            &&& all[13] == Asked::Ready(device, channel)
        }),
{
    reveal_with_fuel(calls, 15);
}

/// A call that fails ends an opening with the call and its status, and what is open by
/// then on a raw channel is closed.
pub proof fn law_a_failed_call_is_told(
    plan: PlanValue,
    run: RunValue,
    ret: i32,
    id: u32,
    later: Gave,
)
    requires
        ret != 0,
        plan.kind == Kind::Can,
    ensures
        run.stage is Opening ==> stepped(plan, run, Gave::Status(ret, id)).1 == Asked::Fail(
            failure("PassThruOpen"@, ret),
        ),
        run.stage matches crate::j2534::channel::Stage::Connecting { device } ==> {
            let a = stepped(plan, run, Gave::Status(ret, id));
            let b = stepped(plan, a.0, later);
            a.1 == Asked::Close(device) && b.1 is Fail
        },
{
}

} // verus!
