//! Opening a channel on a PassThru device, step by step.
//!
//! Each step names a call on the device; what the call gave decides the next one.
//! A call that fails after the device or the channel was opened is followed by
//! the calls that close them again.

use vstd::prelude::*;

use super::wire::{
    describe_failure, failure, msg_of, outgoing, stmin_byte, us_to_stmin_byte, Msg,
    PassThruMsg, FILTER_FLOW_CONTROL, FILTER_PASS, IOCTL_PARAM_ISO15765_STMIN,
    IOCTL_PARAM_STMIN_TX, ISO15765_FRAME_PAD, PROTOCOL_CAN, PROTOCOL_ISO15765, STATUS_NOERROR,
};
use crate::text::{dec, push_dec};

verus! {

/// How many functions of the driver are used on a raw CAN channel.
pub const SYMBOLS: usize = 7;

/// The functions of the driver that are looked up, in order.
pub open spec fn symbol_name(index: int) -> Seq<char> {
    if index == 0 {
        "PassThruOpen\0"@
    } else if index == 1 {
        "PassThruClose\0"@
    } else if index == 2 {
        "PassThruConnect\0"@
    } else if index == 3 {
        "PassThruDisconnect\0"@
    } else if index == 4 {
        "PassThruReadMsgs\0"@
    } else if index == 5 {
        "PassThruWriteMsgs\0"@
    } else {
        "PassThruStartMsgFilter\0"@
    }
}

/// The functions of the driver that are looked up, in order.
pub fn symbol(index: usize) -> (s: &'static str)
    ensures
        s@ == symbol_name(index as int),
{
    if index == 0 {
        "PassThruOpen\0"
    } else if index == 1 {
        "PassThruClose\0"
    } else if index == 2 {
        "PassThruConnect\0"
    } else if index == 3 {
        "PassThruDisconnect\0"
    } else if index == 4 {
        "PassThruReadMsgs\0"
    } else if index == 5 {
        "PassThruWriteMsgs\0"
    } else {
        "PassThruStartMsgFilter\0"
    }
}

/// What kind of channel is opened.
#[derive(Debug, Clone, Copy, PartialEq, Eq, Structural)]
pub enum Kind {
    /// Raw CAN frames.
    Can,
    /// ISO 15765: the adapter does the framing. `stmin_us` is the separation time
    /// of transmitted frames, in microseconds.
    IsoTp { tx_id: u32, rx_id: u32, stmin_us: Option<u32> },
}

/// The separation time where none was asked for, in microseconds.
pub const DEFAULT_STMIN_US: u32 = 500;

/// Where the opening stands: what it is waiting for.
#[derive(Debug, Clone, Copy, PartialEq, Eq, Structural)]
pub enum Stage {
    Loading,
    /// Looking up a function.
    Symbol(usize),
    Opening,
    Connecting { device: u32 },
    Filtering { device: u32, channel: u32 },
    Clearing { device: u32, channel: u32 },
    SettingReceive { device: u32, channel: u32 },
    SettingTransmit { device: u32, channel: u32 },
    SpawningTx { device: u32, channel: u32 },
    SpawningRx { device: u32, channel: u32 },
    /// Undoing a connection; the device is closed next where the channel owns it.
    Disconnecting { device: u32 },
    /// Undoing the opening of the device.
    Closing,
    Ended,
}

/// What the opening asks for.
#[derive(Debug, Clone)]
pub enum Call {
    LoadLibrary,
    /// Look up a function by its zero-terminated name.
    FindSymbol(&'static str),
    Open,
    Connect { device: u32, protocol: u32, flags: u32, bitrate: u32 },
    /// Install a filter: mask, pattern, and the flow-control message if there is
    /// one.
    StartFilter {
        channel: u32,
        kind: u32,
        mask: PassThruMsg,
        pattern: PassThruMsg,
        flow_control: Option<PassThruMsg>,
    },
    ClearReceiveBuffer { channel: u32 },
    SetConfig { channel: u32, parameter: u32, value: u32 },
    SpawnTransmitter,
    SpawnReceiver,
    Disconnect { channel: u32 },
    Close { device: u32 },
    /// The channel is open.
    Ready { device: u32, channel: u32 },
    /// The channel could not be opened.
    Fail(String),
}

/// What the opening asks for, as a value.
pub enum Asked {
    LoadLibrary,
    FindSymbol(Seq<char>),
    Open,
    Connect(u32, u32, u32, u32),
    StartFilter(u32, u32, Msg, Msg, Option<Msg>),
    ClearReceiveBuffer(u32),
    SetConfig(u32, u32, u32),
    SpawnTransmitter,
    SpawnReceiver,
    Disconnect(u32),
    Close(u32),
    Ready(u32, u32),
    Fail(Seq<char>),
}

impl View for Call {
    type V = Asked;

    open spec fn view(&self) -> Asked {
        match self {
            Call::LoadLibrary => Asked::LoadLibrary,
            Call::FindSymbol(name) => Asked::FindSymbol(name@),
            Call::Open => Asked::Open,
            Call::Connect { device, protocol, flags, bitrate } => Asked::Connect(
                *device,
                *protocol,
                *flags,
                *bitrate,
            ),
            Call::StartFilter { channel, kind, mask, pattern, flow_control } => Asked::StartFilter(
                *channel,
                *kind,
                mask@,
                pattern@,
                match flow_control {
                    Some(m) => Some(m@),
                    None => None,
                },
            ),
            Call::ClearReceiveBuffer { channel } => Asked::ClearReceiveBuffer(*channel),
            Call::SetConfig { channel, parameter, value } => Asked::SetConfig(
                *channel,
                *parameter,
                *value,
            ),
            Call::SpawnTransmitter => Asked::SpawnTransmitter,
            Call::SpawnReceiver => Asked::SpawnReceiver,
            Call::Disconnect { channel } => Asked::Disconnect(*channel),
            Call::Close { device } => Asked::Close(*device),
            Call::Ready { device, channel } => Asked::Ready(*device, *channel),
            Call::Fail(why) => Asked::Fail(why@),
        }
    }
}

/// What a call gave.
#[derive(Debug, Clone)]
pub enum Outcome {
    /// A status, and the handle that came with it.
    Status { ret: i32, id: u32 },
    /// It worked.
    Done,
    /// It did not; holds why.
    Refused(String),
}

/// What a call gave, as a value.
pub enum Gave {
    Status(i32, u32),
    Done,
    Refused(Seq<char>),
}

impl View for Outcome {
    type V = Gave;

    open spec fn view(&self) -> Gave {
        match self {
            Outcome::Status { ret, id } => Gave::Status(*ret, *id),
            Outcome::Done => Gave::Done,
            Outcome::Refused(why) => Gave::Refused(why@),
        }
    }
}

impl Gave {
    /// The status of a call; one that gave none counts as worked or failed.
    pub open spec fn ret(self) -> i32 {
        match self {
            Gave::Status(ret, _) => ret,
            Gave::Done => STATUS_NOERROR,
            Gave::Refused(_) => 0x07,
        }
    }

    /// The handle that came with it.
    pub open spec fn id(self) -> u32 {
        match self {
            Gave::Status(_, id) => id,
            _ => 0,
        }
    }
}

impl Outcome {
    /// The status of a call; one that gave none counts as worked or failed.
    pub fn ret(&self) -> (r: i32)
        ensures
            r == self@.ret(),
    {
        match self {
            Outcome::Status { ret, .. } => *ret,
            Outcome::Done => STATUS_NOERROR,
            Outcome::Refused(_) => 0x07,
        }
    }

    /// The handle that came with it.
    pub fn id(&self) -> (r: u32)
        ensures
            r == self@.id(),
    {
        match self {
            Outcome::Status { id, .. } => *id,
            _ => 0,
        }
    }
}

/// What is opened.
#[derive(Debug, Clone)]
pub struct Plan {
    /// The driver.
    pub path: String,
    pub bitrate: u32,
    pub kind: Kind,
}

/// What is opened, as a value.
pub struct PlanValue {
    pub path: Seq<char>,
    pub bitrate: u32,
    pub kind: Kind,
}

impl View for Plan {
    type V = PlanValue;

    open spec fn view(&self) -> PlanValue {
        PlanValue { path: self.path@, bitrate: self.bitrate, kind: self.kind }
    }
}

/// Where an opening stands, and what it will fail with once it is undone.
#[derive(Debug, Clone)]
pub struct Run {
    pub stage: Stage,
    pub failure: String,
}

/// Where an opening stands, as a value.
pub struct RunValue {
    pub stage: Stage,
    pub failure: Seq<char>,
}

impl View for Run {
    type V = RunValue;

    open spec fn view(&self) -> RunValue {
        RunValue { stage: self.stage, failure: self.failure@ }
    }
}

/// At a stage, with nothing to undo.
pub open spec fn at(stage: Stage) -> RunValue {
    RunValue { stage, failure: Seq::empty() }
}

/// At the end, failed.
pub open spec fn failed(why: Seq<char>) -> (RunValue, Asked) {
    (at(Stage::Ended), Asked::Fail(why))
}

/// How a failed connection is called.
pub open spec fn connect_name(plan: PlanValue) -> Seq<char> {
    (match plan.kind {
        Kind::Can => "PassThruConnect (CAN, "@,
        Kind::IsoTp { .. } => "PassThruConnect (ISO15765, "@,
    }) + dec(plan.bitrate as nat) + " bps)"@
}

/// How a failed filter is called.
pub open spec fn filter_name(kind: Kind) -> Seq<char> {
    match kind {
        Kind::Can => "PassThruStartMsgFilter (PASS, pass-all)"@,
        Kind::IsoTp { .. } => "PassThruStartMsgFilter"@,
    }
}

/// How a thread is called.
pub open spec fn thread_name(kind: Kind, transmits: bool) -> Seq<char> {
    match kind {
        Kind::Can => if transmits {
            "Failed to spawn J2534 CAN TX thread: "@
        } else {
            "Failed to spawn J2534 CAN RX thread: "@
        },
        Kind::IsoTp { .. } => if transmits {
            "Failed to spawn J2534 ISO-TP TX thread: "@
        } else {
            "Failed to spawn J2534 ISO-TP RX thread: "@
        },
    }
}

/// The connection that is asked for.
pub open spec fn connection(plan: PlanValue, device: u32) -> (RunValue, Asked) {
    (
        at(Stage::Connecting { device }),
        Asked::Connect(
            device,
            match plan.kind {
                Kind::Can => PROTOCOL_CAN,
                Kind::IsoTp { .. } => PROTOCOL_ISO15765,
            },
            0,
            plan.bitrate,
        ),
    )
}

/// An empty padded message for an identifier.
pub open spec fn padded(can_id: u32) -> Msg {
    Msg {
        tx_flags: ISO15765_FRAME_PAD,
        ..msg_of(PROTOCOL_ISO15765, can_id, Seq::empty())
    }
}

/// The filter that is asked for: every frame passes a raw CAN channel; an
/// ISO 15765 channel takes the frames of one module exactly, and answers them with
/// padded flow control.
pub open spec fn filter(kind: Kind, channel: u32) -> Asked {
    match kind {
        Kind::Can => Asked::StartFilter(
            channel,
            FILTER_PASS,
            msg_of(PROTOCOL_CAN, 0, Seq::empty()),
            msg_of(PROTOCOL_CAN, 0, Seq::empty()),
            None,
        ),
        Kind::IsoTp { tx_id, rx_id, .. } => Asked::StartFilter(
            channel,
            FILTER_FLOW_CONTROL,
            padded(0xFFFF_FFFF),
            padded(rx_id),
            Some(padded(tx_id)),
        ),
    }
}

/// The separation time that is set.
pub open spec fn stmin_value(kind: Kind) -> u32 {
    match kind {
        Kind::Can => 0,
        Kind::IsoTp { stmin_us, .. } => stmin_byte(
            match stmin_us {
                Some(us) => us as int,
                None => DEFAULT_STMIN_US as int,
            },
        ) as u32,
    }
}

/// How an opening begins. A raw CAN channel loads the driver and opens the device
/// itself; an ISO 15765 channel is opened on a device that is open already.
pub open spec fn begun(plan: PlanValue, device: u32) -> (RunValue, Asked) {
    match plan.kind {
        Kind::Can => (at(Stage::Loading), Asked::LoadLibrary),
        Kind::IsoTp { .. } => connection(plan, device),
    }
}

/// How an opening goes on.
pub open spec fn stepped(plan: PlanValue, run: RunValue, gave: Gave) -> (RunValue, Asked) {
    match run.stage {
        Stage::Loading => match gave {
            Gave::Refused(e) => failed("Cannot load "@ + plan.path + ": "@ + e),
            _ => (at(Stage::Symbol(0)), Asked::FindSymbol(symbol_name(0))),
        },
        Stage::Symbol(i) => match gave {
            Gave::Refused(e) => failed(
                "Symbol "@ + symbol_name(i as int) + " not found in "@ + plan.path + ": "@ + e,
            ),
            _ => if i + 1 < SYMBOLS {
                (at(Stage::Symbol((i + 1) as usize)), Asked::FindSymbol(symbol_name(i + 1)))
            } else {
                (at(Stage::Opening), Asked::Open)
            },
        },
        Stage::Opening => if gave.ret() != STATUS_NOERROR {
            failed(failure("PassThruOpen"@, gave.ret()))
        } else {
            connection(plan, gave.id())
        },
        Stage::Connecting { device } => if gave.ret() != STATUS_NOERROR {
            let why = failure(connect_name(plan), gave.ret());
            match plan.kind {
                Kind::Can => (
                    RunValue { stage: Stage::Closing, failure: why },
                    Asked::Close(device),
                ),
                Kind::IsoTp { .. } => failed(why),
            }
        } else {
            (
                at(Stage::Filtering { device, channel: gave.id() }),
                filter(plan.kind, gave.id()),
            )
        },
        Stage::Filtering { device, channel } => if gave.ret() != STATUS_NOERROR {
            (
                RunValue {
                    stage: Stage::Disconnecting { device },
                    failure: failure(filter_name(plan.kind), gave.ret()),
                },
                Asked::Disconnect(channel),
            )
        } else {
            match plan.kind {
                Kind::Can => (at(Stage::SpawningTx { device, channel }), Asked::SpawnTransmitter),
                Kind::IsoTp { .. } => (
                    at(Stage::Clearing { device, channel }),
                    Asked::ClearReceiveBuffer(channel),
                ),
            }
        },
        Stage::Clearing { device, channel } => (
            at(Stage::SettingReceive { device, channel }),
            Asked::SetConfig(channel, IOCTL_PARAM_ISO15765_STMIN, 0),
        ),
        Stage::SettingReceive { device, channel } => (
            at(Stage::SettingTransmit { device, channel }),
            Asked::SetConfig(channel, IOCTL_PARAM_STMIN_TX, stmin_value(plan.kind)),
        ),
        Stage::SettingTransmit { device, channel } => (
            at(Stage::SpawningTx { device, channel }),
            Asked::SpawnTransmitter,
        ),
        Stage::SpawningTx { device, channel } => match gave {
            Gave::Refused(e) => failed(thread_name(plan.kind, true) + e),
            _ => (at(Stage::SpawningRx { device, channel }), Asked::SpawnReceiver),
        },
        Stage::SpawningRx { device, channel } => match gave {
            Gave::Refused(e) => failed(thread_name(plan.kind, false) + e),
            _ => (at(Stage::Ended), Asked::Ready(device, channel)),
        },
        Stage::Disconnecting { device } => match plan.kind {
            Kind::Can => (
                RunValue { stage: Stage::Closing, failure: run.failure },
                Asked::Close(device),
            ),
            Kind::IsoTp { .. } => failed(run.failure),
        },
        Stage::Closing | Stage::Ended => failed(run.failure),
    }
}

fn stay(stage: Stage) -> (r: Run)
    ensures
        r@ == at(stage),
{
    Run { stage, failure: String::new() }
}

fn fail(why: String) -> (r: (Run, Call))
    ensures
        (r.0@, r.1@) == failed(why@),
{
    (stay(Stage::Ended), Call::Fail(why))
}

fn connect(plan: &Plan, device: u32) -> (r: (Run, Call))
    ensures
        (r.0@, r.1@) == connection(plan@, device),
{
    let protocol: u32 = match plan.kind {
        Kind::Can => PROTOCOL_CAN,
        Kind::IsoTp { .. } => PROTOCOL_ISO15765,
    };
    (
        stay(Stage::Connecting { device }),
        Call::Connect { device, protocol, flags: 0, bitrate: plan.bitrate },
    )
}

fn start_filter(kind: Kind, channel: u32) -> (r: Call)
    ensures
        r@ == filter(kind, channel),
{
    match kind {
        Kind::Can => {
            let all = PassThruMsg::new(PROTOCOL_CAN, 0, &[]);
            assert(all@ == msg_of(PROTOCOL_CAN, 0, Seq::empty()));
            Call::StartFilter {
                channel,
                kind: FILTER_PASS,
                mask: all,
                pattern: all,
                flow_control: None,
            }
        },
        Kind::IsoTp { tx_id, rx_id, .. } => {
            let mask = outgoing(0xFFFF_FFFF, &[], true);
            let pattern = outgoing(rx_id, &[], true);
            let flow = outgoing(tx_id, &[], true);
            assert(mask@ == padded(0xFFFF_FFFF));
            assert(pattern@ == padded(rx_id));
            assert(flow@ == padded(tx_id));
            Call::StartFilter {
                channel,
                kind: FILTER_FLOW_CONTROL,
                mask,
                pattern,
                flow_control: Some(flow),
            }
        },
    }
}

fn connect_title(plan: &Plan) -> (s: String)
    ensures
        s@ == connect_name(plan@),
{
    let mut s: String = match plan.kind {
        Kind::Can => "PassThruConnect (CAN, ".to_owned(),
        Kind::IsoTp { .. } => "PassThruConnect (ISO15765, ".to_owned(),
    };
    push_dec(&mut s, plan.bitrate as u64);
    s.push_str(" bps)");
    s
}

fn thread_failure(kind: Kind, transmits: bool, why: &String) -> (s: String)
    ensures
        s@ == thread_name(kind, transmits) + why@,
{
    let head: &'static str = match kind {
        Kind::Can => if transmits {
            "Failed to spawn J2534 CAN TX thread: "
        } else {
            "Failed to spawn J2534 CAN RX thread: "
        },
        Kind::IsoTp { .. } => if transmits {
            "Failed to spawn J2534 ISO-TP TX thread: "
        } else {
            "Failed to spawn J2534 ISO-TP RX thread: "
        },
    };
    let mut s: String = head.to_owned();
    s.push_str(why.as_str());
    s
}

/// Begin to open a channel. `device` is the open device of an ISO 15765 channel.
pub fn open(plan: &Plan, device: u32) -> (r: (Run, Call))
    ensures
        (r.0@, r.1@) == begun(plan@, device),
{
    match plan.kind {
        Kind::Can => (stay(Stage::Loading), Call::LoadLibrary),
        Kind::IsoTp { .. } => connect(plan, device),
    }
}

fn filtered(plan: &Plan, device: u32, channel: u32, ret: i32) -> (r: (Run, Call))
    ensures
        (r.0@, r.1@) == stepped(
            plan@,
            at(Stage::Filtering { device, channel }),
            Gave::Status(ret, 0),
        ),
{
    if ret != STATUS_NOERROR {
        let title: &'static str = match plan.kind {
            Kind::Can => "PassThruStartMsgFilter (PASS, pass-all)",
            Kind::IsoTp { .. } => "PassThruStartMsgFilter",
        };
        (
            Run {
                stage: Stage::Disconnecting { device },
                failure: describe_failure(title, ret),
            },
            Call::Disconnect { channel },
        )
    } else {
        match plan.kind {
            Kind::Can => (stay(Stage::SpawningTx { device, channel }), Call::SpawnTransmitter),
            Kind::IsoTp { .. } => (
                stay(Stage::Clearing { device, channel }),
                Call::ClearReceiveBuffer { channel },
            ),
        }
    }
}

fn separation(kind: Kind) -> (r: u32)
    ensures
        r == stmin_value(kind),
{
    match kind {
        Kind::Can => 0,
        Kind::IsoTp { stmin_us, .. } => {
            let us: u32 = match stmin_us {
                Some(us) => us,
                None => DEFAULT_STMIN_US,
            };
            us_to_stmin_byte(us) as u32
        },
    }
}

/// Go on with what the last call gave.
pub fn step(plan: &Plan, run: &Run, outcome: &Outcome) -> (r: (Run, Call))
    requires
        run.stage matches Stage::Symbol(i) ==> i < SYMBOLS,
        !(run.stage is Ended),
    ensures
        (r.0@, r.1@) == stepped(plan@, run@, outcome@),
{
    match run.stage {
        Stage::Loading => match outcome {
            Outcome::Refused(e) => {
                let mut s: String = "Cannot load ".to_owned();
                s.push_str(plan.path.as_str());
                s.push_str(": ");
                s.push_str(e.as_str());
                fail(s)
            },
            _ => (stay(Stage::Symbol(0)), Call::FindSymbol(symbol(0))),
        },
        Stage::Symbol(i) => match outcome {
            Outcome::Refused(e) => {
                let mut s: String = "Symbol ".to_owned();
                s.push_str(symbol(i));
                s.push_str(" not found in ");
                s.push_str(plan.path.as_str());
                s.push_str(": ");
                s.push_str(e.as_str());
                fail(s)
            },
            _ => if i + 1 < SYMBOLS {
                (stay(Stage::Symbol(i + 1)), Call::FindSymbol(symbol(i + 1)))
            } else {
                (stay(Stage::Opening), Call::Open)
            },
        },
        Stage::Opening => if outcome.ret() != STATUS_NOERROR {
            fail(describe_failure("PassThruOpen", outcome.ret()))
        } else {
            connect(plan, outcome.id())
        },
        Stage::Connecting { device } => if outcome.ret() != STATUS_NOERROR {
            let why = describe_failure(connect_title(plan).as_str(), outcome.ret());
            match plan.kind {
                Kind::Can => (
                    Run { stage: Stage::Closing, failure: why },
                    Call::Close { device },
                ),
                Kind::IsoTp { .. } => fail(why),
            }
        } else {
            let channel: u32 = outcome.id();
            (stay(Stage::Filtering { device, channel }), start_filter(plan.kind, channel))
        },
        Stage::Filtering { device, channel } => filtered(plan, device, channel, outcome.ret()),
        Stage::Clearing { device, channel } => (
            stay(Stage::SettingReceive { device, channel }),
            Call::SetConfig { channel, parameter: IOCTL_PARAM_ISO15765_STMIN, value: 0 },
        ),
        Stage::SettingReceive { device, channel } => {
            let value: u32 = separation(plan.kind);
            (
                stay(Stage::SettingTransmit { device, channel }),
                Call::SetConfig { channel, parameter: IOCTL_PARAM_STMIN_TX, value },
            )
        },
        Stage::SettingTransmit { device, channel } => (
            stay(Stage::SpawningTx { device, channel }),
            Call::SpawnTransmitter,
        ),
        Stage::SpawningTx { device, channel } => match outcome {
            Outcome::Refused(e) => fail(thread_failure(plan.kind, true, e)),
            _ => (stay(Stage::SpawningRx { device, channel }), Call::SpawnReceiver),
        },
        Stage::SpawningRx { device, channel } => match outcome {
            Outcome::Refused(e) => fail(thread_failure(plan.kind, false, e)),
            _ => (stay(Stage::Ended), Call::Ready { device, channel }),
        },
        Stage::Disconnecting { device } => match plan.kind {
            Kind::Can => (
                Run { stage: Stage::Closing, failure: run.failure.clone() },
                Call::Close { device },
            ),
            Kind::IsoTp { .. } => fail(run.failure.clone()),
        },
        Stage::Closing | Stage::Ended => fail(run.failure.clone()),
    }
}

/// What is logged where the separation time could not be set; the adapter then
/// uses its own.
pub fn stmin_warning(ret: i32) -> (s: String)
    ensures
        s@ == failure("STMIN_TX ioctl"@, ret)
            + " — adapter will use its default separation time"@,
{
    let mut s = describe_failure("STMIN_TX ioctl", ret);
    s.push_str(" — adapter will use its default separation time");
    s
}

/// A raw CAN channel whose filter is refused is disconnected and its device
/// closed before the failure is told.
pub proof fn law_a_refused_filter_is_undone(
    plan: PlanValue,
    device: u32,
    channel: u32,
    gave: Gave,
    first: Gave,
    second: Gave,
)
    requires
        plan.kind == Kind::Can,
        gave.ret() != STATUS_NOERROR,
    ensures
        ({
            let a = stepped(plan, at(Stage::Filtering { device, channel }), gave);
            let b = stepped(plan, a.0, first);
            let c = stepped(plan, b.0, second);
            &&& a.1 == Asked::Disconnect(channel)
            &&& b.1 == Asked::Close(device)
            &&& c.1 == Asked::Fail(failure(filter_name(Kind::Can), gave.ret()))
        }),
{
}

/// The device of an ISO 15765 channel stays open, however opening the channel
/// ends: it belongs to the caller.
pub proof fn law_a_lent_device_is_never_closed(plan: PlanValue, run: RunValue, gave: Gave)
    requires
        plan.kind is IsoTp,
    ensures
        !(stepped(plan, run, gave).1 is Close),
{
}

/// A channel is told to be ready only after both of its threads run.
pub proof fn law_ready_comes_last(plan: PlanValue, run: RunValue, gave: Gave)
    requires
        stepped(plan, run, gave).1 is Ready,
    ensures
        run.stage is SpawningRx,
        !(gave is Refused),
{
}

} // verus!
