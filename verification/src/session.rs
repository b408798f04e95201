//! One ECU connection, held open across several operations.
//!
//! A connection takes one of two shapes. On raw CAN, ISO-TP is layered per
//! operation, so any ID pair can be addressed over the one device. A hardware
//! ISO 15765 channel fixes its addresses and timing when it opens, and there are
//! no raw frames to be had.

use vstd::prelude::*;

use crate::flash::{
    channel_settings, make_isotp_config_with_timeout, separation_time, IsoTpSettings, FLASH_TIMEOUT,
    IDENT_TIMEOUT,
};
use crate::identify::{ident_channels, IdentChannel};
use crate::interface::{supports_raw_can, Iface, Interface};
use crate::module::FlashInfo;
use crate::text::{hex_upper, push_hex};
use crate::uds::{FlashError, Trouble};

verus! {

/// The diagnostic ID pair a module answers on.
pub open spec fn id_pair(flash_info: FlashInfo) -> (u32, u32) {
    (flash_info.control_module_identifier.txid, flash_info.control_module_identifier.rxid)
}

/// The diagnostic ID pair a module answers on.
pub fn channel_ids(flash_info: &FlashInfo) -> (r: (u32, u32))
    ensures
        r == id_pair(*flash_info),
{
    (flash_info.control_module_identifier.txid, flash_info.control_module_identifier.rxid)
}

/// Whether one open session can serve every identification channel. Decided from
/// the interface before anything is opened.
pub fn shares_one_session(interface: &Interface) -> (r: bool)
    ensures
        r == interface@.raw_can(),
{
    supports_raw_can(interface)
}

/// What is known of a connection to an ECU.
#[derive(Debug)]
pub struct Session {
    /// The interface the session was opened on.
    pub interface: Interface,
    /// Whether the session is still open.
    pub open: bool,
    /// The diagnostic ID pair the session was opened for.
    pub channel: (u32, u32),
    /// How long to wait for a response to a single request, in milliseconds.
    pub timeout: u64,
    /// Separation time fixed when the channel opened, in microseconds.
    pub separation_time_min: Option<u32>,
}

/// A session as a value.
pub struct Link {
    pub interface: Iface,
    pub open: bool,
    pub channel: (u32, u32),
    pub timeout: u64,
    pub separation_time_min: Option<u32>,
}

impl View for Session {
    type V = Link;

    open spec fn view(&self) -> Link {
        Link {
            interface: self.interface@,
            open: self.open,
            channel: self.channel,
            timeout: self.timeout,
            separation_time_min: self.separation_time_min,
        }
    }
}

/// A session that was just opened. Only a hardware ISO 15765 channel fixes the
/// separation time at once.
pub open spec fn opened(
    interface: Iface,
    flash_info: FlashInfo,
    stmin_override: Option<u32>,
    timeout: u64,
) -> Link {
    Link {
        interface,
        open: true,
        channel: id_pair(flash_info),
        timeout,
        separation_time_min: if interface.raw_can() {
            None
        } else {
            Some(separation_time(stmin_override, flash_info))
        },
    }
}

impl Link {
    /// Whether the session can talk to a module.
    pub open spec fn serves(self, flash_info: FlashInfo) -> bool {
        self.open && (self.interface.raw_can() || self.channel == id_pair(flash_info))
    }

    /// Why a session cannot talk to a module.
    pub open spec fn refusal(self, flash_info: FlashInfo) -> Seq<char> {
        "this session is bound to the ISO 15765 channel 0x"@ + hex_upper(self.channel.0 as nat, 3)
            + "/0x"@ + hex_upper(self.channel.1 as nat, 3) + " and cannot reach 0x"@ + hex_upper(
            id_pair(flash_info).0 as nat,
            3,
        ) + "/0x"@ + hex_upper(id_pair(flash_info).1 as nat, 3)
            + ". A hardware ISO-TP channel's addresses are fixed when it opens — open a session for that channel instead."@
    }
}

fn open_with(
    interface: Interface,
    flash_info: &FlashInfo,
    stmin_override: Option<u32>,
    timeout: u64,
) -> (r: Session)
    ensures
        r@ == opened(interface@, *flash_info, stmin_override, timeout),
{
    let separation_time_min = if supports_raw_can(&interface) {
        None
    } else {
        Some(
            match stmin_override {
                Some(us) => us,
                None => flash_info.default_stmin_us,
            },
        )
    };
    Session {
        interface,
        open: true,
        channel: channel_ids(flash_info),
        timeout,
        separation_time_min,
    }
}

impl Session {
    /// A session on a module's diagnostic channel.
    pub fn open(interface: Interface, flash_info: &FlashInfo, stmin_override: Option<u32>) -> (r:
        Session)
        ensures
            r@ == opened(interface@, *flash_info, stmin_override, FLASH_TIMEOUT),
    {
        open_with(interface, flash_info, stmin_override, FLASH_TIMEOUT)
    }

    /// A session for identifying what is on a channel: it gives up sooner,
    /// because a scan asks addresses that may have nothing behind them. Not for
    /// flashing.
    pub fn open_for_identify(interface: Interface, flash_info: &FlashInfo) -> (r: Session)
        ensures
            r@ == opened(interface@, *flash_info, None, IDENT_TIMEOUT),
    {
        open_with(interface, flash_info, None, IDENT_TIMEOUT)
    }

    /// The interface the session was opened on.
    pub fn interface(&self) -> (r: &Interface)
        ensures
            *r == self.interface,
    {
        &self.interface
    }

    /// ISO-TP configuration for an operation on this session.
    pub fn config(&self, flash_info: &FlashInfo) -> (r: IsoTpSettings)
        ensures
            r == (IsoTpSettings {
                separation_time_min: self.separation_time_min,
                ..channel_settings(*flash_info, self.timeout)
            }),
    {
        let mut r = make_isotp_config_with_timeout(flash_info, self.timeout);
        r.separation_time_min = self.separation_time_min;
        r
    }

    /// Whether the connection carries raw frames.
    pub fn raw_can(&self) -> (r: bool)
        ensures
            r == (self.open && self.interface@.raw_can()),
    {
        self.open && supports_raw_can(&self.interface)
    }

    /// Whether this session can talk to a module's diagnostic channel. Always so
    /// on raw CAN; on a hardware ISO 15765 connection only for the ID pair it was
    /// opened with, as asking for another would talk to the wrong ECU.
    pub fn can_serve(&self, flash_info: &FlashInfo) -> (r: bool)
        ensures
            r == self@.serves(*flash_info),
    {
        if !self.open {
            return false;
        }
        if supports_raw_can(&self.interface) {
            return true;
        }
        let (tx, rx) = channel_ids(flash_info);
        self.channel.0 == tx && self.channel.1 == rx
    }

    /// Fail unless this session can talk to a module's diagnostic channel.
    pub fn require_channel(&self, flash_info: &FlashInfo) -> (r: Result<(), FlashError>)
        ensures
            r is Ok <==> self@.serves(*flash_info),
            r matches Err(e) ==> e@ == Trouble::Interface(self@.refusal(*flash_info)),
    {
        if self.can_serve(flash_info) {
            return Ok(());
        }
        let (tx, rx) = channel_ids(flash_info);
        let mut why = "this session is bound to the ISO 15765 channel 0x".to_owned();
        push_hex(&mut why, self.channel.0 as u64, 3);
        why.push_str("/0x");
        push_hex(&mut why, self.channel.1 as u64, 3);
        why.push_str(" and cannot reach 0x");
        push_hex(&mut why, tx as u64, 3);
        why.push_str("/0x");
        push_hex(&mut why, rx as u64, 3);
        why.push_str(
            ". A hardware ISO-TP channel's addresses are fixed when it opens — open a session for that channel instead.",
        );
        Err(FlashError::Interface(why))
    }

    /// Close the session.
    pub fn close(&mut self)
        ensures
            final(self)@ == (Link { open: false, ..old(self)@ }),
    {
        self.open = false;
    }
}

/// What a bus scan is doing, reported as it happens.
#[derive(Debug, Clone, Copy)]
pub enum ScanProgress {
    /// About to probe `channel`, the `index`-th of `total`.
    ChannelStarted { channel: IdentChannel, index: usize, total: usize },
    /// `channel` answered and was identified.
    ChannelAnswered { channel: IdentChannel },
    /// Nothing usable on `channel`.
    ChannelSilent { channel: IdentChannel },
}

/// What a bus scan does next.
#[derive(Debug, Clone, Copy, PartialEq, Eq, Structural)]
pub enum ScanAction {
    /// Open the session that serves every channel; it may fail.
    OpenShared,
    /// Probe a channel over the shared session.
    ProbeShared(usize),
    /// Open a session for a channel, probe it, and close it again.
    ProbeAlone(usize),
    /// Close the shared session.
    CloseShared,
    /// The scan is over.
    Finished,
}

/// The number of channels a scan walks.
pub const SCAN_CHANNELS: usize = 3;

/// The first action of a scan.
pub open spec fn first_scan(interface: Iface) -> ScanAction {
    if interface.raw_can() {
        ScanAction::OpenShared
    } else {
        ScanAction::ProbeAlone(0)
    }
}

/// The action that follows one; `worked` tells whether a session opened. Every
/// channel is probed, over the shared session wherever there is one.
pub open spec fn next_scan(action: ScanAction, worked: bool) -> ScanAction {
    match action {
        ScanAction::OpenShared => if worked {
            ScanAction::ProbeShared(0)
        } else {
            ScanAction::ProbeAlone(0)
        },
        ScanAction::ProbeShared(i) => if i + 1 < SCAN_CHANNELS {
            ScanAction::ProbeShared((i + 1) as usize)
        } else {
            ScanAction::CloseShared
        },
        ScanAction::ProbeAlone(i) => if i + 1 < SCAN_CHANNELS {
            ScanAction::ProbeAlone((i + 1) as usize)
        } else {
            ScanAction::Finished
        },
        ScanAction::CloseShared => ScanAction::Finished,
        ScanAction::Finished => ScanAction::Finished,
    }
}

/// Start a scan of every channel on the bus.
pub fn begin_scan(interface: &Interface) -> (r: ScanAction)
    ensures
        r == first_scan(interface@),
{
    if shares_one_session(interface) {
        ScanAction::OpenShared
    } else {
        ScanAction::ProbeAlone(0)
    }
}

/// Go on with a scan.
pub fn continue_scan(action: ScanAction, worked: bool) -> (r: ScanAction)
    ensures
        r == next_scan(action, worked),
{
    match action {
        ScanAction::OpenShared => if worked {
            ScanAction::ProbeShared(0)
        } else {
            ScanAction::ProbeAlone(0)
        },
        ScanAction::ProbeShared(i) => if i < SCAN_CHANNELS - 1 {
            ScanAction::ProbeShared(i + 1)
        } else {
            ScanAction::CloseShared
        },
        ScanAction::ProbeAlone(i) => if i < SCAN_CHANNELS - 1 {
            ScanAction::ProbeAlone(i + 1)
        } else {
            ScanAction::Finished
        },
        ScanAction::CloseShared => ScanAction::Finished,
        ScanAction::Finished => ScanAction::Finished,
    }
}

/// What is reported before a channel is probed.
pub fn report_started(index: usize) -> (r: ScanProgress)
    requires
        index < SCAN_CHANNELS,
    ensures
        r matches ScanProgress::ChannelStarted { channel, index: i, total } && i == index && total
            == SCAN_CHANNELS && channel@ == crate::identify::channel_at(index as int),
{
    let channels = ident_channels();
    ScanProgress::ChannelStarted { channel: channels[index], index, total: SCAN_CHANNELS }
}

/// What is reported after a channel was probed.
pub fn report_probed(index: usize, answered: bool) -> (r: ScanProgress)
    requires
        index < SCAN_CHANNELS,
    ensures
        match r {
            ScanProgress::ChannelAnswered { channel } => answered && channel@
                == crate::identify::channel_at(index as int),
            ScanProgress::ChannelSilent { channel } => !answered && channel@
                == crate::identify::channel_at(index as int),
            _ => false,
        },
{
    let channels = ident_channels();
    let channel = channels[index];
    if answered {
        ScanProgress::ChannelAnswered { channel }
    } else {
        ScanProgress::ChannelSilent { channel }
    }
}

/// Sharing one session is exactly what an open session would have promised: on
/// raw CAN it serves every module, on a hardware channel only its own.
pub proof fn law_sharing_predicts_what_an_open_session_serves(
    interface: Iface,
    opened_for: FlashInfo,
    asked: FlashInfo,
    timeout: u64,
)
    ensures
        opened(interface, opened_for, None, timeout).serves(opened_for),
        opened(interface, opened_for, None, timeout).serves(asked) <==> interface.raw_can()
            || id_pair(opened_for) == id_pair(asked),
{
}

/// A probe of a possibly empty address gives up sooner than a flash.
pub proof fn law_identifying_waits_less_than_flashing(interface: Iface, flash_info: FlashInfo)
    ensures
        opened(interface, flash_info, None, IDENT_TIMEOUT).timeout < opened(
            interface,
            flash_info,
            None,
            FLASH_TIMEOUT,
        ).timeout,
{
}

/// The actions of a scan; `n` bounds how many are listed.
pub open spec fn scan(from: ScanAction, worked: bool, n: nat) -> Seq<ScanAction>
    decreases n,
{
    if n == 0 {
        Seq::empty()
    } else {
        seq![from] + scan(next_scan(from, worked), worked, (n - 1) as nat)
    }
}

/// A scan probes every channel once. A hardware ISO 15765 interface never opens
/// a shared session, and a shared session that was opened is closed.
pub proof fn law_a_scan_walks_every_channel(interface: Iface, worked: bool)
    ensures
        ({
            let all = scan(first_scan(interface), worked, 6);
            if !interface.raw_can() {
                all.take(4) == seq![
                    ScanAction::ProbeAlone(0),
                    ScanAction::ProbeAlone(1),
                    ScanAction::ProbeAlone(2),
                    ScanAction::Finished,
                ]
            } else if worked {
                all == seq![
                    ScanAction::OpenShared,
                    ScanAction::ProbeShared(0),
                    ScanAction::ProbeShared(1),
                    ScanAction::ProbeShared(2),
                    ScanAction::CloseShared,
                    ScanAction::Finished,
                ]
            } else {
                all.take(5) == seq![
                    ScanAction::OpenShared,
                    ScanAction::ProbeAlone(0),
                    ScanAction::ProbeAlone(1),
                    ScanAction::ProbeAlone(2),
                    ScanAction::Finished,
                ]
            }
        }),
{
    reveal_with_fuel(scan, 7);
}

} // verus!
