//! PassThru devices.

use mqb_flash::j2534::channel::{open, step, stmin_warning, Call, Kind, Outcome, Plan, Run};
use mqb_flash::j2534::driver::{
    check_dll_architecture, dll_machine, only_32bit, resolve_dll_path, DllMachine, PeFault, Process,
    NO_DRIVERS,
};
use mqb_flash::j2534::wire::{
    classify_read, echoes, keeps_reading, outgoing, sent, set_config, status_str, us_to_stmin_byte,
    PassThruMsg, Received, ERR_TIMEOUT, IOCTL_PARAM_STMIN_TX, ISO15765_FRAME_PAD, PROTOCOL_CAN,
};

#[test]
fn separation_times_are_encoded() {
    let cases: [(u32, u8); 12] = [
        (0, 0x00),
        (1, 0x00),
        (49, 0x00),
        (50, 0xF1),
        (99, 0xF1),
        (100, 0xF1),
        (950, 0xF9),
        (999, 0xF9),
        (1_000, 0x01),
        (126_999, 126),
        (127_000, 0x7F),
        (4_000_000_000, 0x7F),
    ];
    for (us, byte) in cases {
        assert_eq!(us_to_stmin_byte(us), byte, "{us}");
    }
}

#[test]
fn statuses_have_names() {
    assert_eq!(status_str(0), "STATUS_NOERROR");
    assert_eq!(status_str(0x1A), "ERR_INVALID_DEVICE_ID");
    assert_eq!(status_str(-1), "ERR_UNKNOWN");
}

#[test]
fn a_message_is_read_back_as_it_was_packed() {
    let msg = PassThruMsg::new(PROTOCOL_CAN, 0x7E0, &[1, 2, 3]);
    assert_eq!((msg.data_size, msg.extra_data_index), (7, 7));
    assert_eq!(msg.data[..8], [0, 0, 0x07, 0xE0, 1, 2, 3, 0]);
    match classify_read(0, 1, &msg, false) {
        Received::Frame { arb_id, data } => assert_eq!((arb_id, data), (0x7E0, vec![1, 2, 3])),
        other => panic!("{other:?}"),
    }
}

#[test]
fn what_is_no_frame_is_skipped() {
    let mut msg = PassThruMsg::default();
    assert!(matches!(classify_read(0, 1, &msg, false), Received::Skipped));
    msg = PassThruMsg::new(PROTOCOL_CAN, 1, &[]);
    msg.rx_status = 1;
    assert!(matches!(classify_read(0, 1, &msg, true), Received::Skipped));
    assert!(matches!(classify_read(0, 1, &msg, false), Received::Frame { .. }));
    let nothing = classify_read(ERR_TIMEOUT, 0, &msg, false);
    assert!(matches!(nothing, Received::Nothing));
    assert!(keeps_reading(&nothing, false));
    assert!(!keeps_reading(&nothing, true));
    let gone = classify_read(0x02, 0, &msg, false);
    assert!(matches!(gone, Received::Disconnected));
    assert!(!keeps_reading(&gone, false));
}

#[test]
fn transmissions_are_told() {
    assert!(echoes(0));
    assert!(!echoes(7));
    assert!(sent(0).is_ok());
    assert_eq!(sent(0x17).unwrap_err(), "ISO15765 TX failed: 0x17 (ERR_NO_FLOW_CONTROL)");
    assert_eq!(outgoing(0x7E0, &[1], true).tx_flags, ISO15765_FRAME_PAD);
    assert_eq!(outgoing(0x7E0, &[1], false).tx_flags, 0);
    let list = set_config(IOCTL_PARAM_STMIN_TX, 5);
    assert_eq!((list.num_of_params, list.params.len()), (1, 1));
    assert_eq!(list.params[0].value, 5);
}

fn library(machine: u16) -> Vec<u8> {
    let mut file = vec![0u8; 0x80];
    file[..2].copy_from_slice(b"MZ");
    file[0x3C..0x40].copy_from_slice(&0x50u32.to_le_bytes());
    file[0x50..0x54].copy_from_slice(b"PE\0\0");
    file[0x54..0x56].copy_from_slice(&machine.to_le_bytes());
    file
}

#[test]
fn a_library_tells_what_it_was_built_for() {
    assert_eq!(dll_machine(&library(0x014C)), Ok(DllMachine::X86));
    assert_eq!(dll_machine(&library(0x8664)), Ok(DllMachine::X64));
    assert_eq!(dll_machine(&library(0xAA64)), Ok(DllMachine::Arm64));
    assert_eq!(dll_machine(&library(0x0200)), Ok(DllMachine::Other(0x0200)));
    assert_eq!(dll_machine(b"M"), Err(PeFault::Short));
    assert_eq!(dll_machine(b"ELF"), Err(PeFault::NoMzHeader));
    assert_eq!(dll_machine(&library(0)[..0x30]), Err(PeFault::Short));
    let mut bad = library(0);
    bad[0x50] = 0;
    assert_eq!(dll_machine(&bad), Err(PeFault::BadSignature));
}

#[test]
fn a_library_for_another_processor_is_refused() {
    let e = check_dll_architecture("x.dll", Process::X64, Ok(DllMachine::X86)).unwrap_err();
    assert!(e.starts_with("J2534 DLL 'x.dll' is 32-bit"));
    let e = check_dll_architecture("x.dll", Process::X86, Ok(DllMachine::X64)).unwrap_err();
    assert!(e.contains("is 64-bit"));
    assert!(check_dll_architecture("x.dll", Process::X64, Ok(DllMachine::X64)).is_ok());
    assert!(check_dll_architecture("x.dll", Process::X64, Err(PeFault::Short)).is_ok());
}

#[test]
fn the_first_registered_driver_is_taken() {
    let list = |names: &[&str]| names.iter().map(|n| (*n).to_owned()).collect::<Vec<String>>();
    assert_eq!(resolve_dll_path(Some("mine.dll"), &list(&[]), &list(&[])).unwrap(), "mine.dll");
    assert_eq!(resolve_dll_path(None, &list(&["a", "b"]), &list(&["c"])).unwrap(), "a");
    assert_eq!(resolve_dll_path(None, &list(&[]), &list(&[])).unwrap_err(), NO_DRIVERS);
    let e = resolve_dll_path(None, &list(&[]), &list(&["c", "d"])).unwrap_err();
    assert!(e.contains("\n  c\n  d\n"));
    assert_eq!(only_32bit(&list(&["a"]), &list(&["a", "c"])), list(&["c"]));
}

/// Open a channel on a device that refuses one call.
fn opening(plan: &Plan, refuse: impl Fn(&Call) -> Option<Outcome>) -> Vec<Call> {
    let (mut run, mut call): (Run, Call) = open(plan, 3);
    let mut seen = vec![call.clone()];
    while !matches!(call, Call::Ready { .. } | Call::Fail(_)) {
        let outcome = refuse(&call).unwrap_or(match call {
            Call::Open => Outcome::Status { ret: 0, id: 3 },
            Call::Connect { .. } => Outcome::Status { ret: 0, id: 8 },
            _ => Outcome::Done,
        });
        let next = step(plan, &run, &outcome);
        run = next.0;
        call = next.1;
        seen.push(call.clone());
    }
    seen
}

fn can() -> Plan {
    Plan { path: "p.dll".to_owned(), bitrate: 500_000, kind: Kind::Can }
}

fn isotp(stmin_us: Option<u32>) -> Plan {
    Plan {
        path: "p.dll".to_owned(),
        bitrate: 500_000,
        kind: Kind::IsoTp { tx_id: 0x7E0, rx_id: 0x7E8, stmin_us },
    }
}

fn failure(calls: &[Call]) -> String {
    match &calls[calls.len() - 1] {
        Call::Fail(why) => why.clone(),
        other => panic!("{other:?}"),
    }
}

#[test]
fn a_can_channel_opens() {
    let calls = opening(&can(), |_| None);
    assert!(matches!(calls[0], Call::LoadLibrary));
    let symbols = calls.iter().filter(|c| matches!(c, Call::FindSymbol(_))).count();
    assert_eq!(symbols, 7);
    assert!(matches!(calls[calls.len() - 1], Call::Ready { device: 3, channel: 8 }));
}

#[test]
fn a_refused_can_filter_closes_everything() {
    let calls = opening(&can(), |c| match c {
        Call::StartFilter { .. } => Some(Outcome::Status { ret: 0x0C, id: 0 }),
        _ => None,
    });
    let n = calls.len();
    assert!(matches!(calls[n - 3], Call::Disconnect { channel: 8 }));
    assert!(matches!(calls[n - 2], Call::Close { device: 3 }));
    assert_eq!(
        failure(&calls),
        "PassThruStartMsgFilter (PASS, pass-all) failed: 0x0C (ERR_EXCEEDED_LIMIT)"
    );
}

#[test]
fn failures_to_open_are_told() {
    let refused = || Some(Outcome::Refused("why".to_owned()));
    let calls = opening(&can(), |c| match c {
        Call::LoadLibrary => refused(),
        _ => None,
    });
    assert_eq!(failure(&calls), "Cannot load p.dll: why");
    let calls = opening(&can(), |c| match c {
        Call::FindSymbol(_) => refused(),
        _ => None,
    });
    assert_eq!(failure(&calls), "Symbol PassThruOpen\0 not found in p.dll: why");
    let calls = opening(&can(), |c| match c {
        Call::Open => Some(Outcome::Status { ret: 8, id: 0 }),
        _ => None,
    });
    assert_eq!(failure(&calls), "PassThruOpen failed: 0x08 (ERR_DEVICE_NOT_CONNECTED)");
    let calls = opening(&can(), |c| match c {
        Call::Connect { .. } => Some(Outcome::Status { ret: 0x19, id: 0 }),
        _ => None,
    });
    assert!(matches!(calls[calls.len() - 2], Call::Close { device: 3 }));
    assert_eq!(
        failure(&calls),
        "PassThruConnect (CAN, 500000 bps) failed: 0x19 (ERR_INVALID_BAUDRATE)"
    );
    let calls = opening(&can(), |c| match c {
        Call::SpawnTransmitter => refused(),
        _ => None,
    });
    assert_eq!(failure(&calls), "Failed to spawn J2534 CAN TX thread: why");
    let calls = opening(&isotp(None), |c| match c {
        Call::SpawnReceiver => refused(),
        _ => None,
    });
    assert_eq!(failure(&calls), "Failed to spawn J2534 ISO-TP RX thread: why");
}

#[test]
fn an_isotp_channel_opens_on_a_lent_device() {
    let calls = opening(&isotp(Some(300)), |_| None);
    assert!(matches!(calls[0], Call::Connect { device: 3, protocol: 6, flags: 0, bitrate: 500_000 }));
    match &calls[1] {
        Call::StartFilter { channel, kind, mask, pattern, flow_control } => {
            assert_eq!((*channel, *kind), (8, 3));
            assert_eq!(mask.data[..4], [0xFF; 4]);
            assert_eq!(pattern.data[..4], 0x7E8u32.to_be_bytes());
            let flow = flow_control.as_ref().unwrap();
            assert_eq!(flow.data[..4], 0x7E0u32.to_be_bytes());
            assert_eq!(flow.tx_flags, ISO15765_FRAME_PAD);
        }
        other => panic!("{other:?}"),
    }
    assert!(calls.iter().any(|c| matches!(
        c,
        Call::SetConfig { channel: 8, parameter: IOCTL_PARAM_STMIN_TX, value: 0xF3 }
    )));
    let calls = opening(&isotp(None), |c| match c {
        Call::StartFilter { .. } => Some(Outcome::Status { ret: 0x0C, id: 0 }),
        _ => None,
    });
    assert!(!calls.iter().any(|c| matches!(c, Call::Close { .. })));
    assert_eq!(failure(&calls), "PassThruStartMsgFilter failed: 0x0C (ERR_EXCEEDED_LIMIT)");
    assert!(stmin_warning(5).starts_with("STMIN_TX ioctl failed: 0x05"));
}
