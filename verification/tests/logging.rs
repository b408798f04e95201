//! Which events reach the protocol log.

use mqb_flash::logging::{switch, wanted, Level, Switch};

#[test]
fn only_protocol_targets_at_debug_reach_the_file() {
    assert!(wanted("mqb_flash_uds::flash", Level::Debug));
    assert!(wanted("mqb_flash_uds::flash", Level::Info));
    assert!(wanted("automotive::isotp", Level::Debug));
    assert!(wanted("automotive::j2534::isotp_adapter", Level::Debug));

    assert!(!wanted("automotive::isotp", Level::Trace));
    assert!(!wanted("wgpu_core::device", Level::Debug));
    assert!(!wanted("iced_wgpu::window", Level::Info));
}

#[test]
fn switching_on_twice_keeps_the_file() {
    assert_eq!(switch(true, false), Switch::Open);
    assert_eq!(switch(true, true), Switch::Reuse);
    assert_eq!(switch(false, true), Switch::Close);
}
