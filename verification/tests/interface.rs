//! Interfaces as they are written on a command line.

use mqb_flash::interface::{supports_raw_can, Interface};

fn round_trip(text: &str) -> String {
    Interface::from_str(text).unwrap().to_text()
}

#[test]
fn interfaces_read_back_as_written() {
    for text in ["socketcan:can0", "panda", "j2534", "j2534:C:\\op20pt32.dll", "j2534-isotp", "fake:x.can"] {
        assert_eq!(round_trip(text), text);
    }
}

#[test]
fn unknown_interfaces_are_refused() {
    assert!(Interface::from_str("carrier-pigeon").is_err());
}

#[test]
fn only_the_hardware_isotp_interface_lacks_raw_can() {
    assert!(supports_raw_can(&Interface::Panda));
    assert!(!supports_raw_can(&Interface::from_str("j2534-isotp").unwrap()));
    assert!(supports_raw_can(&Interface::from_str("j2534").unwrap()));
}
