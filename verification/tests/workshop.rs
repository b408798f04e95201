//! Workshop codes.

use mqb_flash::workshop::{
    crc8_hash, is_placeholder_signature, is_valid, FlashDate, WorkshopCode, CAL_ID_NONE,
    CAL_ID_UNKNOWN, FALLBACK_WORKSHOP_CODE, SIMOS_FINGERPRINT_END, SIMOS_FINGERPRINT_START,
};

/// The nine bytes captured from a real Simos18 flash session
/// (`tests/simos18_full_flash.can`, request `2e f1 5a …`).
const CAPTURED: [u8; 9] = [0x26, 0x03, 0x11, 0x1E, 0x20, 0x20, 0x20, 0x20, 0x76];

#[test]
fn crc8_matches_smbus_check_value() {
    // Standard CRC-8/SMBUS check value for the ASCII string "123456789".
    assert_eq!(crc8_hash(b"123456789"), 0xF4);
    assert_eq!(crc8_hash(b""), 0x00);
    assert_eq!(crc8_hash(&[0x01, 0x02, 0x03, 0x04, 0x05]), 0xBC);
}

#[test]
fn crc8_matches_captured_workshop_code() {
    assert_eq!(crc8_hash(&CAPTURED[0..8]), 0x76);
}

#[test]
fn captured_code_decodes() {
    let code = WorkshopCode::from_bytes(&CAPTURED);
    assert!(code.is_valid);
    assert!(!code.is_old);
    assert_eq!(code.flash_date, Some(FlashDate::new(2026, 3, 11)));
    assert_eq!(code.asw_checksum, 0x1E);
    assert_eq!(&code.cal_id, b"    ");
    assert_eq!(code.as_bytes(), CAPTURED);
}

#[test]
fn hardcoded_placeholder_is_rejected() {
    assert!(!is_valid(&FALLBACK_WORKSHOP_CODE));
    // Its real CRC is 0x58, not the 0x3D it carries.
    assert_eq!(crc8_hash(&FALLBACK_WORKSHOP_CODE[0..8]), 0x58);

    let code = WorkshopCode::from_bytes(&FALLBACK_WORKSHOP_CODE);
    assert!(!code.is_valid);
    assert!(code.is_old);
    assert_eq!(code.cal_id, CAL_ID_UNKNOWN);
    assert_eq!(code.asw_checksum, 0);
}

#[test]
fn real_code_passes_placeholder_detection() {
    let code = WorkshopCode::new(FlashDate::new(2026, 3, 11), 0x1E, *b"ABCD");
    let bytes = code.as_bytes();
    assert!(is_valid(&bytes));
    assert!(!is_placeholder_signature(&bytes));
    assert!(!WorkshopCode::from_bytes(&bytes).is_old);
    assert_eq!(
        bytes,
        [0x26, 0x03, 0x11, 0x1E, b'A', b'B', b'C', b'D', 0xD7]
    );
}

#[test]
fn simos_constructor_concatenates_asw_and_reads_cal_fingerprint() {
    let mut cal = vec![0u8; 0x100];
    cal[SIMOS_FINGERPRINT_START..SIMOS_FINGERPRINT_END].copy_from_slice(b"ABCD");

    let code = WorkshopCode::for_simos(
        &[&[0x01, 0x02, 0x03], &[0x04, 0x05]],
        &cal,
        FlashDate::new(2026, 3, 11),
    );
    // CRC8 of the concatenation 01 02 03 04 05.
    assert_eq!(code.asw_checksum, 0xBC);
    assert_eq!(&code.cal_id, b"ABCD");
    assert!(is_valid(&code.as_bytes()));
}

#[test]
fn simos_constructor_falls_back_when_cal_is_short() {
    let code = WorkshopCode::for_simos(&[&[0xAA]], &[0u8; 4], FlashDate::new(2026, 3, 11));
    assert_eq!(code.cal_id, CAL_ID_NONE);
}

#[test]
fn dq381_constructor_uses_none_cal_id() {
    let date = FlashDate::new(2026, 3, 11);
    let code = WorkshopCode::for_dq381(&[0x01, 0x02, 0x03, 0x04, 0x05], date);
    assert_eq!(code.asw_checksum, 0xBC);
    assert_eq!(&code.cal_id, b"NONE");
    assert_eq!(code.as_bytes()[0..3], [0x26, 0x03, 0x11]);
}

#[test]
fn bcd_round_trips() {
    assert_eq!(
        FlashDate::new(2026, 3, 11).to_bcd_bytes(),
        [0x26, 0x03, 0x11]
    );
    assert_eq!(
        FlashDate::new(1999, 12, 31).to_bcd_bytes(),
        [0x99, 0x12, 0x31]
    );
    assert_eq!(
        FlashDate::from_bcd_bytes([0x24, 0x10, 0x09]),
        Some(FlashDate::new(2024, 10, 9))
    );
    // 0x1A has a non-decimal nibble; month 0x13 and day 0x32 are out of range.
    assert_eq!(FlashDate::from_bcd_bytes([0x1A, 0x01, 0x01]), None);
    assert_eq!(FlashDate::from_bcd_bytes([0x26, 0x13, 0x01]), None);
    assert_eq!(FlashDate::from_bcd_bytes([0x26, 0x01, 0x32]), None);
}

#[test]
fn undecodable_date_still_serialises() {
    // Placeholder's date field 0x20 0x04 0x20 -> day 20 is fine, month 04 is
    // fine, year 20 is fine, so use a genuinely bad one.
    let code = WorkshopCode::from_bytes(&[0xFF, 0xFF, 0xFF, 0, 0, 0, 0, 0, 0]);
    assert!(code.flash_date.is_none());
    assert_eq!(code.as_bytes()[0..3], [0x00, 0x00, 0x00]);
}

#[test]
fn crc8_is_linear() {
    let a = [0x26u8, 0x03, 0x11, 0x1E];
    let b = [0x20u8, 0xFF, 0x00, 0x81];
    let both: Vec<u8> = a.iter().zip(b).map(|(x, y)| x ^ y).collect();
    assert_eq!(crc8_hash(&both), crc8_hash(&a) ^ crc8_hash(&b));
}

#[test]
fn a_changed_byte_is_detected() {
    for k in 0..9 {
        for change in 1..=255u8 {
            let mut code = CAPTURED;
            code[k] ^= change;
            assert!(!is_valid(&code));
        }
    }
}
