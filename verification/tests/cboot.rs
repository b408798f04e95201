//! The CBOOT sample-mode patch.

use mqb_flash::cboot::{patch_cboot, PatchError, NEEDLE, PATCH};

fn buf_with_needles(count: usize) -> Vec<u8> {
    // Each needle is separated by a distinct filler byte so they don't overlap.
    let mut v = vec![0xFFu8; 16];
    for _ in 0..count {
        v.extend_from_slice(&NEEDLE);
        v.extend_from_slice(&[0xFF; 16]);
    }
    v
}

#[test]
fn patches_exactly_two_occurrences() {
    let input = buf_with_needles(2);
    let output = patch_cboot(&input).unwrap();

    // Needle should be gone
    assert!(output.windows(NEEDLE.len()).all(|w| w != NEEDLE));
    // Patch bytes should appear twice
    let patch_count = output.windows(PATCH.len()).filter(|w| *w == PATCH).count();
    assert_eq!(patch_count, 2);
    // Length unchanged
    assert_eq!(output.len(), input.len());
}

#[test]
fn errors_on_zero_matches() {
    let input = vec![0u8; 64];
    assert_eq!(patch_cboot(&input), Err(PatchError::WrongMatchCount(0)));
}

#[test]
fn errors_on_one_match() {
    let input = buf_with_needles(1);
    assert_eq!(patch_cboot(&input), Err(PatchError::WrongMatchCount(1)));
}

#[test]
fn errors_on_three_matches() {
    let input = buf_with_needles(3);
    assert_eq!(patch_cboot(&input), Err(PatchError::WrongMatchCount(3)));
}
