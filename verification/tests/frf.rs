//! Firmware containers.

use std::io::Write;

use mqb_flash::frf::{decrypt_frf, extract_frf, insert_file, FrfError};

fn key() -> Vec<u8> {
    (0..4095u32).map(|i| (i.wrapping_mul(2654435761) >> 13) as u8).collect()
}

#[test]
fn decrypt_empty() {
    let result = decrypt_frf(&[], &key());
    assert!(result.is_empty());
}

#[test]
fn decrypt_roundtrip_deterministic() {
    let input = b"Hello, FRF!";
    let out1 = decrypt_frf(input, &key());
    let out2 = decrypt_frf(input, &key());
    assert_eq!(out1, out2);
    // The output should differ from the input (actually decrypting)
    assert_ne!(out1.as_slice(), input.as_slice());
}

#[test]
fn decrypting_twice_gives_the_input_back() {
    let input: Vec<u8> = (0..10_000u32).map(|i| (i % 241) as u8).collect();
    assert_eq!(decrypt_frf(&decrypt_frf(&input, &key()), &key()), input);
}

#[test]
fn a_container_gives_its_files_out() {
    let mut zip = zip::ZipWriter::new(std::io::Cursor::new(Vec::new()));
    let options = zip::write::SimpleFileOptions::default();
    zip.start_file("first.odx", options).unwrap();
    zip.write_all(b"<ODX/>").unwrap();
    zip.start_file("second.bin", options).unwrap();
    zip.write_all(&[1, 2, 3]).unwrap();
    let archive = zip.finish().unwrap().into_inner();
    let files = extract_frf(&decrypt_frf(&archive, &key()), &key()).unwrap();
    assert_eq!(
        files,
        vec![
            ("first.odx".to_owned(), b"<ODX/>".to_vec()),
            ("second.bin".to_owned(), vec![1, 2, 3]),
        ]
    );
}

#[test]
fn what_is_no_archive_is_refused() {
    assert!(matches!(extract_frf(b"no archive", &key()), Err(FrfError::InvalidZip(_))));
}

#[test]
fn a_name_is_kept_once() {
    let mut files = Vec::new();
    insert_file(&mut files, "a".to_owned(), vec![1]);
    insert_file(&mut files, "b".to_owned(), vec![2]);
    insert_file(&mut files, "a".to_owned(), vec![3]);
    assert_eq!(files, vec![("a".to_owned(), vec![3]), ("b".to_owned(), vec![2])]);
}
