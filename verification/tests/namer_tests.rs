use diane::namer::{next_file_number, parse_number, parse_stem_u32, stem_slice, wav_file_name};
use diane::sd::{NameError, SDUtils};

fn entries(names: &[&str]) -> Vec<Vec<u8>> {
    names.iter().map(|n| n.as_bytes().to_vec()).collect()
}

/// Entries {"3.wav", "7.wav", "abc.wav"}: the next name is "8.wav".
#[test]
fn next_name_after_numeric_stems() {
    let e = entries(&["3.wav", "7.wav", "abc.wav"]);
    let name = SDUtils::next_numbered_name(&e).unwrap();
    assert_eq!(name, b"8.wav".to_vec());
}

#[test]
fn empty_directory_starts_at_one() {
    let e = entries(&[]);
    assert_eq!(SDUtils::next_numbered_name(&e).unwrap(), b"1.wav".to_vec());
    assert_eq!(next_file_number(&e), Some(1));
}

#[test]
fn non_numeric_stems_count_as_zero() {
    let e = entries(&["abc.wav", "x9.txt", ".hidden"]);
    assert_eq!(next_file_number(&e), Some(1));
}

#[test]
fn mixed_entries_track_maximum() {
    let e = entries(&["12.wav", "0005.wav", "102.wav", "notes.txt"]);
    assert_eq!(next_file_number(&e), Some(103));
}

#[test]
fn numbers_exhausted() {
    let e = entries(&["4294967295.wav"]);
    assert_eq!(next_file_number(&e), None);
    assert!(SDUtils::get_next_file_name(&e) == Err(NameError::TooManyFiles));
}

#[test]
fn overflowing_stem_counts_as_zero() {
    let e = entries(&["4294967296.wav", "2.wav"]);
    assert_eq!(next_file_number(&e), Some(3));
}

#[test]
fn short_name_encoding_next_file() {
    let e = entries(&["3.wav", "7.wav", "abc.wav"]);
    let short = SDUtils::get_next_file_name(&e).unwrap();
    // The 8.3 encoder uppercases the extension and splits base from it.
    assert_eq!(short.base_name(), &b"8"[..]);
    assert_eq!(short.extension(), &b"WAV"[..]);
}

#[test]
fn name_too_long_for_short_form() {
    let e = entries(&["99999999.wav"]);
    assert!(SDUtils::get_next_file_name(&e) == Err(NameError::NameTooLong));
    // One below the limit still fits: 99999998 + 1 has eight digits.
    let e2 = entries(&["99999998.wav"]);
    let short = SDUtils::get_next_file_name(&e2).unwrap();
    assert_eq!(short.base_name(), &b"99999999"[..]);
}

#[test]
fn parse_number_accepts_digits() {
    assert_eq!(parse_number(b"0"), Some(0));
    assert_eq!(parse_number(b"07"), Some(7));
    assert_eq!(parse_number(b"1994"), Some(1994));
    assert_eq!(parse_number(b"65535"), Some(65535));
    assert_eq!(parse_number(b""), Some(0));
}

#[test]
fn parse_number_rejects_non_digits_and_overflow() {
    assert_eq!(parse_number(b"12a"), None);
    assert_eq!(parse_number(b" 12"), None);
    assert_eq!(parse_number(b"65536"), None);
    assert_eq!(parse_number(b"123456"), None);
}

#[test]
fn parse_stem_values() {
    assert_eq!(parse_stem_u32(b"8"), 8);
    assert_eq!(parse_stem_u32(b"0008"), 8);
    assert_eq!(parse_stem_u32(b""), 0);
    assert_eq!(parse_stem_u32(b"abc"), 0);
    assert_eq!(parse_stem_u32(b"4294967295"), 4294967295);
    assert_eq!(parse_stem_u32(b"4294967296"), 0);
}

#[test]
fn stem_stops_at_first_dot() {
    assert_eq!(stem_slice(b"8.wav"), &b"8"[..]);
    assert_eq!(stem_slice(b"a.b.c"), &b"a"[..]);
    assert_eq!(stem_slice(b"noext"), &b"noext"[..]);
    assert_eq!(stem_slice(b".wav"), &b""[..]);
}

#[test]
fn wav_file_name_renders_decimal() {
    assert_eq!(wav_file_name(8), b"8.wav".to_vec());
    assert_eq!(wav_file_name(0), b"0.wav".to_vec());
    assert_eq!(wav_file_name(1024), b"1024.wav".to_vec());
    assert_eq!(wav_file_name(4294967295), b"4294967295.wav".to_vec());
}
