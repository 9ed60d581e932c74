use diane::sd::{hardware_format, SDUtils};
use diane::wav::{build_header, build_placeholder_header, build_u32_le, WavFormat};

/// The exact placeholder header for the hardware capture format: two
/// channels of 16-bit samples at 16 kHz, byte rate 64000, block align 4.
#[test]
fn placeholder_header_hardware_format() {
    let f = hardware_format();
    let h = build_placeholder_header(&f);
    let expected: [u8; 44] = [
        82, 73, 70, 70, // group-id tag "RIFF"
        255, 255, 255, 255, // total-size placeholder
        87, 65, 86, 69, // format tag "WAVE"
        102, 109, 116, 32, // subchunk id "fmt "
        16, 0, 0, 0, // subchunk length
        1, 0, // format code: linear PCM
        2, 0, // channels
        128, 62, 0, 0, // sample rate 16000
        0, 250, 0, 0, // byte rate 64000
        4, 0, // block align
        16, 0, // bit depth
        100, 97, 116, 97, // data tag "data"
        255, 255, 255, 255, // data-size placeholder
    ];
    assert_eq!(h.as_slice(), &expected);
}

#[test]
fn header_with_patched_sizes() {
    let f = hardware_format();
    let h = build_header(&f, 336, 300);
    assert_eq!(h.len(), 44);
    assert_eq!(&h[4..8], &[80, 1, 0, 0]);
    assert_eq!(&h[40..44], &[44, 1, 0, 0]);
}

#[test]
fn mono_format_header_fields() {
    let f = WavFormat { channels: 1, sample_rate: 8000 };
    let h = build_placeholder_header(&f);
    // channels
    assert_eq!(&h[22..24], &[1, 0]);
    // sample rate 8000 = 0x1F40
    assert_eq!(&h[24..28], &[64, 31, 0, 0]);
    // byte rate 16000
    assert_eq!(&h[28..32], &[128, 62, 0, 0]);
    // block align 2
    assert_eq!(&h[32..34], &[2, 0]);
}

#[test]
fn u32_little_endian() {
    assert_eq!(build_u32_le(0).as_slice(), &[0, 0, 0, 0]);
    assert_eq!(build_u32_le(336).as_slice(), &[80, 1, 0, 0]);
    assert_eq!(build_u32_le(0xFFFF_FFFF).as_slice(), &[255, 255, 255, 255]);
    assert_eq!(build_u32_le(0x0102_0304).as_slice(), &[4, 3, 2, 1]);
}

#[test]
fn update_wav_header_patches() {
    let p = SDUtils::update_wav_header(344).unwrap();
    assert_eq!(p.total_size.as_slice(), &[80, 1, 0, 0]); // 336
    assert_eq!(p.data_size.as_slice(), &[44, 1, 0, 0]); // 300
}

#[test]
fn update_wav_header_too_short() {
    assert!(SDUtils::update_wav_header(43).is_none());
    assert!(SDUtils::update_wav_header(0).is_none());
    assert!(SDUtils::update_wav_header(44).is_some());
}

#[test]
fn write_wav_header_matches_placeholder() {
    let f = hardware_format();
    assert_eq!(SDUtils::write_wav_header(&f), build_placeholder_header(&f));
}
