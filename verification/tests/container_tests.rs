use diane::container::{write_at, ContainerError, ContainerWriter};
use diane::sd::hardware_format;
use diane::wav::{DATA_SIZE_OFFSET, RIFF_SIZE_OFFSET};

/// End-to-end: three accepted frames of 100 bytes each, no warm-up. The
/// finished file is header plus 300 data bytes, with data-size 300 and
/// total-size 336.
#[test]
fn three_frames_end_to_end() {
    let (mut w, header) = ContainerWriter::open(hardware_format());
    let mut file: Vec<u8> = header;
    for i in 0..3u8 {
        let frame = vec![i; 100];
        w.append(&frame).unwrap();
        file.extend_from_slice(&frame);
    }
    let patches = w.finalize().unwrap();
    write_at(&mut file, RIFF_SIZE_OFFSET, &patches.total_size);
    write_at(&mut file, DATA_SIZE_OFFSET, &patches.data_size);

    assert_eq!(file.len(), 344); // 44-byte header + 3 * 100
    assert_eq!(&file[4..8], &[80, 1, 0, 0]); // total-size 336 = 300 + 36
    assert_eq!(&file[40..44], &[44, 1, 0, 0]); // data-size 300
    assert_eq!(&file[44..144], &[0u8; 100]);
    assert_eq!(&file[144..244], &[1u8; 100]);
}

/// A second finalize is rejected and the size patches are not re-adjusted.
#[test]
fn double_finalize_rejected() {
    let (mut w, _header) = ContainerWriter::open(hardware_format());
    w.append(&[7u8; 10]).unwrap();
    let first = w.finalize().unwrap();
    assert_eq!(first.data_size, vec![10, 0, 0, 0]);
    let second = w.finalize();
    assert!(matches!(second, Err(ContainerError::AlreadyFinalized)));
    assert_eq!(w.data_bytes, 10);
}

#[test]
fn append_after_finalize_rejected() {
    let (mut w, _header) = ContainerWriter::open(hardware_format());
    w.finalize().unwrap();
    let r = w.append(&[1, 2, 3]);
    assert!(matches!(r, Err(ContainerError::AlreadyFinalized)));
    assert_eq!(w.data_bytes, 0);
}

/// Size fields after N uniform frames: data-size N*S, total-size N*S + 36.
#[test]
fn size_fields_count_frames() {
    let (mut w, _header) = ContainerWriter::open(hardware_format());
    for _ in 0..5 {
        w.append(&[0u8; 7]).unwrap();
    }
    assert_eq!(w.data_bytes, 35);
    let patches = w.finalize().unwrap();
    assert_eq!(patches.data_size, vec![35, 0, 0, 0]);
    assert_eq!(patches.total_size, vec![71, 0, 0, 0]);
}

#[test]
fn append_empty_frame_counts_nothing() {
    let (mut w, _header) = ContainerWriter::open(hardware_format());
    w.append(&[]).unwrap();
    assert_eq!(w.data_bytes, 0);
}

#[test]
fn write_at_splices_in_place() {
    let mut buf = vec![0u8, 1, 2, 3, 4, 5];
    write_at(&mut buf, 2, &vec![9u8, 8]);
    assert_eq!(buf, vec![0, 1, 9, 8, 4, 5]);
}
