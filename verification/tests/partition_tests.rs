use diane::partition::{locate_first_partition, MalformedTableError, PartitionWindow};

fn boot_sector(status: u8, start_block: u32, block_count: u32) -> Vec<u8> {
    let mut s = vec![0u8; 512];
    s[446] = status;
    s[454..458].copy_from_slice(&start_block.to_le_bytes());
    s[458..462].copy_from_slice(&block_count.to_le_bytes());
    s[510] = 0x55;
    s[511] = 0xAA;
    s
}

/// A first entry of start block 2048 and block count 204800 at block size
/// 512 yields exactly the window [1048576, 105906176).
#[test]
fn window_from_first_entry() {
    let s = boot_sector(0x00, 2048, 204800);
    let w = locate_first_partition(&s, 512).unwrap();
    assert_eq!(w, PartitionWindow { start: 1_048_576, end: 105_906_176 });
}

#[test]
fn bootable_status_accepted() {
    let s = boot_sector(0x80, 1, 1);
    let w = locate_first_partition(&s, 512).unwrap();
    assert_eq!(w, PartitionWindow { start: 512, end: 1024 });
}

#[test]
fn short_sector_rejected() {
    let s = vec![0u8; 511];
    assert_eq!(locate_first_partition(&s, 512), Err(MalformedTableError::SectorTooShort));
}

#[test]
fn bad_signature_rejected() {
    let mut s = boot_sector(0x00, 2048, 204800);
    s[511] = 0x00;
    assert_eq!(locate_first_partition(&s, 512), Err(MalformedTableError::BadSignature));
}

#[test]
fn invalid_status_rejected() {
    let s = boot_sector(0x01, 2048, 204800);
    assert_eq!(locate_first_partition(&s, 512), Err(MalformedTableError::InvalidStatus));
}

#[test]
fn empty_partition_rejected() {
    let s = boot_sector(0x00, 2048, 0);
    assert_eq!(locate_first_partition(&s, 512), Err(MalformedTableError::EmptyPartition));
}

#[test]
fn translate_within_window() {
    let w = PartitionWindow { start: 1_048_576, end: 105_906_176 };
    assert_eq!(w.translate(0, 512), Some(1_048_576));
    assert_eq!(w.translate(512, 512), Some(1_049_088));
    let len = 105_906_176 - 1_048_576;
    assert_eq!(w.translate(len - 1, 1), Some(105_906_175));
}

#[test]
fn translate_rejects_past_end() {
    let w = PartitionWindow { start: 1024, end: 2048 };
    assert_eq!(w.translate(1024, 1), None);
    assert_eq!(w.translate(1023, 2), None);
    assert_eq!(w.translate(0, 1025), None);
    assert_eq!(w.translate(u64::MAX, 1), None);
    assert_eq!(w.translate(0, 1024), Some(1024));
}
