//! Partition locator: boot-sector parsing and the windowed byte view.
//!
//! The boot sector is one fixed-size (at least 512-byte) block read from
//! offset 0 of the raw medium. Its partition table starts at byte 446 with
//! 16-byte entries; an entry holds a status byte, and little-endian 32-bit
//! starting-block and block-count fields at offsets 8 and 12. The sector
//! ends with the signature bytes 0x55, 0xAA at offsets 510 and 511. Only
//! the first entry is consumed; it yields a byte window on the raw device,
//! and every later access is offset-shifted into that window.

use vstd::prelude::*;

verus! {

/// Byte offset of the first partition-table entry in the boot sector.
pub const FIRST_ENTRY_OFFSET: usize = 446;

/// Smallest boot sector the table layout needs.
pub const BOOT_SECTOR_LEN: usize = 512;

/// Why the boot sector was rejected. All of these are fatal: there is no
/// recovery from an unreadable partition table.
#[derive(Debug, PartialEq, Eq, Structural, Clone, Copy)]
pub enum MalformedTableError {
    /// Fewer bytes than one boot sector.
    SectorTooShort,
    /// The two signature bytes are wrong.
    BadSignature,
    /// The first entry's status byte is neither inactive nor bootable.
    InvalidStatus,
    /// The first entry spans no blocks, so its window would be empty.
    EmptyPartition,
}

/// The addressable byte region of the medium that holds the volume:
/// `[start, end)`, both bounds multiples of the block size.
#[derive(Debug, PartialEq, Eq, Structural, Clone, Copy)]
pub struct PartitionWindow {
    /// First byte of the window.
    pub start: u64,
    /// One past the last byte of the window.
    pub end: u64,
}

/// The value of the little-endian 32-bit field at `off`.
pub open spec fn le32_value(s: Seq<u8>, off: int) -> int {
    s[off] + 256 * s[off + 1] + 65536 * s[off + 2] + 16777216 * s[off + 3]
}

/// First entry's starting block number.
pub open spec fn spec_start_block(s: Seq<u8>) -> int {
    le32_value(s, FIRST_ENTRY_OFFSET + 8)
}

/// First entry's block count.
pub open spec fn spec_block_count(s: Seq<u8>) -> int {
    le32_value(s, FIRST_ENTRY_OFFSET + 12)
}

/// A boot sector the locator accepts: long enough, signed, first entry's
/// status byte valid (0x00 inactive or 0x80 bootable) and at least one
/// block in the partition.
pub open spec fn sector_ok(s: Seq<u8>) -> bool {
    &&& s.len() >= BOOT_SECTOR_LEN
    &&& s[510] == 0x55u8
    &&& s[511] == 0xAAu8
    &&& (s[FIRST_ENTRY_OFFSET as int] == 0x00u8 || s[FIRST_ENTRY_OFFSET as int] == 0x80u8)
    &&& spec_block_count(s) > 0
}

impl PartitionWindow {
    /// A window is well-formed for a block size when it is non-empty and
    /// both bounds are block-aligned.
    pub open spec fn wf(self, block_size: u32) -> bool {
        &&& self.start < self.end
        &&& self.start % (block_size as u64) == 0
        &&& self.end % (block_size as u64) == 0
    }

    /// Number of bytes in the window.
    pub open spec fn spec_len(self) -> int {
        self.end - self.start
    }

    /// Translate an access of `len` bytes at window-relative `offset` into
    /// an absolute medium offset. Rejected exactly when the access would
    /// reach past the window end.
    pub fn translate(&self, offset: u64, len: u64) -> (r: Option<u64>)
        requires
            self.start < self.end,
        ensures
            r is Some <==> offset + len <= self.spec_len(),
            r matches Some(abs) ==> abs == self.start + offset,
    {
        let window_len: u64 = self.end - self.start;
        if offset > window_len || len > window_len - offset {
            None
        } else {
            Some(self.start + offset)
        }
    }
}

fn read_le32(sector: &[u8], off: usize) -> (r: u32)
    requires
        off + 4 <= sector@.len(),
    ensures
        r == le32_value(sector@, off as int),
{
    let b0 = sector[off] as u32;
    let b1 = sector[off + 1] as u32;
    let b2 = sector[off + 2] as u32;
    let b3 = sector[off + 3] as u32;
    b0 + 256 * b1 + 65536 * b2 + 16777216 * b3
}

/// Parse the boot sector and compute the first partition's byte window
/// `[start_block * block_size, (start_block + block_count) * block_size)`.
///
/// Succeeds exactly on sectors that `sector_ok` accepts; each rejection
/// names the first check that failed, and all of them are fatal.
pub fn locate_first_partition(sector: &[u8], block_size: u32) -> (r: Result<
    PartitionWindow,
    MalformedTableError,
>)
    requires
        0 < block_size <= 65536,
    ensures
        r is Ok <==> sector_ok(sector@),
        r matches Ok(w) ==> {
            &&& w.start == spec_start_block(sector@) * block_size
            &&& w.end == (spec_start_block(sector@) + spec_block_count(sector@)) * block_size
            &&& w.wf(block_size)
        },
        sector@.len() < BOOT_SECTOR_LEN ==> r == Err::<PartitionWindow, MalformedTableError>(
            MalformedTableError::SectorTooShort,
        ),
        sector@.len() >= BOOT_SECTOR_LEN && !(sector@[510] == 0x55 && sector@[511] == 0xAA)
            ==> r == Err::<PartitionWindow, MalformedTableError>(MalformedTableError::BadSignature),
{
    if sector.len() < BOOT_SECTOR_LEN {
        return Err(MalformedTableError::SectorTooShort);
    }
    if !(sector[510] == 0x55 && sector[511] == 0xAA) {
        return Err(MalformedTableError::BadSignature);
    }
    let status = sector[FIRST_ENTRY_OFFSET];
    if !(status == 0x00 || status == 0x80) {
        return Err(MalformedTableError::InvalidStatus);
    }
    let start_block = read_le32(sector, FIRST_ENTRY_OFFSET + 8);
    let block_count = read_le32(sector, FIRST_ENTRY_OFFSET + 12);
    if block_count == 0 {
        return Err(MalformedTableError::EmptyPartition);
    }
    let bs = block_size as u64;
    proof {
        assert((start_block as int + block_count as int) * (block_size as int) <= 0x2_0000_0000
            * 0x10000) by (nonlinear_arith)
            requires
                start_block as int + block_count as int <= 0x2_0000_0000,
                0 < block_size <= 0x10000,
        ;
        assert((start_block as int) * (block_size as int) <= (start_block as int
            + block_count as int) * (block_size as int)) by (nonlinear_arith)
            requires
                block_count >= 0,
                block_size > 0,
        ;
    }
    let start: u64 = (start_block as u64) * bs;
    let end: u64 = ((start_block as u64) + (block_count as u64)) * bs;
    proof {
        let sb = start_block as int;
        let bc = block_count as int;
        let bsi = block_size as int;
        assert((sb + bc) * bsi == sb * bsi + bc * bsi) by (nonlinear_arith);
        assert(bc * bsi > 0) by (nonlinear_arith)
            requires
                bc > 0,
                bsi > 0,
        ;
        assert((sb * bsi) % bsi == 0) by (nonlinear_arith)
            requires
                bsi > 0,
        ;
        assert(((sb + bc) * bsi) % bsi == 0) by (nonlinear_arith)
            requires
                bsi > 0,
        ;
    }
    Ok(PartitionWindow { start, end })
}

} // verus!
