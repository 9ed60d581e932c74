//! Container header layout.
//!
//! The container file starts with a fixed 44-byte header; every integer in it
//! is little-endian. Two size fields (at offsets 4 and 40) hold a sentinel
//! until the recording is finalized and the true data byte count is known.

use vstd::prelude::*;

verus! {

/// Total length of the container header in bytes.
pub const HEADER_SIZE: usize = 44;

/// Byte offset of the total-size field inside the header.
pub const RIFF_SIZE_OFFSET: usize = 4;

/// Byte offset of the data-size field inside the header.
pub const DATA_SIZE_OFFSET: usize = 40;

/// Sentinel stored in both size fields until finalize patches them.
pub const SIZE_PLACEHOLDER: u32 = 0xFFFF_FFFF;

/// Sample format parameters of a recording. The format code (linear PCM)
/// and the bit depth (16 bits per sample) are fixed by the container layout.
pub struct WavFormat {
    /// Number of interleaved channels.
    pub channels: u16,
    /// Samples per second and channel.
    pub sample_rate: u32,
}

/// Bytes per sample: the bit depth is fixed at 16.
pub const BYTES_PER_SAMPLE: u16 = 2;

/// A format the header can encode: at least one channel, and the derived
/// block-alignment and byte-rate fields fit their integer widths.
pub open spec fn wf_valid(f: WavFormat) -> bool {
    &&& 1 <= f.channels
    &&& f.channels * BYTES_PER_SAMPLE <= u16::MAX
    &&& f.sample_rate * f.channels * BYTES_PER_SAMPLE <= u32::MAX
}

/// Little-endian encoding of a 16-bit integer.
pub open spec fn u16_le(x: u16) -> Seq<u8> {
    seq![(x % 256) as u8, (x / 256) as u8]
}

/// Little-endian encoding of a 32-bit integer.
pub open spec fn u32_le(x: u32) -> Seq<u8> {
    seq![
        (x % 256) as u8,
        ((x / 256) % 256) as u8,
        ((x / 65536) % 256) as u8,
        (x / 16777216) as u8,
    ]
}

/// Block alignment: bytes per frame of interleaved samples.
pub open spec fn spec_block_align(f: WavFormat) -> int {
    f.channels * BYTES_PER_SAMPLE
}

/// Byte rate: bytes of sample data per second.
pub open spec fn spec_byte_rate(f: WavFormat) -> int {
    f.sample_rate * f.channels * BYTES_PER_SAMPLE
}

/// The 44 header bytes for format `f`, with the given values in the
/// total-size and data-size fields.
pub open spec fn header_bytes(f: WavFormat, riff_size: u32, data_size: u32) -> Seq<u8> {
    seq![82, 73, 70, 70] + u32_le(riff_size) + seq![87, 65, 86, 69]
        + seq![102, 109, 116, 32] + u32_le(16) + u16_le(1) + u16_le(f.channels)
        + u32_le(f.sample_rate) + u32_le(spec_byte_rate(f) as u32)
        + u16_le(spec_block_align(f) as u16) + u16_le(16)
        + seq![100, 97, 116, 97] + u32_le(data_size)
}

/// The header as first written: both size fields still hold the sentinel.
pub open spec fn placeholder_header_bytes(f: WavFormat) -> Seq<u8> {
    header_bytes(f, SIZE_PLACEHOLDER, SIZE_PLACEHOLDER)
}

/// The value of the total-size field once `data` bytes of sample data are in
/// the file: the length of everything after the first 8 header bytes.
pub open spec fn riff_size_value(data: int) -> int {
    data + HEADER_SIZE - 8
}

fn push_u16_le(out: &mut Vec<u8>, x: u16)
    ensures
        final(out)@ == old(out)@ + u16_le(x),
{
    out.push((x % 256) as u8);
    out.push((x / 256) as u8);
    assert(final(out)@ =~= old(out)@ + u16_le(x));
}

fn push_u32_le(out: &mut Vec<u8>, x: u32)
    ensures
        final(out)@ == old(out)@ + u32_le(x),
{
    out.push((x % 256) as u8);
    out.push(((x / 256) % 256) as u8);
    out.push(((x / 65536) % 256) as u8);
    out.push((x / 16777216) as u8);
    assert(final(out)@ =~= old(out)@ + u32_le(x));
}

/// The little-endian bytes of a 32-bit integer, as a vector.
pub fn build_u32_le(x: u32) -> (r: Vec<u8>)
    ensures
        r@ == u32_le(x),
{
    let mut r: Vec<u8> = Vec::new();
    push_u32_le(&mut r, x);
    assert(r@ =~= u32_le(x));
    r
}

/// Build the 44-byte header for format `f` with the given size-field values.
pub fn build_header(f: &WavFormat, riff_size: u32, data_size: u32) -> (h: Vec<u8>)
    requires
        wf_valid(*f),
    ensures
        h@ == header_bytes(*f, riff_size, data_size),
        h@.len() == HEADER_SIZE,
{
    let mut h: Vec<u8> = Vec::new();
    h.push(82);
    h.push(73);
    h.push(70);
    h.push(70);
    push_u32_le(&mut h, riff_size);
    h.push(87);
    h.push(65);
    h.push(86);
    h.push(69);
    h.push(102);
    h.push(109);
    h.push(116);
    h.push(32);
    push_u32_le(&mut h, 16);
    push_u16_le(&mut h, 1);
    push_u16_le(&mut h, f.channels);
    push_u32_le(&mut h, f.sample_rate);
    let byte_rate: u32 = f.sample_rate * (f.channels as u32) * (BYTES_PER_SAMPLE as u32);
    push_u32_le(&mut h, byte_rate);
    let block_align: u16 = f.channels * BYTES_PER_SAMPLE;
    push_u16_le(&mut h, block_align);
    push_u16_le(&mut h, 16);
    h.push(100);
    h.push(97);
    h.push(116);
    h.push(97);
    push_u32_le(&mut h, data_size);
    assert(h@ =~= header_bytes(*f, riff_size, data_size));
    h
}

/// Build the header as first written to a new file: size fields sentinel.
pub fn build_placeholder_header(f: &WavFormat) -> (h: Vec<u8>)
    requires
        wf_valid(*f),
    ensures
        h@ == placeholder_header_bytes(*f),
        h@.len() == HEADER_SIZE,
{
    build_header(f, SIZE_PLACEHOLDER, SIZE_PLACEHOLDER)
}

} // verus!
