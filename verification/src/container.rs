//! Container writer: streaming body plus size patch-up at close.
//!
//! A `ContainerWriter` tracks one recording session's container file. It
//! hands the caller the bytes to put on the medium: the placeholder header
//! at open, each accepted chunk during recording, and at finalize the two
//! little-endian patches for the size fields. The true file contents are
//! mirrored in a ghost byte sequence, so the contracts pin down the whole
//! file, not just its length.

use vstd::prelude::*;

use crate::wav::{
    header_bytes, placeholder_header_bytes, riff_size_value, u32_le, wf_valid, WavFormat,
    HEADER_SIZE,
};

verus! {

/// Largest data byte count the size fields can represent: the total-size
/// field holds the data byte count plus 36.
pub const MAX_DATA_BYTES: u32 = u32::MAX - 36;

/// Why the writer refused an operation.
#[derive(Debug, PartialEq, Eq, Structural, Clone, Copy)]
pub enum ContainerError {
    /// The session was already finalized; the file must not be re-adjusted.
    AlreadyFinalized,
    /// Accepting the chunk would overflow the header's size fields.
    TooLarge,
}

/// The two patches that finalize produces, with the header offsets they
/// must be written at.
pub struct SizePatches {
    /// Bytes for the total-size field, at `RIFF_SIZE_OFFSET`.
    pub total_size: Vec<u8>,
    /// Bytes for the data-size field, at `DATA_SIZE_OFFSET`.
    pub data_size: Vec<u8>,
}

/// State of one recording session's container file.
pub struct ContainerWriter {
    /// Format the header was written with.
    pub fmt: WavFormat,
    /// Bytes of sample data accepted so far.
    pub data_bytes: u32,
    /// Whether the size fields have been patched and the file closed.
    pub finalized: bool,
    /// The accepted sample data itself (ghost mirror of the file body).
    pub data: Ghost<Seq<u8>>,
}

impl ContainerWriter {
    /// Well-formedness: the format is encodable, the counter matches the
    /// mirrored data, and the size fields can still be represented.
    pub open spec fn inv(self) -> bool {
        &&& wf_valid(self.fmt)
        &&& self.data@.len() == self.data_bytes
        &&& self.data_bytes <= MAX_DATA_BYTES
    }

    /// The bytes of the finished container file: the header with both size
    /// fields patched, followed by the accepted data.
    pub open spec fn file_bytes(self) -> Seq<u8> {
        header_bytes(self.fmt, (self.data_bytes + 36) as u32, self.data_bytes) + self.data@
    }

    /// Start a session: returns the fresh writer and the placeholder header
    /// that must be written at the start of the new file.
    pub fn open(fmt: WavFormat) -> (r: (ContainerWriter, Vec<u8>))
        requires
            wf_valid(fmt),
        ensures
            r.0.inv(),
            r.0.fmt == fmt,
            r.0.data_bytes == 0,
            !r.0.finalized,
            r.0.data@ == Seq::<u8>::empty(),
            r.1@ == placeholder_header_bytes(fmt),
            r.1@.len() == HEADER_SIZE,
    {
        let header = crate::wav::build_placeholder_header(&fmt);
        let w = ContainerWriter {
            fmt,
            data_bytes: 0,
            finalized: false,
            data: Ghost(Seq::empty()),
        };
        (w, header)
    }

    /// Accept one chunk of sample data. The caller writes and flushes the
    /// returned chunk before offering the next one; here the chunk is
    /// mirrored and counted. Rejected without change once finalized, or if
    /// the size fields could no longer represent the total.
    pub fn append(&mut self, chunk: &[u8]) -> (r: Result<(), ContainerError>)
        requires
            old(self).inv(),
        ensures
            final(self).inv(),
            final(self).fmt == old(self).fmt,
            final(self).finalized == old(self).finalized,
            old(self).finalized ==> {
                &&& r == Err::<(), ContainerError>(ContainerError::AlreadyFinalized)
                &&& *final(self) == *old(self)
            },
            !old(self).finalized && old(self).data_bytes + chunk@.len() > MAX_DATA_BYTES ==> {
                &&& r == Err::<(), ContainerError>(ContainerError::TooLarge)
                &&& *final(self) == *old(self)
            },
            !old(self).finalized && old(self).data_bytes + chunk@.len() <= MAX_DATA_BYTES ==> {
                &&& r is Ok
                &&& final(self).data_bytes == old(self).data_bytes + chunk@.len()
                &&& final(self).data@ == old(self).data@ + chunk@
            },
    {
        if self.finalized {
            return Err(ContainerError::AlreadyFinalized);
        }
        let len: u64 = chunk.len() as u64;
        if len > (MAX_DATA_BYTES as u64) || (self.data_bytes as u64) + len > (
        MAX_DATA_BYTES as u64) {
            return Err(ContainerError::TooLarge);
        }
        self.data_bytes = self.data_bytes + (chunk.len() as u32);
        proof {
            self.data@ = self.data@ + chunk@;
        }
        Ok(())
    }

    /// Close the session: returns the two size-field patches. The total-size
    /// field gets the data byte count plus 36 (the file length minus 8); the
    /// data-size field gets the data byte count itself. Must happen exactly
    /// once: a second call is rejected and changes nothing.
    pub fn finalize(&mut self) -> (r: Result<SizePatches, ContainerError>)
        requires
            old(self).inv(),
        ensures
            final(self).inv(),
            final(self).fmt == old(self).fmt,
            final(self).data_bytes == old(self).data_bytes,
            final(self).data@ == old(self).data@,
            old(self).finalized ==> *final(self) == *old(self),
            old(self).finalized ==> (r matches Err(e) && e == ContainerError::AlreadyFinalized),
            !old(self).finalized ==> r is Ok && final(self).finalized,
            !old(self).finalized ==> (r matches Ok(p) && p.total_size@ == u32_le(
                riff_size_value(old(self).data_bytes as int) as u32,
            ) && p.data_size@ == u32_le(old(self).data_bytes)),
    {
        if self.finalized {
            return Err(ContainerError::AlreadyFinalized);
        }
        self.finalized = true;
        let total = crate::wav::build_u32_le(self.data_bytes + 36);
        let data = crate::wav::build_u32_le(self.data_bytes);
        Ok(SizePatches { total_size: total, data_size: data })
    }
}

/// Overwrite `patch.len()` bytes of `buf` starting at `offset`, leaving the
/// rest unchanged: the in-memory model of a seek followed by a write.
pub fn write_at(buf: &mut Vec<u8>, offset: usize, patch: &Vec<u8>)
    requires
        offset + patch@.len() <= old(buf)@.len(),
    ensures
        final(buf)@ == old(buf)@.subrange(0, offset as int) + patch@ + old(buf)@.subrange(
            offset + patch@.len(),
            old(buf)@.len() as int,
        ),
        final(buf)@.len() == old(buf)@.len(),
{
    let buf_len: usize = buf.len();
    let mut i: usize = 0;
    while i < patch.len()
        invariant
            0 <= i <= patch@.len(),
            buf@.len() == buf_len,
            offset + patch@.len() <= buf@.len(),
            buf@.len() == old(buf)@.len(),
            forall|j: int| 0 <= j < offset + i ==> buf@[j] == (if j < offset {
                old(buf)@[j]
            } else {
                patch@[j - offset]
            }),
            forall|j: int| offset + i <= j < buf@.len() ==> buf@[j] == old(buf)@[j],
        decreases patch@.len() - i,
    {
        let b = patch[i];
        buf.set(offset + i, b);
        i = i + 1;
    }
    assert(final(buf)@ =~= old(buf)@.subrange(0, offset as int) + patch@ + old(buf)@.subrange(
        offset + patch@.len(),
        old(buf)@.len() as int,
    ));
}

/// Patch-up law: writing the two size patches over a file that holds the
/// placeholder header followed by the accepted data yields exactly the
/// finished container — the header as if it had been built with the true
/// sizes, followed by the same data.
pub proof fn lemma_patch_up_yields_file(w: ContainerWriter)
    requires
        w.inv(),
    ensures
        ({
            let file0 = placeholder_header_bytes(w.fmt) + w.data@;
            let file1 = file0.subrange(0, 4) + u32_le((w.data_bytes + 36) as u32) + file0.subrange(
                8,
                file0.len() as int,
            );
            let file2 = file1.subrange(0, 40) + u32_le(w.data_bytes) + file1.subrange(
                44,
                file1.len() as int,
            );
            &&& file2 == w.file_bytes()
            &&& w.file_bytes().len() == HEADER_SIZE + w.data_bytes
        }),
{
    let file0 = placeholder_header_bytes(w.fmt) + w.data@;
    let file1 = file0.subrange(0, 4) + u32_le((w.data_bytes + 36) as u32) + file0.subrange(
        8,
        file0.len() as int,
    );
    let file2 = file1.subrange(0, 40) + u32_le(w.data_bytes) + file1.subrange(
        44,
        file1.len() as int,
    );
    assert(file2 =~= w.file_bytes());
}

/// The length of the flattening of `frames` when every frame has `s` bytes.
pub proof fn lemma_uniform_flatten_len(frames: Seq<Seq<u8>>, s: nat)
    requires
        forall|i: int| 0 <= i < frames.len() ==> (#[trigger] frames[i]).len() == s,
    ensures
        frames.flatten().len() == frames.len() * s,
    decreases frames.len(),
{
    if frames.len() == 0 {
        assert(frames.flatten() =~= Seq::<u8>::empty());
    } else {
        lemma_uniform_flatten_len(frames.drop_first(), s);
        assert(frames.flatten() == frames.first() + frames.drop_first().flatten());
        assert((frames.len() - 1) * s + s == frames.len() * s) by (nonlinear_arith);
    }
}

/// Size-field law: a session whose body is exactly `n` accepted frames of
/// `s` bytes each is finalized with the data-size field holding `n * s` and
/// the total-size field holding `n * s + 36`.
pub proof fn lemma_size_fields_after_frames(w: ContainerWriter, frames: Seq<Seq<u8>>, s: nat)
    requires
        w.inv(),
        w.data@ == frames.flatten(),
        forall|i: int| 0 <= i < frames.len() ==> (#[trigger] frames[i]).len() == s,
    ensures
        w.data_bytes == frames.len() * s,
        riff_size_value(w.data_bytes as int) == frames.len() * s + 36,
{
    lemma_uniform_flatten_len(frames, s);
}

} // verus!
