//! Storage-facing helpers: the session file name encoded for the medium,
//! and the header bytes written at open and patched at finalize.
//!
//! The medium stores names in the fixed 8.3 short form, so the derived
//! `"<n>.wav"` name is encoded through the filesystem crate; a stem of
//! more than eight digits cannot be stored and is refused.

use vstd::prelude::*;

use crate::container::SizePatches;
use crate::namer::{
    all_digits, decimal_digits, lemma_decimal_digits_are_digits, lemma_decimal_len_ge,
    lemma_decimal_len_le, lemma_stem_of_decimal_name, max_entry_value, next_file_number, pow10,
    stem_of, wav_file_name,
};
use crate::wav::{
    placeholder_header_bytes, u32_le, wf_valid, WavFormat, HEADER_SIZE,
};

verus! {

#[verifier::external_type_specification]
#[verifier::external_body]
pub struct ExShortFileName(embedded_sdmmc::ShortFileName);

/// Why no session file name could be produced.
#[derive(Debug, PartialEq, Eq, Structural, Clone, Copy)]
pub enum NameError {
    /// The largest numeric stem already exhausts 32 bits.
    TooManyFiles,
    /// The next number needs more than eight digits, so the name cannot be
    /// stored in the medium's 8.3 short form.
    NameTooLong,
}

/// A name of the shape the namer produces: a non-empty digit stem followed
/// immediately by a dot and the extension `wav`.
pub open spec fn wav_digit_name(s: Seq<u8>) -> bool {
    &&& stem_of(s).len() >= 1
    &&& all_digits(stem_of(s))
    &&& s == stem_of(s) + seq![46u8, 119u8, 97u8, 118u8]
}

/// Relies on embedded_sdmmc's ShortFileName::create_from_str: a name made
/// of a one-to-eight character base of valid characters, a dot, and an up
/// to three character extension is encoded; a base of more than eight
/// characters is refused.
#[verifier::external_body]
fn encode_short_name(name: &[u8]) -> (r: Option<embedded_sdmmc::ShortFileName>)
    requires
        forall|i: int| 0 <= i < name@.len() ==> name@[i] < 128,
    ensures
        wav_digit_name(name@) && stem_of(name@).len() <= 8 ==> r is Some,
        wav_digit_name(name@) && stem_of(name@).len() > 8 ==> r is None,
{
    match core::str::from_utf8(name) {
        Ok(s) => embedded_sdmmc::ShortFileName::create_from_str(s).ok(),
        Err(_) => None,
    }
}

/// The hardware capture format: two interleaved 16-bit channels at 16 kHz.
pub fn hardware_format() -> (f: WavFormat)
    ensures
        f.channels == 2,
        f.sample_rate == 16000,
        wf_valid(f),
{
    WavFormat { channels: 2, sample_rate: 16000 }
}

/// Storage helpers used by the lifecycle controller.
pub struct SDUtils {}

impl SDUtils {
    /// The next session file name over the given directory entry names:
    /// one more than the largest numeric stem, as `"<n>.wav"` bytes.
    pub fn next_numbered_name(entries: &Vec<Vec<u8>>) -> (r: Result<Vec<u8>, NameError>)
        ensures
            max_entry_value(entries.deep_view()) == u32::MAX ==> r == Err::<Vec<u8>, NameError>(
                NameError::TooManyFiles,
            ),
            max_entry_value(entries.deep_view()) < u32::MAX ==> (r matches Ok(name) && name@
                == decimal_digits((max_entry_value(entries.deep_view()) + 1) as nat) + seq![
                46u8,
                119u8,
                97u8,
                118u8,
            ]),
    {
        match next_file_number(entries) {
            None => Err(NameError::TooManyFiles),
            Some(n) => Ok(wav_file_name(n)),
        }
    }

    /// The next session file name, encoded in the medium's 8.3 short form.
    /// Fails exactly when the numbers run out or the next number no longer
    /// fits an eight-character stem.
    pub fn get_next_file_name(entries: &Vec<Vec<u8>>) -> (r: Result<
        embedded_sdmmc::ShortFileName,
        NameError,
    >)
        ensures
            max_entry_value(entries.deep_view()) == u32::MAX ==> (r matches Err(e) && e
                == NameError::TooManyFiles),
            99_999_999 <= max_entry_value(entries.deep_view()) < u32::MAX ==> (r matches Err(e)
                && e == NameError::NameTooLong),
            max_entry_value(entries.deep_view()) < 99_999_999 ==> r is Ok,
    {
        let n = match next_file_number(entries) {
            None => {
                return Err(NameError::TooManyFiles);
            },
            Some(n) => n,
        };
        let name = wav_file_name(n);
        let ghost digits = decimal_digits(n as nat);
        proof {
            lemma_decimal_digits_are_digits(n as nat);
            lemma_stem_of_decimal_name(n as nat, seq![46u8, 119u8, 97u8, 118u8]);
            assert(stem_of(name@) == digits);
            assert(forall|i: int| 0 <= i < name@.len() ==> name@[i] < 128) by {
                assert(forall|i: int| 0 <= i < digits.len() ==> 48 <= #[trigger] digits[i] <= 57);
            }
            assert(pow10(8) == 100_000_000) by {
                reveal_with_fuel(pow10, 10);
            }
            if n < 100_000_000 {
                lemma_decimal_len_le(n as nat, 8);
            } else {
                lemma_decimal_len_ge(n as nat, 8);
            }
        }
        match encode_short_name(name.as_slice()) {
            Some(short) => Ok(short),
            None => Err(NameError::NameTooLong),
        }
    }

    /// The header bytes a fresh session file starts with: both size fields
    /// still hold the sentinel.
    pub fn write_wav_header(fmt: &WavFormat) -> (h: Vec<u8>)
        requires
            wf_valid(*fmt),
        ensures
            h@ == placeholder_header_bytes(*fmt),
            h@.len() == HEADER_SIZE,
    {
        crate::wav::build_placeholder_header(fmt)
    }

    /// The two size-field patches for a file of `file_size` total bytes
    /// (header included): the total-size field gets the file size minus 8,
    /// the data-size field the file size minus the header length. A file
    /// shorter than one header cannot be patched.
    pub fn update_wav_header(file_size: u32) -> (r: Option<SizePatches>)
        ensures
            file_size >= HEADER_SIZE ==> (r matches Some(p) && p.total_size@ == u32_le(
                (file_size - 8) as u32,
            ) && p.data_size@ == u32_le((file_size - HEADER_SIZE) as u32)),
            file_size < HEADER_SIZE ==> r is None,
    {
        if file_size < (HEADER_SIZE as u32) {
            return None;
        }
        let total = crate::wav::build_u32_le(file_size - 8);
        let data = crate::wav::build_u32_le(file_size - (HEADER_SIZE as u32));
        Some(SizePatches { total_size: total, data_size: data })
    }
}

} // verus!
