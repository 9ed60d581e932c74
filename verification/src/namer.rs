//! File namer: derive the next session file name from a directory listing.
//!
//! Every existing entry's name stem (the part before the first dot) is
//! read as an unsigned decimal number — an unparsable or overflowing stem
//! counts as 0 — and the next session uses the running maximum plus one,
//! rendered as `"<n>.wav"`.

use vstd::prelude::*;

verus! {

/// An ASCII decimal digit.
pub open spec fn is_digit(b: u8) -> bool {
    48 <= b <= 57
}

/// Every byte of `s` is an ASCII decimal digit.
pub open spec fn all_digits(s: Seq<u8>) -> bool {
    forall|i: int| 0 <= i < s.len() ==> is_digit(#[trigger] s[i])
}

/// The number the digit string `s` denotes (most significant first).
/// A non-digit byte contributes nothing; callers guard with `all_digits`.
pub open spec fn digits_value(s: Seq<u8>) -> nat
    decreases s.len(),
{
    if s.len() == 0 {
        0
    } else {
        digits_value(s.drop_last()) * 10 + (if is_digit(s.last()) {
            (s.last() - 48) as nat
        } else {
            0
        })
    }
}

/// The value a name stem contributes to the maximum scan: its number if it
/// is a well-formed decimal that fits 32 bits, otherwise 0.
pub open spec fn stem_value(s: Seq<u8>) -> nat {
    if s.len() > 0 && all_digits(s) && digits_value(s) <= u32::MAX {
        digits_value(s)
    } else {
        0
    }
}

/// The part of a name before its first dot (the whole name if it has none).
pub open spec fn stem_of(name: Seq<u8>) -> Seq<u8>
    decreases name.len(),
{
    if name.len() == 0 {
        name
    } else if name.first() == 46 {
        Seq::empty()
    } else {
        seq![name.first()] + stem_of(name.drop_first())
    }
}

/// The number a directory entry's name contributes to the maximum scan.
pub open spec fn entry_value(name: Seq<u8>) -> nat {
    stem_value(stem_of(name))
}

/// The largest number any entry contributes (0 when there are none).
pub open spec fn max_entry_value(entries: Seq<Seq<u8>>) -> nat
    decreases entries.len(),
{
    if entries.len() == 0 {
        0
    } else {
        let m = max_entry_value(entries.drop_last());
        if entry_value(entries.last()) > m {
            entry_value(entries.last())
        } else {
            m
        }
    }
}

/// The decimal rendering of `n`, most significant digit first.
pub open spec fn decimal_digits(n: nat) -> Seq<u8>
    decreases n,
{
    if n < 10 {
        seq![(48 + n) as u8]
    } else {
        decimal_digits(n / 10) + seq![(48 + n % 10) as u8]
    }
}

/// Powers of ten.
pub open spec fn pow10(k: nat) -> nat
    decreases k,
{
    if k == 0 {
        1
    } else {
        10 * pow10((k - 1) as nat)
    }
}

/// A digit string's prefix never denotes more than the whole string.
pub proof fn lemma_digits_value_take_le(s: Seq<u8>, i: int)
    requires
        0 <= i <= s.len(),
    ensures
        digits_value(s.take(i)) <= digits_value(s),
    decreases s.len(),
{
    if i == s.len() {
        assert(s.take(i) =~= s);
    } else {
        lemma_digits_value_take_le(s.drop_last(), i);
        assert(s.drop_last().take(i) =~= s.take(i));
        assert(digits_value(s.drop_last()) * 10 >= digits_value(s.drop_last()))
            by (nonlinear_arith);
    }
}

/// A string of `k` digits denotes less than `pow10(k)`.
pub proof fn lemma_digits_value_bound(s: Seq<u8>)
    requires
        all_digits(s),
    ensures
        digits_value(s) < pow10(s.len()),
    decreases s.len(),
{
    if s.len() == 0 {
    } else {
        assert(all_digits(s.drop_last())) by {
            assert(forall|i: int|
                0 <= i < s.drop_last().len() ==> #[trigger] s.drop_last()[i] == s[i]);
        }
        lemma_digits_value_bound(s.drop_last());
        lemma_pow10_pos((s.len() - 1) as nat);
        assert(pow10(s.len()) == 10 * pow10((s.len() - 1) as nat));
        let v = digits_value(s.drop_last());
        let p = pow10((s.len() - 1) as nat);
        let d = digits_value(s) - v * 10;
        assert(d <= 9);
        assert(v * 10 + d < 10 * p) by (nonlinear_arith)
            requires
                v < p,
                d <= 9,
                p >= 1,
        ;
    }
}

/// Parse an unsigned 16-bit decimal: the whole input must be digits and
/// the value must fit, exactly as the checked accumulation enforces.
pub fn parse_number(input: &[u8]) -> (r: Option<u16>)
    ensures
        r == if all_digits(input@) && digits_value(input@) <= u16::MAX {
            Some(digits_value(input@) as u16)
        } else {
            None::<u16>
        },
{
    let mut result: u16 = 0;
    let mut i: usize = 0;
    while i < input.len()
        invariant
            0 <= i <= input@.len(),
            all_digits(input@.take(i as int)),
            result == digits_value(input@.take(i as int)),
        decreases input@.len() - i,
    {
        let b = input[i];
        proof {
            assert(input@.take(i + 1).drop_last() =~= input@.take(i as int));
            assert(input@.take(i + 1).last() == input@[i as int]);
        }
        if !(48 <= b && b <= 57) {
            assert(!all_digits(input@)) by {
                assert(!is_digit(input@[i as int]));
            }
            return None;
        }
        let t: u32 = (result as u32) * 10 + ((b - 48) as u32);
        assert(t == digits_value(input@.take(i + 1)));
        if t > 65535 {
            proof {
                lemma_digits_value_take_le(input@, i + 1);
            }
            return None;
        }
        result = t as u16;
        i = i + 1;
    }
    assert(input@.take(i as int) =~= input@);
    Some(result)
}

/// Read a name stem as an unsigned 32-bit decimal, with parse failure and
/// overflow both counting as 0.
pub fn parse_stem_u32(stem: &[u8]) -> (r: u32)
    ensures
        r == stem_value(stem@),
{
    if stem.len() == 0 {
        return 0;
    }
    let mut result: u32 = 0;
    let mut i: usize = 0;
    while i < stem.len()
        invariant
            0 <= i <= stem@.len(),
            all_digits(stem@.take(i as int)),
            result == digits_value(stem@.take(i as int)),
        decreases stem@.len() - i,
    {
        let b = stem[i];
        proof {
            assert(stem@.take(i + 1).drop_last() =~= stem@.take(i as int));
            assert(stem@.take(i + 1).last() == stem@[i as int]);
        }
        if !(48 <= b && b <= 57) {
            assert(!all_digits(stem@)) by {
                assert(!is_digit(stem@[i as int]));
            }
            return 0;
        }
        let t: u64 = (result as u64) * 10 + ((b - 48) as u64);
        assert(t == digits_value(stem@.take(i + 1)));
        if t > 0xFFFF_FFFF {
            proof {
                lemma_digits_value_take_le(stem@, i + 1);
            }
            return 0;
        }
        result = t as u32;
        i = i + 1;
    }
    assert(stem@.take(i as int) =~= stem@);
    result
}

proof fn lemma_stem_of_take(s: Seq<u8>, i: int)
    requires
        0 <= i <= s.len(),
        forall|j: int| 0 <= j < i ==> s[j] != 46,
        i < s.len() ==> s[i] == 46,
    ensures
        stem_of(s) == s.take(i),
    decreases i,
{
    if i == 0 {
        if s.len() == 0 {
            assert(stem_of(s) =~= s.take(0));
        } else {
            assert(stem_of(s) =~= s.take(0));
        }
    } else {
        lemma_stem_of_take(s.drop_first(), i - 1);
        assert(stem_of(s) == seq![s.first()] + stem_of(s.drop_first()));
        assert(seq![s.first()] + s.drop_first().take(i - 1) =~= s.take(i));
    }
}

/// The stem of a name: the bytes before the first dot.
pub fn stem_slice<'a>(name: &'a [u8]) -> (stem: &'a [u8])
    ensures
        stem@ == stem_of(name@),
{
    let mut i: usize = 0;
    while i < name.len()
        invariant
            0 <= i <= name@.len(),
            forall|j: int| 0 <= j < i ==> name@[j] != 46,
        decreases name@.len() - i,
    {
        if name[i] == 46 {
            proof {
                lemma_stem_of_take(name@, i as int);
            }
            return vstd::slice::slice_subrange(name, 0, i);
        }
        i = i + 1;
    }
    proof {
        lemma_stem_of_take(name@, name@.len() as int);
        assert(name@.take(name@.len() as int) =~= name@);
    }
    name
}

/// Scan the directory entries once and return the next session number: one
/// more than the largest numeric stem. Fails only if that maximum already
/// exhausts 32 bits.
pub fn next_file_number(entries: &Vec<Vec<u8>>) -> (r: Option<u32>)
    ensures
        r == if max_entry_value(entries.deep_view()) == u32::MAX {
            None::<u32>
        } else {
            Some((max_entry_value(entries.deep_view()) + 1) as u32)
        },
{
    let ghost dv = entries.deep_view();
    let mut highest: u32 = 0;
    let mut i: usize = 0;
    while i < entries.len()
        invariant
            0 <= i <= entries@.len(),
            dv == entries.deep_view(),
            dv.len() == entries@.len(),
            forall|j: int| 0 <= j < entries@.len() ==> dv[j] == entries@[j]@,
            highest == max_entry_value(dv.take(i as int)),
        decreases entries@.len() - i,
    {
        let stem = stem_slice(entries[i].as_slice());
        let v = parse_stem_u32(stem);
        proof {
            assert(dv.take(i + 1).drop_last() =~= dv.take(i as int));
            assert(dv.take(i + 1).last() == entries@[i as int]@);
        }
        if v > highest {
            highest = v;
        }
        i = i + 1;
    }
    proof {
        assert(dv.take(i as int) =~= dv);
    }
    if highest == 0xFFFF_FFFF {
        None
    } else {
        Some(highest + 1)
    }
}

/// Append the decimal rendering of `n` to `out`.
pub fn push_decimal(out: &mut Vec<u8>, n: u32)
    ensures
        final(out)@ == old(out)@ + decimal_digits(n as nat),
    decreases n,
{
    if n >= 10 {
        push_decimal(out, n / 10);
    }
    out.push(48 + ((n % 10) as u8));
    assert(final(out)@ =~= old(out)@ + decimal_digits(n as nat));
}

/// The session file name for number `n`: the decimal digits of `n`
/// followed by `".wav"`.
pub fn wav_file_name(n: u32) -> (name: Vec<u8>)
    ensures
        name@ == decimal_digits(n as nat) + seq![46u8, 119u8, 97u8, 118u8],
{
    let mut name: Vec<u8> = Vec::new();
    push_decimal(&mut name, n);
    name.push(46);
    name.push(119);
    name.push(97);
    name.push(118);
    assert(name@ =~= decimal_digits(n as nat) + seq![46u8, 119u8, 97u8, 118u8]);
    name
}

/// The stem of a decimal number followed by a dot-led suffix is exactly
/// the number's digits.
pub proof fn lemma_stem_of_decimal_name(n: nat, suffix: Seq<u8>)
    requires
        suffix.len() >= 1,
        suffix[0] == 46,
    ensures
        stem_of(decimal_digits(n) + suffix) == decimal_digits(n),
{
    let d = decimal_digits(n);
    lemma_decimal_digits_are_digits(n);
    let s = d + suffix;
    lemma_stem_of_take(s, d.len() as int);
    assert(s.take(d.len() as int) =~= d);
}

/// Decimal renderings consist of digits only.
pub proof fn lemma_decimal_digits_are_digits(n: nat)
    ensures
        all_digits(decimal_digits(n)),
    decreases n,
{
    if n >= 10 {
        lemma_decimal_digits_are_digits(n / 10);
        assert(forall|i: int|
            0 <= i < decimal_digits(n).len() - 1 ==> decimal_digits(n)[i] == decimal_digits(
                n / 10,
            )[i]);
    }
}

/// Numbers below `pow10(k)` render in at most `k` digits.
pub proof fn lemma_decimal_len_le(n: nat, k: nat)
    requires
        k >= 1,
        n < pow10(k),
    ensures
        decimal_digits(n).len() <= k,
    decreases k,
{
    if n >= 10 {
        assert(pow10(k) == 10 * pow10((k - 1) as nat));
        assert(n / 10 < pow10((k - 1) as nat)) by (nonlinear_arith)
            requires
                n < 10 * pow10((k - 1) as nat),
        ;
        assert(k >= 2) by {
            if k == 1 {
                assert(pow10(1nat) == 10);
            }
        }
        lemma_decimal_len_le(n / 10, (k - 1) as nat);
    }
}

/// Numbers at or above `pow10(k)` need more than `k` digits.
pub proof fn lemma_decimal_len_ge(n: nat, k: nat)
    requires
        n >= pow10(k),
    ensures
        decimal_digits(n).len() >= k + 1,
    decreases k,
{
    if k >= 1 {
        assert(pow10(k) == 10 * pow10((k - 1) as nat));
        assert(pow10((k - 1) as nat) >= 1) by {
            lemma_pow10_pos((k - 1) as nat);
        }
        assert(n >= 10);
        assert(n / 10 >= pow10((k - 1) as nat)) by (nonlinear_arith)
            requires
                n >= 10 * pow10((k - 1) as nat),
        ;
        lemma_decimal_len_ge(n / 10, (k - 1) as nat);
    }
}

proof fn lemma_pow10_pos(k: nat)
    ensures
        pow10(k) >= 1,
    decreases k,
{
    if k > 0 {
        lemma_pow10_pos((k - 1) as nat);
    }
}

} // verus!
