//! Sizes: the space a file takes on disk, and sizes in words.

use vstd::prelude::*;
use vstd::arithmetic::div_mod::{lemma_div_denominator, lemma_fundamental_div_mod};
use vstd::arithmetic::power2::{lemma2_to64, lemma_pow2_adds, pow2};
use crate::text::{decimal, digit, digit_char, push_decimal, push_text};

verus! {

/// What the platform reported about the space a file takes.
pub enum SizeReading {
    /// Block-count metadata: the number of 512-byte blocks allocated and the
    /// file's logical length.
    Blocks { blocks: u64, length: u64 },
    /// A compressed-size query: the file's attribute word, the two halves of
    /// the compressed size, and the logical length where it could be read.
    Compressed { attributes: u32, low: u32, high: u32, fallback: Option<u64> },
    /// Only the logical length is known.
    Length(u64),
    /// The file's metadata could not be read.
    Unavailable,
}

/// The attribute word that stands for a failed attribute query.
pub const INVALID_FILE_ATTRIBUTES: u32 = 0xFFFF_FFFF;

/// The attribute bit that marks a directory.
pub const FILE_ATTRIBUTE_DIRECTORY: u32 = 0x10;

/// The low half that stands for a failed compressed-size query.
pub const INVALID_FILE_SIZE: u32 = 0xFFFF_FFFF;

/// The space used by a file with `blocks` allocated blocks of 512 bytes and
/// logical length `length`: the smaller of the two, since a sparse file
/// holds fewer blocks than its length suggests.
pub open spec fn block_usage(blocks: nat, length: nat) -> nat {
    if blocks * 512 < length {
        blocks * 512
    } else {
        length
    }
}

/// Whether the attribute word is that of a directory.
pub open spec fn is_directory_word(attributes: u32) -> bool {
    attributes != INVALID_FILE_ATTRIBUTES && attributes & FILE_ATTRIBUTE_DIRECTORY != 0
}

/// The space a file takes by a compressed-size query: nothing for a
/// directory; the logical length, if known, where the query failed; else
/// the compressed size, put together from its two halves.
pub open spec fn compressed_usage(
    attributes: u32,
    low: u32,
    high: u32,
    length: Option<u64>,
) -> Option<nat> {
    if is_directory_word(attributes) {
        Some(0)
    } else if low == INVALID_FILE_SIZE {
        match length {
            Some(n) => Some(n as nat),
            None => None,
        }
    } else {
        Some((high * 0x1_0000_0000 + low) as nat)
    }
}

/// The space a file takes on disk, or `None` where it is unknown.
pub open spec fn real_size(reading: SizeReading) -> Option<nat> {
    match reading {
        SizeReading::Blocks { blocks, length } => Some(block_usage(blocks as nat, length as nat)),
        SizeReading::Compressed { attributes, low, high, fallback } => compressed_usage(
            attributes,
            low,
            high,
            fallback,
        ),
        SizeReading::Length(n) => Some(n as nat),
        SizeReading::Unavailable => None,
    }
}

/// The space used by a file from its block count and its logical length.
pub fn get_real_file_size_unix(blocks: u64, length: u64) -> (r: u64)
    ensures
        r == block_usage(blocks as nat, length as nat),
{
    if blocks > u64::MAX / 512 {
        length
    } else {
        let disk_usage = blocks * 512;
        if disk_usage < length {
            disk_usage
        } else {
            length
        }
    }
}

/// The space used by a file from a compressed-size query.
pub fn get_real_file_size_windows(attributes: u32, low: u32, high: u32, length: Option<u64>) -> (r:
    Option<u64>)
    ensures
        match r {
            Some(n) => compressed_usage(attributes, low, high, length) == Some(n as nat),
            None => compressed_usage(attributes, low, high, length) is None,
        },
{
    if attributes != INVALID_FILE_ATTRIBUTES && attributes & FILE_ATTRIBUTE_DIRECTORY != 0 {
        return Some(0);
    }
    if low == INVALID_FILE_SIZE {
        length
    } else {
        let high_part: u64 = high as u64;
        let low_part: u64 = low as u64;
        Some(high_part * 0x1_0000_0000 + low_part)
    }
}

/// The space a file takes on disk, or `None` where the platform could not
/// tell.
pub fn get_real_file_size(reading: &SizeReading) -> (r: Option<u64>)
    ensures
        match r {
            Some(n) => real_size(*reading) == Some(n as nat),
            None => real_size(*reading) is None,
        },
{
    match reading {
        SizeReading::Blocks { blocks, length } => Some(get_real_file_size_unix(*blocks, *length)),
        SizeReading::Compressed { attributes, low, high, fallback } => get_real_file_size_windows(
            *attributes,
            *low,
            *high,
            *fallback,
        ),
        SizeReading::Length(n) => Some(*n),
        SizeReading::Unavailable => None,
    }
}

/// `num / den` rounded to the nearest whole number, a tie going to the even
/// neighbour.
pub open spec fn round_half_even(num: nat, den: nat) -> nat {
    let q = num / den;
    let r = num % den;
    if 2 * r > den || (2 * r == den && q % 2 == 1) {
        q + 1
    } else {
        q
    }
}

/// The distance between neighbouring double-precision numbers around `n`:
/// the power of two that leaves `n` with 53 significant bits.
pub open spec fn spacing(n: nat) -> nat
    decreases n,
{
    if n < 0x20_0000_0000_0000 {
        1
    } else {
        2 * spacing(n / 2)
    }
}

/// The whole number that `n` becomes when it is held as a double-precision
/// number: `n` itself while it has at most 53 significant bits, else the
/// nearest multiple of the spacing, a tie going to the even neighbour.
pub open spec fn nearest_double(n: nat) -> nat {
    round_half_even(n, spacing(n)) * spacing(n)
}

/// The index of the unit in which a size is given: the largest of B, KB,
/// MB, GB and TB that the size reaches.
pub open spec fn unit_index(bytes: nat) -> nat {
    if bytes < 1024 {
        0
    } else if bytes < 1024 * 1024 {
        1
    } else if bytes < 1024 * 1024 * 1024 {
        2
    } else if bytes < 1024 * 1024 * 1024 * 1024 {
        3
    } else {
        4
    }
}

/// The number of bytes in the unit with index `k`.
pub open spec fn unit_bytes(k: nat) -> nat {
    if k == 0 {
        1
    } else if k == 1 {
        1024
    } else if k == 2 {
        1024 * 1024
    } else if k == 3 {
        1024 * 1024 * 1024
    } else {
        1024 * 1024 * 1024 * 1024
    }
}

/// The name of the unit with index `k`.
pub open spec fn unit_name(k: nat) -> Seq<char> {
    if k == 0 {
        "B"@
    } else if k == 1 {
        "KB"@
    } else if k == 2 {
        "MB"@
    } else if k == 3 {
        "GB"@
    } else {
        "TB"@
    }
}

/// A count of tenths written with one decimal place.
pub open spec fn one_decimal(tenths: nat) -> Seq<char> {
    decimal(tenths / 10) + seq!['.', digit(tenths % 10)]
}

/// A count of hundredths written with two decimal places.
pub open spec fn two_decimals(hundredths: nat) -> Seq<char> {
    decimal(hundredths / 100) + seq!['.', digit((hundredths / 10) % 10), digit(hundredths % 10)]
}

/// A size in words: below 1024 the number of bytes and `B`; from there on
/// the size in the largest unit it reaches, as the double-precision
/// quotient rounded to one decimal place.
pub open spec fn size_text(bytes: nat) -> Seq<char> {
    let k = unit_index(bytes);
    if k == 0 {
        decimal(bytes) + " B"@
    } else {
        one_decimal(round_half_even(nearest_double(bytes) * 10, unit_bytes(k))) + " "@
            + unit_name(k)
    }
}

/// Halving twice in a row is halving by the product.
proof fn spacing_step(n: nat, s: nat)
    requires
        s > 0,
    ensures
        (n / s) / 2 == n / (2 * s),
{
    lemma_div_denominator(n as int, s as int, 2);
    assert(s * 2 == 2 * s);
}

/// The value of `n` held as a double-precision number.
pub fn to_nearest_double(n: u64) -> (r: u128)
    ensures
        r == nearest_double(n as nat),
        r <= 0x1_0000_0000_0000_0000,
        n > 0 ==> r > 0,
{
    let mut step: u64 = 1;
    let mut m: u64 = n;
    let ghost mut k: nat = 0;
    proof {
        lemma2_to64();
    }
    while m >= 0x20_0000_0000_0000
        invariant
            step > 0,
            m == n / step,
            m * step <= n,
            spacing(n as nat) == step * spacing(m as nat),
            k <= 64,
            step == pow2(k),
            step == 1 ==> m == n,
            step > 1 ==> m >= 0x10_0000_0000_0000,
        decreases m,
    {
        proof {
            spacing_step(n as nat, step as nat);
            assert(step <= 2048) by (nonlinear_arith)
                requires
                    m * step <= n,
                    m >= 0x20_0000_0000_0000,
                    n <= 0xFFFF_FFFF_FFFF_FFFF,
            ;
            assert((m / 2) * (2 * step) <= n) by (nonlinear_arith)
                requires
                    m * step <= n,
                    step > 0,
            ;
            assert(step * (2 * spacing((m / 2) as nat)) == (2 * step) * spacing((m / 2) as nat))
                by (nonlinear_arith);
            lemma2_to64();
            lemma_pow2_adds(k, 1);
            assert(k < 64) by {
                if k == 64 {
                    assert(step == 0x1_0000_0000_0000_0000);
                }
            }
            k = k + 1;
        }
        m = m / 2;
        step = step * 2;
    }
    assert(spacing(n as nat) == step) by (nonlinear_arith)
        requires
            spacing(n as nat) == step * spacing(m as nat),
            spacing(m as nat) == 1,
    ;
    let q: u64 = n / step;
    let r: u64 = n % step;
    let up: bool = r > step - r || (r == step - r && q % 2 == 1);
    let rounded: u128 = if up {
        q as u128 + 1
    } else {
        q as u128
    };
    proof {
        lemma_fundamental_div_mod(n as int, step as int);
        let c = pow2((64 - k) as nat);
        lemma2_to64();
        lemma_pow2_adds(k, (64 - k) as nat);
        assert(step * c == 0x1_0000_0000_0000_0000);
        assert(q < c) by (nonlinear_arith)
            requires
                n == step * q + r,
                r >= 0,
                step > 0,
                n < step * c,
        ;
        assert(rounded * step <= 0x1_0000_0000_0000_0000) by (nonlinear_arith)
            requires
                rounded <= c,
                step * c == 0x1_0000_0000_0000_0000,
                step > 0,
        ;
        if n > 0 {
            assert(rounded * step > 0) by (nonlinear_arith)
                requires
                    rounded >= 1,
                    step >= 1,
            ;
        }
    }
    rounded * (step as u128)
}

/// `num / den` rounded to the nearest whole number, a tie going to the even
/// neighbour.
pub fn rounded_quotient(num: u128, den: u128) -> (r: u128)
    requires
        den > 0,
        num / den < u128::MAX,
    ensures
        r == round_half_even(num as nat, den as nat),
{
    let q = num / den;
    let r = num % den;
    if r > den - r || (r == den - r && q % 2 == 1) {
        q + 1
    } else {
        q
    }
}

/// Formats a size in bytes for reading: `512 B`, `1.5 KB`, `2.0 MB`.
pub fn format_size(bytes: u64) -> (r: String)
    ensures
        r@ == size_text(bytes as nat),
{
    let mut out = String::new();
    if bytes < 1024 {
        push_decimal(&mut out, bytes);
        push_text(&mut out, " B");
        return out;
    }
    let value = to_nearest_double(bytes);
    let (unit, name): (u128, &str) = if bytes < 1024 * 1024 {
        (1024, "KB")
    } else if bytes < 1024 * 1024 * 1024 {
        (1024 * 1024, "MB")
    } else if bytes < 1024 * 1024 * 1024 * 1024 {
        (1024 * 1024 * 1024, "GB")
    } else {
        (1024 * 1024 * 1024 * 1024, "TB")
    };
    let tenths = rounded_quotient(value * 10, unit);
    assert(tenths <= 0xFFFF_FFFF_FFFF_FFFF) by {
        assert((value * 10) / (unit as int) <= value * 10 / 1024) by (nonlinear_arith)
            requires
                unit >= 1024,
                value >= 0,
        ;
    }
    push_one_decimal(&mut out, tenths as u64);
    push_text(&mut out, " ");
    push_text(&mut out, name);
    out
}

/// Appends a count of tenths with one decimal place.
pub fn push_one_decimal(out: &mut String, tenths: u64)
    ensures
        final(out)@ == old(out)@ + one_decimal(tenths as nat),
{
    push_decimal(out, tenths / 10);
    out.push('.');
    out.push(digit_char(tenths % 10));
}

/// Appends a count of hundredths with two decimal places.
pub fn push_two_decimals(out: &mut String, hundredths: u64)
    ensures
        final(out)@ == old(out)@ + two_decimals(hundredths as nat),
{
    push_decimal(out, hundredths / 100);
    out.push('.');
    out.push(digit_char((hundredths / 10) % 10));
    out.push(digit_char(hundredths % 10));
}

} // verus!
