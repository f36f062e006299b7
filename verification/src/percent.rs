//! Percentages as double-precision arithmetic gives them, computed with
//! whole numbers.
//!
//! A share `part / whole` in percent is the double nearest to the quotient
//! of the two numbers, times one hundred and rounded to a double again. The
//! functions here follow these roundings step by step on whole numbers, so
//! that the digits shown are those of the double-precision result.

use vstd::prelude::*;
use vstd::arithmetic::power2::{
    lemma2_to64, lemma2_to64_rest, lemma_pow2_adds, lemma_pow2_pos,
    lemma_pow2_strictly_increases, lemma_pow2_unfold, pow2,
};
use crate::size::{
    nearest_double, one_decimal, round_half_even, rounded_quotient, to_nearest_double,
};
use crate::text::{push_decimal_wide, wide_digit_char};

verus! {

/// A number held in binary: `mantissa · 2^exponent`.
pub struct Binary {
    pub mantissa: nat,
    pub exponent: int,
}

/// How often `num` is doubled until `num / den` reaches 2^52.
pub open spec fn shifts_up(num: nat, den: nat) -> nat
    decreases 0x20_0000_0000_0000 * den - num,
{
    if num == 0 || den == 0 || num >= 0x10_0000_0000_0000 * den {
        0
    } else {
        1 + shifts_up(2 * num, den)
    }
}

/// How often `den` is doubled until `num / den` falls below 2^53.
pub open spec fn shifts_down(num: nat, den: nat) -> nat
    decreases num - 0x10_0000_0000_0000 * den,
{
    if den == 0 || num < 0x20_0000_0000_0000 * den {
        0
    } else {
        1 + shifts_down(num, 2 * den)
    }
}

/// The double nearest to `num / den`: the quotient is scaled by a power of
/// two so that it has 53 binary digits before the point, and rounded to a
/// whole number, a tie going to the even neighbour.
pub open spec fn nearest_binary(num: nat, den: nat) -> Binary {
    let up = shifts_up(num, den);
    let down = shifts_down(num * pow2(up), den);
    Binary {
        mantissa: round_half_even(num * pow2(up), den * pow2(down)),
        exponent: down - up,
    }
}

/// The double nearest to one hundred times the number.
pub open spec fn times_hundred(b: Binary) -> Binary {
    let r = nearest_binary(b.mantissa * 100, 1);
    Binary { mantissa: r.mantissa, exponent: b.exponent + r.exponent }
}

/// The number in tenths, rounded to a whole number of tenths, a tie going
/// to the even neighbour.
pub open spec fn whole_tenths(b: Binary) -> nat {
    if b.exponent >= 0 {
        b.mantissa * 10 * pow2(b.exponent as nat)
    } else {
        round_half_even(b.mantissa * 10, pow2((-b.exponent) as nat))
    }
}

/// The share of `part` in `whole` in percent, as double-precision
/// arithmetic gives it; zero where `whole` is zero.
pub open spec fn percent_of(part: nat, whole: nat) -> Binary {
    if whole == 0 {
        Binary { mantissa: 0, exponent: 0 }
    } else {
        times_hundred(nearest_binary(nearest_double(part), nearest_double(whole)))
    }
}

/// The share of `part` in `whole` in tenths of a percent, as
/// double-precision arithmetic gives it.
pub open spec fn percent_tenths(part: nat, whole: nat) -> nat {
    whole_tenths(percent_of(part, whole))
}

/// The double nearest to a hundredth of the number.
pub open spec fn divided_by_hundred(b: Binary) -> Binary {
    let r = nearest_binary(b.mantissa, 100);
    Binary { mantissa: r.mantissa, exponent: b.exponent + r.exponent }
}

/// The double nearest to the number times `factor`.
pub open spec fn times_whole(b: Binary, factor: nat) -> Binary {
    let r = nearest_binary(b.mantissa * factor, 1);
    Binary { mantissa: r.mantissa, exponent: b.exponent + r.exponent }
}

/// The whole part of the number.
pub open spec fn whole_part(b: Binary) -> nat {
    if b.exponent >= 0 {
        b.mantissa * pow2(b.exponent as nat)
    } else {
        b.mantissa / pow2((-b.exponent) as nat)
    }
}

/// How many of `width` cells of a bar are filled for the share of `part`
/// in `whole`.
pub open spec fn filled_cells(part: nat, whole: nat, width: nat) -> nat {
    let full = whole_part(
        times_whole(divided_by_hundred(percent_of(part, whole)), nearest_double(width)),
    );
    if full < width {
        full
    } else {
        width
    }
}

/// The share of `part` in `whole` in percent, with one decimal place; zero
/// where `whole` is zero.
pub open spec fn percent_text(part: nat, whole: nat) -> Seq<char> {
    one_decimal(percent_tenths(part, whole))
}

/// The power of two with exponent `k`.
pub fn power_of_two(k: u32) -> (r: u128)
    requires
        k <= 127,
    ensures
        r == pow2(k as nat),
{
    let mut r: u128 = 1;
    let mut i: u32 = 0;
    proof {
        lemma2_to64();
    }
    while i < k
        invariant
            i <= k <= 127,
            r == pow2(i as nat),
        decreases k - i,
    {
        proof {
            lemma_pow2_unfold((i + 1) as nat);
            lemma2_to64_rest();
            if i < 126 {
                lemma_pow2_strictly_increases((i + 1) as nat, 127);
            }
            assert(pow2(127) == 0x8000_0000_0000_0000_0000_0000_0000_0000) by {
                lemma_pow2_adds(64, 63);
            }
        }
        r = r * 2;
        i += 1;
    }
    r
}

/// A power of two that is at most 2^`bound` has an exponent of at most
/// `bound`.
proof fn exponent_is_bounded(k: nat, bound: nat)
    requires
        pow2(k) <= pow2(bound),
    ensures
        k <= bound,
{
    if k > bound {
        lemma_pow2_strictly_increases(bound, k);
    }
}

/// Scales `num / den` to 53 binary digits and rounds it: gives the
/// mantissa, and how often the numerator and the denominator were doubled
/// on the way.
pub fn to_binary(num: u128, den: u128) -> (r: (u128, u32, u32))
    requires
        num <= 0x20_0000_0000_0000 * 0x1_0000_0000_0000_0000,
        0 < den <= 0x1_0000_0000_0000_0000,
    ensures
        r.0 == nearest_binary(num as nat, den as nat).mantissa,
        r.2 - r.1 == nearest_binary(num as nat, den as nat).exponent,
        r.0 <= 0x20_0000_0000_0000,
        num > 0 ==> r.0 >= 0x10_0000_0000_0000,
        num == 0 ==> r.0 == 0 && r.1 == 0,
        num >= 0x10_0000_0000_0000 * den ==> r.1 == 0,
        r.1 <= 116,
        r.2 <= 65,
        num <= 0x1_0000_0000_0000_0000 ==> r.2 <= 12,
{
    let mut n: u128 = num;
    let mut up: u32 = 0;
    proof {
        lemma2_to64();
        lemma2_to64_rest();
        assert(num * pow2(0) == num);
    }
    while n > 0 && n < 0x10_0000_0000_0000 * den
        invariant
            0 < den <= 0x1_0000_0000_0000_0000,
            n == num * pow2(up as nat),
            shifts_up(num as nat, den as nat) == up + shifts_up(n as nat, den as nat),
            up <= 116,
            up > 0 ==> n < 0x20_0000_0000_0000 * den,
            up == 0 ==> n == num,
            num > 0 ==> pow2(up as nat) <= n,
            n <= 0x20_0000_0000_0000 * 0x1_0000_0000_0000_0000,
        decreases 0x20_0000_0000_0000 * den - n,
    {
        proof {
            lemma2_to64();
            lemma2_to64_rest();
            lemma_pow2_unfold((up + 1) as nat);
            assert(num * (2 * pow2(up as nat)) == 2 * (num * pow2(up as nat))) by (nonlinear_arith);
            assert(num > 0) by (nonlinear_arith)
                requires
                    n == num * pow2(up as nat),
                    n > 0,
            ;
            lemma_pow2_adds(64, 52);
            assert(pow2(116) == 0x10_0000_0000_0000 * 0x1_0000_0000_0000_0000);
            assert(pow2(up as nat) < pow2(116));
            exponent_is_bounded(up as nat, 116);
        }
        n = n * 2;
        up += 1;
    }
    let mut d: u128 = den;
    let mut down: u32 = 0;
    proof {
        assert(den * pow2(0) == den);
        lemma_pow2_pos(up as nat);
        assert(up > 0 ==> n < 0x20_0000_0000_0000 * den);
    }
    while n >= 0x20_0000_0000_0000 * d
        invariant
            0 < den <= 0x1_0000_0000_0000_0000,
            d == den * pow2(down as nat),
            d >= den,
            shifts_down(n as nat, den as nat) == down + shifts_down(n as nat, d as nat),
            up > 0 ==> n < 0x20_0000_0000_0000 * den,
            up == 0 ==> n == num,
            num <= 0x20_0000_0000_0000 * 0x1_0000_0000_0000_0000,
            d <= 0x2_0000_0000_0000_0000,
            pow2(down as nat) <= 0x2_0000_0000_0000_0000,
            num <= 0x1_0000_0000_0000_0000 && down > 0 ==> pow2(down as nat) <= 4096,
            down <= 65,
            num <= 0x1_0000_0000_0000_0000 ==> down <= 12,
            num > 0 ==> n >= 0x10_0000_0000_0000 * d,
        decreases n - 0x10_0000_0000_0000 * d,
    {
        proof {
            lemma_pow2_unfold((down + 1) as nat);
            assert(den * (2 * pow2(down as nat)) == 2 * (den * pow2(down as nat)))
                by (nonlinear_arith);
            assert(up == 0) by (nonlinear_arith)
                requires
                    n >= 0x20_0000_0000_0000 * d,
                    d >= den,
                    up > 0 ==> n < 0x20_0000_0000_0000 * den,
            ;
            assert(d <= 0x1_0000_0000_0000_0000);
            assert(pow2(down as nat) <= d) by (nonlinear_arith)
                requires
                    d == den * pow2(down as nat),
                    den >= 1,
                    pow2(down as nat) >= 0,
            ;
            lemma2_to64();
            lemma2_to64_rest();
            lemma_pow2_adds(64, 1);
            assert(pow2(65) == 0x2_0000_0000_0000_0000);
            assert(pow2((down + 1) as nat) <= pow2(65));
            exponent_is_bounded((down + 1) as nat, 65);
            if num <= 0x1_0000_0000_0000_0000 {
                assert(d <= 2048);
                assert(pow2((down + 1) as nat) <= pow2(12));
                exponent_is_bounded((down + 1) as nat, 12);
            }
        }
        d = d * 2;
        down += 1;
    }
    let m = rounded_quotient(n, d);
    proof {
        assert(n / d < 0x20_0000_0000_0000) by (nonlinear_arith)
            requires
                n < 0x20_0000_0000_0000 * d,
                d > 0,
        ;
        if num > 0 {
            assert(n / d >= 0x10_0000_0000_0000) by (nonlinear_arith)
                requires
                    n >= 0x10_0000_0000_0000 * d,
                    d > 0,
            ;
        } else {
            assert(n == 0);
        }
    }
    (m, up, down)
}

/// A number held in binary, as the program holds it.
#[derive(Clone, Copy, Debug)]
pub struct Scaled {
    /// The mantissa.
    pub mantissa: u128,
    /// The exponent of the power of two.
    pub exponent: i32,
}

impl View for Scaled {
    type V = Binary;

    open spec fn view(&self) -> Binary {
        Binary { mantissa: self.mantissa as nat, exponent: self.exponent as int }
    }
}

/// The share of `part` in `whole` in percent, as double-precision
/// arithmetic gives it.
pub fn percent_value(part: u64, whole: u64) -> (r: Scaled)
    requires
        whole > 0,
    ensures
        r@ == percent_of(part as nat, whole as nat),
        r.mantissa <= 0x20_0000_0000_0000,
        r.mantissa > 0 ==> r.mantissa >= 0x10_0000_0000_0000,
        -116 <= r.exponent <= 24,
{
    let fa = to_nearest_double(part);
    let fb = to_nearest_double(whole);
    let (m, up1, down1) = to_binary(fa, fb);
    let (m2, up2, down2) = to_binary(m * 100, 1);
    let exponent: i32 = (down1 as i32 + down2 as i32) - (up1 as i32 + up2 as i32);
    Scaled { mantissa: m2, exponent }
}

/// The share of `part` in `whole` in tenths of a percent, as
/// double-precision arithmetic gives it.
pub fn percent_in_tenths(part: u64, whole: u64) -> (r: u128)
    requires
        whole > 0,
    ensures
        r == percent_tenths(part as nat, whole as nat),
{
    let p = percent_value(part, whole);
    proof {
        lemma2_to64();
        lemma2_to64_rest();
    }
    if p.exponent >= 0 {
        let k: u32 = p.exponent as u32;
        let scale = power_of_two(k);
        proof {
            assert(pow2(k as nat) <= pow2(24)) by {
                if k < 24 {
                    lemma_pow2_strictly_increases(k as nat, 24);
                }
            }
            assert(p.mantissa * 10 * scale <= 0x20_0000_0000_0000 * 10 * 0x100_0000)
                by (nonlinear_arith)
                requires
                    p.mantissa <= 0x20_0000_0000_0000,
                    scale <= 0x100_0000,
            ;
        }
        p.mantissa * 10 * scale
    } else {
        let k: u32 = (-p.exponent) as u32;
        let scale = power_of_two(k);
        proof {
            lemma_pow2_pos(k as nat);
        }
        rounded_quotient(p.mantissa * 10, scale)
    }
}

/// The whole part of a number held in binary, where it lies below 2^64;
/// `None` where the number is 2^64 or more.
pub fn whole_part_of(b: Scaled) -> (r: Option<u64>)
    requires
        b.mantissa <= 0x20_0000_0000_0000,
        b.mantissa > 0 ==> b.mantissa >= 0x10_0000_0000_0000,
    ensures
        match r {
            Some(n) => whole_part(b@) == n,
            None => whole_part(b@) > u64::MAX,
        },
{
    proof {
        lemma2_to64();
        lemma2_to64_rest();
    }
    if b.mantissa == 0 {
        proof {
            if b.exponent >= 0 {
                assert(0 * pow2(b.exponent as nat) == 0) by (nonlinear_arith);
            } else {
                lemma_pow2_pos((-b.exponent) as nat);
            }
        }
        Some(0)
    } else if b.exponent >= 12 {
        proof {
            assert(pow2(b.exponent as nat) >= pow2(12)) by {
                if b.exponent > 12 {
                    lemma_pow2_strictly_increases(12, b.exponent as nat);
                }
            }
            assert(b.mantissa * pow2(b.exponent as nat) >= 0x10_0000_0000_0000 * 4096)
                by (nonlinear_arith)
                requires
                    b.mantissa >= 0x10_0000_0000_0000,
                    pow2(b.exponent as nat) >= 4096,
            ;
        }
        None
    } else if b.exponent >= 0 {
        let k: u32 = b.exponent as u32;
        let scale = power_of_two(k);
        proof {
            assert(pow2(k as nat) <= pow2(11)) by {
                if k < 11 {
                    lemma_pow2_strictly_increases(k as nat, 11);
                }
            }
            assert(b.mantissa * scale <= 0x20_0000_0000_0000 * 2048) by (nonlinear_arith)
                requires
                    b.mantissa <= 0x20_0000_0000_0000,
                    scale <= 2048,
            ;
        }
        let full = b.mantissa * scale;
        if full > 0xFFFF_FFFF_FFFF_FFFF {
            None
        } else {
            Some(full as u64)
        }
    } else if b.exponent < -53 {
        proof {
            let k = (-b.exponent) as nat;
            if k > 54 {
                lemma_pow2_strictly_increases(54, k);
            }
            assert(pow2(54) == 0x40_0000_0000_0000) by {
                lemma_pow2_adds(32, 22);
            }
            let m = b.mantissa as nat;
            assert(m / pow2(k) == 0) by (nonlinear_arith)
                requires
                    m < pow2(k),
            ;
        }
        Some(0)
    } else {
        let k: u32 = (-b.exponent) as u32;
        let scale = power_of_two(k);
        proof {
            lemma_pow2_pos(k as nat);
            let m = b.mantissa as nat;
            let d = scale as nat;
            assert(m / d <= m) by (nonlinear_arith)
                requires
                    d >= 1,
            ;
        }
        Some((b.mantissa / scale) as u64)
    }
}

/// How many of `width` cells of a bar are filled for the share of `part`
/// in `whole`: the whole part of the share in percent, divided by one
/// hundred and multiplied by the width, each step rounded as
/// double-precision arithmetic rounds it; at most `width`.
pub fn bar_cells(part: u64, whole: u64, width: usize) -> (r: usize)
    ensures
        r == filled_cells(part as nat, whole as nat, width as nat),
        r <= width,
{
    if whole == 0 {
        proof {
            lemma2_to64();
            assert(shifts_up(0, 100) == 0);
            assert(shifts_down(0, 100) == 0);
            assert(shifts_up(0, 1) == 0);
            assert(shifts_down(0, 1) == 0);
            assert(0 * pow2(0) == 0) by (nonlinear_arith);
            assert(0 * nearest_double(width as nat) == 0) by (nonlinear_arith);
            assert(1 * pow2(0) == 1);
            assert(100 * pow2(0) == 100);
        }
        return 0;
    }
    let p = percent_value(part, whole);
    let (m3, up3, down3) = to_binary(p.mantissa, 100);
    let e3: i32 = p.exponent + (down3 as i32 - up3 as i32);
    let w = to_nearest_double(width as u64);
    proof {
        assert(m3 * w <= 0x20_0000_0000_0000 * 0x1_0000_0000_0000_0000) by (nonlinear_arith)
            requires
                m3 <= 0x20_0000_0000_0000,
                w <= 0x1_0000_0000_0000_0000,
        ;
    }
    let (m4, up4, down4) = to_binary(m3 * w, 1);
    let e4: i32 = e3 + (down4 as i32 - up4 as i32);
    let full = whole_part_of(Scaled { mantissa: m4, exponent: e4 });
    match full {
        Some(n) => if n < width as u64 {
            n as usize
        } else {
            width
        },
        None => width,
    }
}

/// Appends the share of `part` in `whole` in percent, with one decimal
/// place; zero where `whole` is zero.
pub fn push_percent(out: &mut String, part: u64, whole: u64)
    ensures
        final(out)@ == old(out)@ + percent_text(part as nat, whole as nat),
{
    let tenths: u128 = if whole == 0 {
        proof {
            lemma2_to64();
            assert(0 * 10 * pow2(0) == 0) by (nonlinear_arith);
        }
        0
    } else {
        percent_in_tenths(part, whole)
    };
    push_decimal_wide(out, tenths / 10);
    out.push('.');
    out.push(wide_digit_char(tenths % 10));
    assert(out@ =~= old(out)@ + one_decimal(tenths as nat));
}

/// The share of `part` in `whole` in percent, with one decimal place, as
/// double-precision arithmetic gives it; zero where `whole` is zero.
pub fn format_percent(part: u64, whole: u64) -> (r: String)
    ensures
        r@ == percent_text(part as nat, whole as nat),
{
    let mut out = String::new();
    push_percent(&mut out, part, whole);
    out
}

} // verus!
