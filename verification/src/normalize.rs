//! Rescaling of native device samples into the unit range.
//!
//! A device delivers binary32 numbers, signed 16-bit integers or unsigned
//! 16-bit integers. Each is mapped to the binary32 number that floating-point
//! arithmetic with round-to-nearest, ties-to-even gives for
//!
//! * `n / 32767` for a signed integer `n`, with -32768 taken as -32767,
//! * `(s / 65535) * 2 - 1` for an unsigned integer `s`,
//!
//! computed here on bit patterns with integers only.

use crate::sample::{
    clamp_to_unit, in_unit_range, patterns, Sample, MINUS_ONE_BITS, ONE_BITS, SIGN_BIT,
};
use vstd::arithmetic::div_mod::lemma_fundamental_div_mod;
use vstd::arithmetic::power2::{
    lemma2_to64, lemma2_to64_rest, lemma_pow2_pos, lemma_pow2_strictly_increases,
    lemma_pow2_unfold, pow2,
};
use vstd::prelude::*;

verus! {

/// `n / d` rounded to the nearest integer, a tie going to the even one.
pub open spec fn round_half_even(n: nat, d: nat) -> nat
    recommends
        d > 0,
{
    let q = n / d;
    let r = n % d;
    if 2 * r > d || (2 * r == d && q % 2 == 1) {
        q + 1
    } else {
        q
    }
}

/// How often a positive `num` below `den` must be doubled to reach `den`.
pub open spec fn doublings(num: nat, den: nat) -> nat
    decreases
            (if num < den {
                den - num
            } else {
                0
            }),
{
    if 0 < num < den {
        1 + doublings(2 * num, den)
    } else {
        0
    }
}

/// A positive `num` below `den`, doubled until it reaches `den`.
pub open spec fn doubled(num: nat, den: nat) -> nat
    decreases
            (if num < den {
                den - num
            } else {
                0
            }),
{
    if 0 < num < den {
        doubled(2 * num, den)
    } else {
        num
    }
}

/// The pattern of the binary32 number nearest to `num / den`, for
/// `num <= den`: with `k` doublings the quotient lies in the binade of
/// `2^-k`, its significand is the doubled quotient rounded to 24 bits, and a
/// significand that rounds up to `2^24` carries into the exponent.
pub open spec fn ratio_pattern(num: nat, den: nat) -> int
    recommends
        0 < den,
        num <= den,
{
    if num == 0 {
        0
    } else {
        (126 - doublings(num, den)) * 0x80_0000 + round_half_even(
            doubled(num, den) * 0x80_0000,
            den,
        )
    }
}

/// The doubled numerator lies between the denominator and twice it.
pub proof fn lemma_doubled_bounds(num: nat, den: nat)
    requires
        0 < num <= den,
    ensures
        den <= doubled(num, den) < 2 * den,
        doubled(num, den) == num * pow2(doublings(num, den)),
    decreases
            (if num < den {
                den - num
            } else {
                0
            }),
{
    lemma2_to64();
    if num < den {
        if 2 * num <= den {
            lemma_doubled_bounds(2 * num, den);
            let k = doublings(2 * num, den);
            lemma_pow2_unfold(k + 1);
            assert((2 * num) * pow2(k) == num * (2 * pow2(k))) by (nonlinear_arith);
        } else {
            assert(doublings(2 * num, den) == 0);
            assert(doubled(2 * num, den) == 2 * num);
            assert(num * pow2(1) == 2 * num);
        }
    } else {
        assert(num * pow2(0) == num);
    }
}

/// A numerator that is at least `den / 2^j` needs at most `j` doublings.
pub proof fn lemma_doublings_bound(num: nat, den: nat, j: nat)
    requires
        0 < num,
        den < pow2(j) * num,
    ensures
        doublings(num, den) <= j,
    decreases
            (if num < den {
                den - num
            } else {
                0
            }),
{
    if num < den {
        if j == 0 {
            lemma2_to64();
            assert(pow2(0) * num == num) by (nonlinear_arith)
                requires
                    pow2(0) == 1,
            ;
        } else {
            lemma_pow2_unfold(j);
            assert(pow2((j - 1) as nat) * (2 * num) == (2 * pow2((j - 1) as nat)) * num)
                by (nonlinear_arith);
            lemma_doublings_bound(2 * num, den, (j - 1) as nat);
        }
    }
}

/// The significand of a quotient in a binade has 24 bits, or is `2^24`.
pub proof fn lemma_significand_bounds(scaled: nat, den: nat)
    requires
        0 < den <= scaled < 2 * den,
    ensures
        0x80_0000 <= round_half_even(scaled * 0x80_0000, den) <= 0x100_0000,
        scaled == den ==> round_half_even(scaled * 0x80_0000, den) == 0x80_0000,
{
    let n = scaled * 0x80_0000;
    assert(n / den >= 0x80_0000) by (nonlinear_arith)
        requires
            n >= den * 0x80_0000,
            den > 0,
    ;
    assert(n / den < 0x100_0000) by (nonlinear_arith)
        requires
            n < den * 0x100_0000,
            den > 0,
    ;
    if scaled == den {
        assert(n / den == 0x80_0000 && n % den == 0) by (nonlinear_arith)
            requires
                n == den * 0x80_0000,
                den > 0,
        ;
    }
}

/// The pattern of a quotient of a positive numerator by a denominator that
/// is not smaller is positive and at most the pattern of 1.0; it is that
/// pattern when the two are equal.
pub proof fn lemma_ratio_range(num: nat, den: nat)
    requires
        0 < num <= den < 0x100_0000_0000,
    ensures
        doublings(num, den) <= 40,
        0 < ratio_pattern(num, den) <= 0x3F80_0000,
        num == den ==> ratio_pattern(num, den) == 0x3F80_0000,
{
    lemma2_to64();
    lemma2_to64_rest();
    assert(pow2(40) * num >= pow2(40)) by (nonlinear_arith)
        requires
            num >= 1,
    ;
    lemma_doublings_bound(num, den, 40);
    lemma_doubled_bounds(num, den);
    lemma_significand_bounds(doubled(num, den), den);
    let k = doublings(num, den);
    let m = round_half_even(doubled(num, den) * 0x80_0000, den);
    if k == 0 {
        assert(num == den);
    }
    assert((126 - k) * 0x80_0000 + m <= 0x3F80_0000) by (nonlinear_arith)
        requires
            k <= 40,
            m <= 0x100_0000,
            k == 0 ==> m == 0x80_0000,
    ;
    assert((126 - k) * 0x80_0000 + m > 0) by (nonlinear_arith)
        requires
            k <= 40,
            m >= 0x80_0000,
    ;
}

/// Computes the pattern of `num / den`.
fn ratio_bits(num: u64, den: u64) -> (bits: u32)
    requires
        num <= den,
        0 < den < 0x100_0000_0000,
    ensures
        bits == ratio_pattern(num as nat, den as nat),
        bits <= ONE_BITS,
{
    if num == 0 {
        return 0;
    }
    proof {
        lemma_ratio_range(num as nat, den as nat);
        lemma_doubled_bounds(num as nat, den as nat);
    }
    let mut scaled: u64 = num;
    let mut k: u32 = 0;
    while scaled < den
        invariant
            0 < scaled,
            0 < den < 0x100_0000_0000,
            k + doublings(scaled as nat, den as nat) == doublings(num as nat, den as nat),
            doubled(scaled as nat, den as nat) == doubled(num as nat, den as nat),
            doublings(num as nat, den as nat) <= 40,
        decreases
                (if scaled < den {
                    den - scaled
                } else {
                    0
                }),
    {
        scaled = 2 * scaled;
        k = k + 1;
    }
    let n: u64 = scaled * 0x80_0000;
    let q: u64 = n / den;
    let r: u64 = n % den;
    let m: u64 = if 2 * r > den || (2 * r == den && q % 2 == 1) {
        q + 1
    } else {
        q
    };
    proof {
        lemma_significand_bounds(scaled as nat, den as nat);
    }
    let exponent: u32 = 126 - k;
    assert(exponent * 0x80_0000 + m <= 0x3F80_0000);
    exponent * 0x80_0000 + (m as u32)
}

/// The exponent field of a non-negative pattern.
pub open spec fn exponent_field(bits: int) -> int {
    bits / 0x80_0000
}

/// The 24-bit significand of a non-negative pattern of a normal number: the
/// pattern denotes `significand * 2^(exponent_field - 150)`.
pub open spec fn significand(bits: int) -> int {
    0x80_0000 + bits % 0x80_0000
}

/// Rounding to the nearest integer errs by at most a half.
pub proof fn lemma_round_half_even_error(n: nat, d: nat)
    requires
        d > 0,
    ensures
        -(d as int) <= 2 * (round_half_even(n, d) * d - n) <= d,
{
    let q = n / d;
    let r = n % d;
    lemma_fundamental_div_mod(n as int, d as int);
    assert(0 <= r < d) by (nonlinear_arith)
        requires
            r == n % d,
            d > 0,
    ;
    assert((q + 1) * d == q * d + d) by (nonlinear_arith);
    assert(d * q == q * d) by (nonlinear_arith);
}

/// The pattern of a quotient denotes a number within half a unit in the last
/// place of the quotient: with exponent field `e` and significand `m` the
/// pattern denotes `m * 2^(e - 150)`, and `m * den` differs from
/// `num * 2^(150 - e)` by at most `den / 2`.
pub proof fn lemma_ratio_accuracy(num: nat, den: nat)
    requires
        0 < num <= den < 0x100_0000_0000,
    ensures
        87 <= exponent_field(ratio_pattern(num, den)) <= 127,
        -(den as int) <= 2 * (significand(ratio_pattern(num, den)) * den - num * pow2(
            (150 - exponent_field(ratio_pattern(num, den))) as nat,
        )) <= den,
{
    let k = doublings(num, den);
    let scaled = doubled(num, den);
    let n = scaled * 0x80_0000;
    let m = round_half_even(n, den);
    let b = ratio_pattern(num, den);
    lemma_ratio_range(num, den);
    lemma_doubled_bounds(num, den);
    lemma_significand_bounds(scaled, den);
    lemma_round_half_even_error(n, den);
    lemma2_to64();
    if m < 0x100_0000 {
        assert(b == (127 - k) * 0x80_0000 + (m - 0x80_0000)) by (nonlinear_arith)
            requires
                b == (126 - k) * 0x80_0000 + m,
        ;
        assert(b / 0x80_0000 == 127 - k && b % 0x80_0000 == m - 0x80_0000) by (nonlinear_arith)
            requires
                b == (127 - k) * 0x80_0000 + (m - 0x80_0000),
                0 <= m - 0x80_0000 < 0x80_0000,
        ;
        vstd::arithmetic::power2::lemma_pow2_adds(k, 23);
        assert(num * pow2(k + 23) == n) by (nonlinear_arith)
            requires
                pow2(k + 23) == pow2(k) * 0x80_0000,
                n == (num * pow2(k)) * 0x80_0000,
        ;
    } else {
        assert(k >= 1);
        assert(b == (128 - k) * 0x80_0000) by (nonlinear_arith)
            requires
                b == (126 - k) * 0x80_0000 + m,
                m == 0x100_0000,
        ;
        assert(b / 0x80_0000 == 128 - k && b % 0x80_0000 == 0) by (nonlinear_arith)
            requires
                b == (128 - k) * 0x80_0000,
        ;
        vstd::arithmetic::power2::lemma_pow2_adds(k, 22);
        let half = num * pow2(k + 22);
        assert(n == 2 * half) by (nonlinear_arith)
            requires
                pow2(k + 22) == pow2(k) * 0x40_0000,
                n == (num * pow2(k)) * 0x80_0000,
                half == num * pow2(k + 22),
        ;
        assert(m * den == 2 * (0x80_0000 * den)) by (nonlinear_arith)
            requires
                m == 0x100_0000,
        ;
    }
}

/// The magnitude that a signed sample is scaled from: its absolute value,
/// with the one value below the symmetric range taken as the lowest in it.
pub open spec fn signed_magnitude(n: i16) -> nat {
    if n == -32768 {
        32767
    } else if n < 0 {
        (-n) as nat
    } else {
        n as nat
    }
}

/// The pattern that a signed 16-bit sample is normalised to: that of
/// `n / 32767`.
pub open spec fn i16_pattern(n: i16) -> u32 {
    let mag = ratio_pattern(signed_magnitude(n), 32767);
    if n < 0 {
        (0x8000_0000 + mag) as u32
    } else {
        mag as u32
    }
}

/// The pattern of `2 * v - 1` rounded once, for the number `v` between 0 and
/// 1 that the pattern `d` denotes. Below `2^-39` the result rounds to -1.
pub open spec fn twice_minus_one_pattern(d: int) -> u32 {
    let e = exponent_field(d);
    if e < 110 {
        0xBF80_0000
    } else {
        let unit = pow2((149 - e) as nat);
        let m = significand(d);
        if m >= unit {
            ratio_pattern((m - unit) as nat, unit) as u32
        } else {
            (0x8000_0000 + ratio_pattern((unit - m) as nat, unit)) as u32
        }
    }
}

/// The pattern that an unsigned 16-bit sample is normalised to: that of
/// `(s / 65535) * 2 - 1`, the quotient rounded before it is doubled.
pub open spec fn u16_pattern(s: u16) -> u32 {
    twice_minus_one_pattern(ratio_pattern(s as nat, 65535))
}

/// What `twice_minus_one_pattern` divides: numerator and denominator meet
/// the conditions of `ratio_pattern`.
pub proof fn lemma_twice_minus_one_operands(d: int)
    requires
        0 <= d <= 0x3F80_0000,
        exponent_field(d) >= 110,
    ensures
        exponent_field(d) <= 127,
        0 < pow2((149 - exponent_field(d)) as nat) < 0x100_0000_0000,
        0 < significand(d) <= 2 * pow2((149 - exponent_field(d)) as nat),
{
    let e = exponent_field(d);
    let unit = pow2((149 - e) as nat);
    lemma2_to64();
    lemma2_to64_rest();
    lemma_pow2_pos((149 - e) as nat);
    lemma_pow2_strictly_increases((149 - e) as nat, 40);
    if e == 127 {
        assert(d == 0x3F80_0000);
    } else {
        if e < 126 {
            lemma_pow2_strictly_increases(23, (149 - e) as nat);
        }
    }
}

/// The normalised pattern of every unsigned sample lies in the unit range.
pub proof fn lemma_twice_minus_one_range(d: int)
    requires
        0 <= d <= 0x3F80_0000,
    ensures
        in_unit_range(twice_minus_one_pattern(d)),
{
    let e = exponent_field(d);
    if e >= 110 {
        lemma_twice_minus_one_operands(d);
        let unit = pow2((149 - e) as nat);
        let m = significand(d);
        if m > unit {
            lemma_ratio_range((m - unit) as nat, unit);
        } else if m < unit {
            lemma_ratio_range((unit - m) as nat, unit);
        }
    }
}

/// Every signed sample is normalised into the unit range, with its sign kept.
pub proof fn lemma_i16_pattern_range(n: i16)
    ensures
        in_unit_range(i16_pattern(n)),
        n < 0 <==> i16_pattern(n) >= 0x8000_0000,
        n == 0 <==> i16_pattern(n) == 0,
{
    if n != 0 {
        lemma_ratio_range(signed_magnitude(n), 32767);
    }
}

/// Every unsigned sample is normalised into the unit range.
pub proof fn lemma_u16_pattern_range(s: u16)
    ensures
        in_unit_range(u16_pattern(s)),
{
    if s != 0 {
        lemma_ratio_range(s as nat, 65535);
    }
    lemma_twice_minus_one_range(ratio_pattern(s as nat, 65535));
}

/// An unsigned sample keeps the side of its midpoint: the samples from 32768
/// up are normalised to numbers that are not negative, those below to
/// negative ones.
pub proof fn lemma_u16_pattern_sign(s: u16)
    ensures
        s >= 32768 <==> u16_pattern(s) < 0x8000_0000,
{
    let d = ratio_pattern(s as nat, 65535);
    let e = exponent_field(d);
    lemma2_to64();
    if s == 0 {
    } else if s == 65535 {
        lemma_zero_and_full_scale();
    } else {
        lemma_ratio_range(s as nat, 65535);
        lemma_twice_minus_one_range(d);
        let k = doublings(s as nat, 65535);
        let scaled = doubled(s as nat, 65535);
        let m = round_half_even(scaled * 0x80_0000, 65535);
        lemma_doubled_bounds(s as nat, 65535);
        lemma_significand_bounds(scaled, 65535);
        if s >= 32768 {
            assert(doublings((2 * s) as nat, 65535) == 0);
            assert(k == 1);
            assert(126 * 0x80_0000 <= d <= 127 * 0x80_0000);
            if e == 126 {
                assert(pow2(23) == 0x80_0000);
                assert(significand(d) >= pow2((149 - e) as nat));
                lemma_twice_minus_one_operands(d);
                if significand(d) > pow2(23) {
                    lemma_ratio_range((significand(d) - pow2(23)) as nat, pow2(23));
                }
            } else {
                assert(d == 0x3F80_0000);
                lemma_zero_and_full_scale();
            }
        } else {
            assert(doublings((2 * s) as nat, 65535) == 1 + doublings((4 * s) as nat, 65535));
            assert(k >= 2);
            if k == 2 {
                assert(doublings((4 * s) as nat, 65535) == 0);
                assert(doubled((2 * s) as nat, 65535) == doubled((4 * s) as nat, 65535));
                assert(scaled == 4 * s);
                assert(scaled * 0x80_0000 <= 131068 * 0x80_0000);
                assert(m < 0x100_0000);
            }
            assert(d < 126 * 0x80_0000) by (nonlinear_arith)
                requires
                    d == (126 - k) * 0x80_0000 + m,
                    k >= 2,
                    m <= 0x100_0000,
                    k == 2 ==> m < 0x100_0000,
            ;
            assert(e <= 125);
            if e >= 110 {
                lemma_twice_minus_one_operands(d);
                if e < 125 {
                    lemma_pow2_strictly_increases(24, (149 - e) as nat);
                }
                let unit = pow2((149 - e) as nat);
                assert(significand(d) < 0x100_0000 <= unit);
                lemma_ratio_range((unit - significand(d)) as nat, unit);
            }
        }
    }
}

/// Silence and full scale: a zero maps to 0.0 in the signed and the binary32
/// encoding and to -1.0, the bottom of the range, in the unsigned one; the
/// largest value of each integer encoding maps to 1.0, and the two lowest
/// signed values to -1.0.
pub proof fn lemma_zero_and_full_scale()
    ensures
        clamp_to_unit(0) == 0,
        i16_pattern(0) == 0,
        u16_pattern(0) == 0xBF80_0000,
        i16_pattern(32767) == 0x3F80_0000,
        i16_pattern((-32767) as i16) == 0xBF80_0000,
        i16_pattern((-32768) as i16) == 0xBF80_0000,
        u16_pattern(65535) == 0x3F80_0000,
{
    lemma_ratio_range(32767, 32767);
    lemma_ratio_range(65535, 65535);
    lemma2_to64();
    assert(exponent_field(0x3F80_0000) == 127);
    assert(significand(0x3F80_0000) == 0x80_0000);
    lemma_ratio_range(0x40_0000, 0x40_0000);
}

fn pow2_u64(e: u32) -> (r: u64)
    requires
        e <= 39,
    ensures
        r == pow2(e as nat),
        0 < r < 0x100_0000_0000,
{
    let mut r: u64 = 1;
    let mut i: u32 = 0;
    proof {
        lemma2_to64();
        lemma2_to64_rest();
    }
    while i < e
        invariant
            i <= e <= 39,
            r == pow2(i as nat),
            0 < r,
            i < 39 ==> r < 0x80_0000_0000,
            r < 0x100_0000_0000,
        decreases e - i,
    {
        proof {
            lemma_pow2_unfold((i + 1) as nat);
            lemma2_to64_rest();
            if i + 1 < 39 {
                lemma_pow2_strictly_increases((i + 1) as nat, 39);
            }
            lemma_pow2_strictly_increases(i as nat, 39);
        }
        r = 2 * r;
        i = i + 1;
    }
    r
}

/// Normalises a signed 16-bit sample.
pub fn normalize_i16(n: i16) -> (s: Sample)
    ensures
        s.bits() == i16_pattern(n),
{
    let mag: u64 = if n == -32768 {
        32767
    } else if n < 0 {
        (-n) as u64
    } else {
        n as u64
    };
    let bits: u32 = ratio_bits(mag, 32767);
    let signed: u32 = if n < 0 {
        SIGN_BIT + bits
    } else {
        bits
    };
    Sample::from_unit_bits(signed)
}

/// Normalises an unsigned 16-bit sample.
pub fn normalize_u16(s: u16) -> (r: Sample)
    ensures
        r.bits() == u16_pattern(s),
{
    let d: u32 = ratio_bits(s as u64, 65535);
    let e: u32 = d / 0x80_0000;
    let signed: u32 = if e < 110 {
        MINUS_ONE_BITS
    } else {
        proof {
            lemma_twice_minus_one_operands(d as int);
        }
        let unit: u64 = pow2_u64(149 - e);
        let m: u64 = 0x80_0000 + (d % 0x80_0000) as u64;
        if m >= unit {
            ratio_bits(m - unit, unit)
        } else {
            SIGN_BIT + ratio_bits(unit - m, unit)
        }
    };
    Sample::from_unit_bits(signed)
}

/// Normalises a binary32 sample given by its pattern: a number in the unit
/// range stays as it is, one outside it goes to the nearer end, a NaN to 0.
pub fn normalize_f32(bits: u32) -> (s: Sample)
    ensures
        s.bits() == clamp_to_unit(bits),
{
    Sample::clamped(bits)
}

/// One block of samples as a device delivers it, in the device's encoding.
/// Binary32 samples are given by their patterns.
#[derive(Debug, PartialEq, Eq)]
pub enum NativeBlock {
    Float(Vec<u32>),
    Signed(Vec<i16>),
    Unsigned(Vec<u16>),
}

impl NativeBlock {
    /// The number of samples in the block.
    pub open spec fn count(&self) -> nat {
        match self {
            NativeBlock::Float(v) => v@.len(),
            NativeBlock::Signed(v) => v@.len(),
            NativeBlock::Unsigned(v) => v@.len(),
        }
    }

    /// The patterns that the block's samples are normalised to, in order.
    pub open spec fn normalized(&self) -> Seq<u32> {
        match self {
            NativeBlock::Float(v) => Seq::new(v@.len(), |i: int| clamp_to_unit(v@[i])),
            NativeBlock::Signed(v) => Seq::new(v@.len(), |i: int| i16_pattern(v@[i])),
            NativeBlock::Unsigned(v) => Seq::new(v@.len(), |i: int| u16_pattern(v@[i])),
        }
    }

    /// Every sample of every block is normalised into the unit range, and
    /// there is one for each sample of the block.
    pub proof fn lemma_normalized_in_unit_range(&self)
        ensures
            self.normalized().len() == self.count(),
            forall|i: int|
                0 <= i < self.count() ==> in_unit_range(#[trigger] self.normalized()[i]),
    {
        assert forall|i: int| 0 <= i < self.count() implies in_unit_range(
            #[trigger] self.normalized()[i],
        ) by {
            match self {
                NativeBlock::Float(v) => {},
                NativeBlock::Signed(v) => {
                    lemma_i16_pattern_range(v@[i]);
                },
                NativeBlock::Unsigned(v) => {
                    lemma_u16_pattern_range(v@[i]);
                },
            }
        }
    }
}

/// Normalises a block, sample by sample and in order.
pub fn normalize_block(block: &NativeBlock) -> (out: Vec<Sample>)
    ensures
        patterns(out@) == block.normalized(),
        forall|i: int| 0 <= i < out@.len() ==> in_unit_range(#[trigger] out@[i].bits()),
{
    let mut out: Vec<Sample> = Vec::new();
    let mut i: usize = 0;
    match block {
        NativeBlock::Float(v) => {
            while i < v.len()
                invariant
                    i <= v@.len(),
                    out@.len() == i,
                    forall|j: int| 0 <= j < i ==> #[trigger] out@[j].bits() == clamp_to_unit(v@[j]),
                decreases v@.len() - i,
            {
                out.push(normalize_f32(v[i]));
                i = i + 1;
            }
        },
        NativeBlock::Signed(v) => {
            while i < v.len()
                invariant
                    i <= v@.len(),
                    out@.len() == i,
                    forall|j: int| 0 <= j < i ==> #[trigger] out@[j].bits() == i16_pattern(v@[j]),
                decreases v@.len() - i,
            {
                out.push(normalize_i16(v[i]));
                i = i + 1;
            }
        },
        NativeBlock::Unsigned(v) => {
            while i < v.len()
                invariant
                    i <= v@.len(),
                    out@.len() == i,
                    forall|j: int| 0 <= j < i ==> #[trigger] out@[j].bits() == u16_pattern(v@[j]),
                decreases v@.len() - i,
            {
                out.push(normalize_u16(v[i]));
                i = i + 1;
            }
        },
    }
    proof {
        assert(patterns(out@) =~= block.normalized());
        block.lemma_normalized_in_unit_range();
        assert forall|i: int| 0 <= i < out@.len() implies in_unit_range(
            #[trigger] out@[i].bits(),
        ) by {
            assert(out@[i].bits() == block.normalized()[i]);
        }
    }
    out
}

} // verus!
