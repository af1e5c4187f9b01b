//! Half-precision and brain floating-point numbers as bit patterns.

use vstd::prelude::*;

verus! {

/// A brain floating-point number as a single-precision one.
pub fn bf16_to_f32(value: u16) -> (r: u32)
    ensures
        r == value * 0x10000,
{
    (value as u32) * 0x10000
}

/// A single-precision number as a brain floating-point one, rounded to the nearest, ties up in
/// magnitude.
pub fn f32_to_bf16(value: u32) -> (r: u16)
    requires
        value <= 0xFFFF7FFF,
    ensures
        r == (value + 0x8000) / 0x10000,
{
    ((value + 0x8000) / 0x10000) as u16
}

/// Two to the power of `n`.
pub open spec fn pow2(n: nat) -> nat
    decreases n,
{
    if n == 0 {
        1
    } else {
        2 * pow2((n - 1) as nat)
    }
}

/// `m` divided by `d`, rounded to the nearest whole number, ties to an even one.
pub open spec fn round_even(m: int, d: int) -> int {
    let q = m / d;
    let r = m % d;
    if 2 * r > d || (2 * r == d && q % 2 == 1) {
        q + 1
    } else {
        q
    }
}

/// The half-precision magnitude nearest to a single-precision one: too large a number becomes
/// infinity, and what is no number stays none.
pub open spec fn half_magnitude(m: int) -> int {
    if m > 0x7F800000 {
        let top = (m - 0x7F800000) / 0x2000;
        0x7C00 + (if top == 0 {
            0x200
        } else {
            top
        })
    } else if m >= 0x47800000 {
        0x7C00
    } else if m >= 0x38800000 {
        round_even(m - 0x38000000, 0x2000)
    } else if m >= 0x33000000 {
        // Below the normal range a unit is 2^-24; the number is its mantissa shifted right.
        let e = m / 0x800000;
        let mant = m % 0x800000 + 0x800000;
        round_even(mant, pow2((126 - e) as nat) as int)
    } else {
        0
    }
}

/// The half-precision number nearest to a single-precision one, ties to even.
pub open spec fn to_half(bits: u32) -> int {
    let sign = bits / 0x80000000;
    sign * 0x8000 + half_magnitude((bits % 0x80000000) as int)
}

fn round_by(m: u32, d: u32) -> (r: u32)
    requires
        0 < d <= 0x80000000,
        m <= 0x7FFFFFFF,
    ensures
        r == round_even(m as int, d as int),
{
    let q: u32 = m / d;
    let r: u32 = m % d;
    if r > d - r || (r == d - r && q % 2 == 1) {
        q + 1
    } else {
        q
    }
}

fn pow2_of(n: u32) -> (r: u32)
    requires
        n <= 31,
    ensures
        r == pow2(n as nat),
        0 < r <= 0x80000000,
{
    let mut p: u32 = 1;
    let mut i: u32 = 0;
    while i < n
        invariant
            i <= n <= 31,
            p == pow2(i as nat),
            0 < p <= 0x80000000,
        decreases n - i,
    {
        proof {
            lemma_pow2_bound((i + 1) as nat);
        }
        p = p * 2;
        i += 1;
    }
    p
}

proof fn lemma_pow2_le(a: nat, b: nat)
    requires
        a <= b,
    ensures
        pow2(a) <= pow2(b),
        pow2(a) >= 1,
    decreases b,
{
    if a < b {
        lemma_pow2_le(a, (b - 1) as nat);
    } else if a > 0 {
        lemma_pow2_le((a - 1) as nat, (a - 1) as nat);
    }
}

proof fn lemma_pow2_bound(a: nat)
    requires
        a <= 31,
    ensures
        pow2(a) <= 0x80000000,
        pow2(a) >= 1,
{
    reveal_with_fuel(pow2, 32);
    lemma_pow2_le(a, 31);
}

/// The half-precision number nearest to a single-precision one, ties to even.
pub fn f32_to_f16(value: u32) -> (r: u16)
    ensures
        r == to_half(value),
{
    let sign: u32 = value / 0x80000000;
    let m: u32 = value % 0x80000000;
    let h: u32 = if m > 0x7F800000 {
        let top: u32 = (m - 0x7F800000) / 0x2000;
        if top == 0 {
            0x7E00
        } else {
            0x7C00 + top
        }
    } else if m >= 0x47800000 {
        0x7C00
    } else if m >= 0x38800000 {
        round_by(m - 0x38000000, 0x2000)
    } else if m >= 0x33000000 {
        let e: u32 = m / 0x800000;
        let mant: u32 = m % 0x800000 + 0x800000;
        let d: u32 = pow2_of(126 - e);
        round_by(mant, d)
    } else {
        0
    };
    proof {
        lemma_half_small(m as int);
    }
    (sign * 0x8000 + h) as u16
}

/// A half-precision magnitude fits in fifteen bits.
proof fn lemma_half_small(m: int)
    requires
        0 <= m < 0x80000000,
    ensures
        0 <= half_magnitude(m) < 0x8000,
{
    if 0x33000000 <= m < 0x38800000 {
        let e = m / 0x800000;
        let mant = m % 0x800000 + 0x800000;
        assert(14 <= 126 - e <= 24);
        reveal_with_fuel(pow2, 32);
        lemma_pow2_le(14, (126 - e) as nat);
        let d = pow2((126 - e) as nat) as int;
        assert(pow2(14) == 0x4000);
        assert(mant / d <= mant / 0x4000) by (nonlinear_arith)
            requires
                d >= 0x4000,
                0 <= mant,
        ;
        assert(mant / d >= 0) by (nonlinear_arith)
            requires
                d > 0,
                0 <= mant,
        ;
    }
}

/// The place of the highest bit of a number below 1024.
pub open spec fn high_bit(m: int) -> int
    decreases m,
{
    if m <= 1 {
        0
    } else {
        1 + high_bit(m / 2)
    }
}

/// A half-precision number as a single-precision one: exact, and what is no number becomes the
/// usual one.
pub open spec fn from_half(h: u16) -> int {
    let sign = h / 0x8000;
    let m = h % 0x8000;
    let e = m / 0x400;
    let mant = m % 0x400;
    if e == 31 && mant > 0 {
        0x7FC00000
    } else if e == 31 {
        sign * 0x80000000 + 0x7F800000
    } else if e > 0 {
        sign * 0x80000000 + (m * 0x2000 + 0x38000000)
    } else if mant == 0 {
        sign * 0x80000000
    } else {
        let p = high_bit(mant as int);
        sign * 0x80000000 + (p + 103) * 0x800000 + (mant - pow2(p as nat)) * pow2((23 - p) as nat)
    }
}

fn high_bit_of(m: u32) -> (r: u32)
    requires
        0 < m < 1024,
    ensures
        r == high_bit(m as int),
        r <= 9,
        pow2(r as nat) <= m < 2 * pow2(r as nat),
    decreases m,
{
    if m <= 1 {
        0
    } else {
        proof {
            lemma_high_bit_small(m as int / 2);
        }
        1 + high_bit_of(m / 2)
    }
}

proof fn lemma_high_bit_small(m: int)
    requires
        0 <= m < 512,
    ensures
        high_bit(m) <= 8,
{
    reveal_with_fuel(high_bit, 10);
}

/// A half-precision number as a single-precision one.
pub fn f16_to_f32(value: u16) -> (r: u32)
    ensures
        r == from_half(value),
{
    let sign: u32 = (value / 0x8000) as u32;
    let m: u32 = (value % 0x8000) as u32;
    let e: u32 = m / 0x400;
    let mant: u32 = m % 0x400;
    if e == 31 {
        if mant > 0 {
            0x7FC00000
        } else {
            sign * 0x80000000 + 0x7F800000
        }
    } else if e > 0 {
        sign * 0x80000000 + (m * 0x2000 + 0x38000000)
    } else if mant == 0 {
        sign * 0x80000000
    } else {
        let p: u32 = high_bit_of(mant);
        let low: u32 = pow2_of(p);
        let unit: u32 = pow2_of(23 - p);
        proof {
            lemma_pow2_mul(p as nat, (23 - p) as nat);
            assert((mant - low) * unit <= low * unit) by (nonlinear_arith)
                requires
                    0 <= mant - low <= low,
                    unit >= 0,
            ;
            reveal_with_fuel(pow2, 24);
        }
        sign * 0x80000000 + (p + 103) * 0x800000 + (mant - low) * unit
    }
}

proof fn lemma_pow2_mul(a: nat, b: nat)
    ensures
        pow2(a) * pow2(b) == pow2(a + b),
    decreases a,
{
    if a > 0 {
        lemma_pow2_mul((a - 1) as nat, b);
        assert(2 * pow2((a - 1) as nat) * pow2(b) == 2 * (pow2((a - 1) as nat) * pow2(b)))
            by (nonlinear_arith);
    } else {
        assert(pow2(0) == 1);
        assert(1 * pow2(b) == pow2(b)) by (nonlinear_arith);
    }
}

/// Going to single precision and back gives every half-precision number that is one.
pub proof fn lemma_half_round_trip(h: u16)
    requires
        !(h % 0x8000 > 0x7C00),
    ensures
        0 <= from_half(h) <= u32::MAX,
        to_half(from_half(h) as u32) == h,
{
    let sign = (h / 0x8000) as int;
    let m = (h % 0x8000) as int;
    let e = m / 0x400;
    let mant = m % 0x400;
    if e == 0 && mant > 0 {
        lemma_high_bit(mant);
        let p = high_bit(mant);
        let low = pow2(p as nat) as int;
        let unit = pow2((23 - p) as nat) as int;
        lemma_pow2_mul(p as nat, (23 - p) as nat);
        reveal_with_fuel(pow2, 24);
        assert(low * unit == 0x800000);
        let part = (mant - low) * unit;
        assert(0 <= part < 0x800000) by (nonlinear_arith)
            requires
                part == (mant - low) * unit,
                low * unit == 0x800000,
                0 <= mant - low < low,
                unit > 0,
        ;
        let bits = (p + 103) * 0x800000 + part;
        assert(bits / 0x800000 == p + 103 && bits % 0x800000 == part);
        assert(part + 0x800000 == mant * unit) by (nonlinear_arith)
            requires
                part == (mant - low) * unit,
                low * unit == 0x800000,
        ;
        assert(126 - (p + 103) == 23 - p);
        assert((mant * unit) / unit == mant && (mant * unit) % unit == 0) by (nonlinear_arith)
            requires
                unit > 0,
        ;
        assert(half_magnitude(bits) == mant);
    }
}

proof fn lemma_high_bit(m: int)
    requires
        0 < m < 1024,
    ensures
        0 <= high_bit(m) <= 9,
        pow2(high_bit(m) as nat) <= m < 2 * pow2(high_bit(m) as nat),
    decreases m,
{
    if m > 1 {
        lemma_high_bit(m / 2);
        lemma_high_bit_small(m / 2);
    }
}

} // verus!
