//! Single precision numbers by their bits: a sign, and a size.
//!
//! Sizes are in order: the larger number has the larger bits. Above all numbers is infinity, and
//! above infinity is what is not a number.

use vstd::arithmetic::power2::{
    lemma2_to64, lemma_pow2_adds, lemma_pow2_pos, lemma_pow2_strictly_increases, lemma_pow2_unfold,
    pow2,
};
use vstd::prelude::*;

use crate::binary::{
    excess, excess_bounds, excess_is, nearest, round, rounding_gives_the_nearest,
    rounding_stays_above, rounding_stays_below, single, Binary, REACH, SINGLE_DIGITS,
};
use crate::natural::Natural;

verus! {

/// The bit that says a number is negative.
pub const SIGN: u32 = 0x8000_0000;

/// The size of infinity.
pub const INFINITE: u32 = 0x7f80_0000;

/// The bits of what is not a number.
pub const NOT_A_NUMBER: u32 = 0x7fc0_0000;

/// How much larger the bits of a size are at twice the size.
pub const OCTAVE: u32 = 0x80_0000;

pub open spec fn is_negative(bits: u32) -> bool {
    bits >= SIGN
}

/// The bits without their sign.
pub open spec fn magnitude(bits: u32) -> u32 {
    if is_negative(bits) {
        (bits - SIGN) as u32
    } else {
        bits
    }
}

pub open spec fn signed(negative: bool, size: u32) -> u32 {
    if negative {
        (size + SIGN) as u32
    } else {
        size
    }
}

/// The size that bits stand for, in steps.
pub open spec fn steps_of(size: u32) -> nat {
    if size < 2 * OCTAVE {
        size as nat
    } else {
        ((size % OCTAVE) + OCTAVE) as nat * pow2((size / OCTAVE - 1) as nat)
    }
}

/// The bits of a size of so many steps, where single precision has it; infinity where it is too
/// large.
pub open spec fn bits_of(steps: nat) -> u32 {
    let e = excess(steps, SINGLE_DIGITS as nat);
    let bits = e * OCTAVE + steps / pow2(e);
    if bits >= INFINITE {
        INFINITE
    } else {
        bits as u32
    }
}

/// The sum of two numbers.
pub open spec fn sum(a: u32, b: u32) -> u32 {
    let (x, y) = (magnitude(a), magnitude(b));
    if x > INFINITE || y > INFINITE || (x == INFINITE && y == INFINITE && is_negative(a)
        != is_negative(b)) {
        NOT_A_NUMBER
    } else if x == INFINITE {
        a
    } else if y == INFINITE {
        b
    } else if is_negative(a) == is_negative(b) {
        signed(is_negative(a), bits_of(single(steps_of(x) + steps_of(y), 1)))
    } else if steps_of(x) > steps_of(y) {
        signed(is_negative(a), bits_of(single((steps_of(x) - steps_of(y)) as nat, 1)))
    } else if steps_of(x) < steps_of(y) {
        signed(is_negative(b), bits_of(single((steps_of(y) - steps_of(x)) as nat, 1)))
    } else {
        0
    }
}

/// A number in `k` parts.
pub open spec fn share(a: u32, k: u32) -> u32 {
    let x = magnitude(a);
    if x > INFINITE {
        NOT_A_NUMBER
    } else if x == INFINITE {
        a
    } else {
        signed(is_negative(a), bits_of(single(steps_of(x), k as nat)))
    }
}

/// The number with the other sign.
pub open spec fn negated(a: u32) -> u32 {
    signed(!is_negative(a), magnitude(a))
}

/// Bits are a significand and how often it is doubled, side by side.
proof fn bits_are(m: nat, e: nat)
    requires
        m <= 2 * OCTAVE,
        e > 0 ==> m >= OCTAVE,
    ensures
        bits_of(m * pow2(e)) == if e * OCTAVE + m >= INFINITE {
            INFINITE
        } else {
            (e * OCTAVE + m) as u32
        },
{
    let steps = m * pow2(e);
    let p = pow2(e) as int;
    lemma_pow2_pos(e);
    lemma2_to64();
    lemma_pow2_adds(24, e);
    if m == 2 * OCTAVE {
        lemma_pow2_adds(1, e);
        lemma_pow2_adds(23, e + 1);
        lemma_pow2_adds(24, e + 1);
        let twice = pow2(e + 1) as int;
        lemma_pow2_pos(e + 1);
        assert(steps == OCTAVE * twice) by (nonlinear_arith)
            requires
                steps == m * p,
                m == 2 * OCTAVE,
                twice == 2 * p,
        ;
        assert((24 + (e + 1) - 1) as nat == 23 + (e + 1));
        assert(1 + e == e + 1);
        excess_is(steps, 24, e + 1);
        vstd::arithmetic::div_mod::lemma_div_multiples_vanish(OCTAVE as int, twice);
        assert(OCTAVE * twice == twice * OCTAVE) by (nonlinear_arith);
    } else {
        assert(steps < 0x100_0000 * p) by (nonlinear_arith)
            requires
                steps == m * p,
                m < 0x100_0000,
                p > 0,
        ;
        if e > 0 {
            lemma_pow2_adds(23, e);
            assert((24 + e - 1) as nat == 23 + e);
            assert(steps >= 0x80_0000 * p) by (nonlinear_arith)
                requires
                    steps == m * p,
                    m >= 0x80_0000,
                    p > 0,
            ;
        }
        excess_is(steps, 24, e);
        vstd::arithmetic::div_mod::lemma_div_multiples_vanish(m as int, p);
        assert(m * p == p * m) by (nonlinear_arith);
    }
}

/// The larger number has the larger bits.
pub proof fn sizes_are_in_order(a: u32, b: u32)
    requires
        a < b,
    ensures
        steps_of(a) < steps_of(b),
{
    lemma2_to64();
    let (f, g) = (a / OCTAVE, b / OCTAVE);
    if b >= 2 * OCTAVE {
        let m = ((b % OCTAVE) + OCTAVE) as int;
        let y = pow2((g - 1) as nat) as int;
        lemma_pow2_pos((g - 1) as nat);
        if a < 2 * OCTAVE {
            if g > 2 {
                lemma_pow2_strictly_increases(1, (g - 1) as nat);
            }
            assert(m * y >= OCTAVE * 2) by (nonlinear_arith)
                requires
                    m >= OCTAVE,
                    y >= 2,
            ;
        } else {
            let n = ((a % OCTAVE) + OCTAVE) as int;
            let x = pow2((f - 1) as nat) as int;
            lemma_pow2_pos((f - 1) as nat);
            if f == g {
                assert(n * x < m * x) by (nonlinear_arith)
                    requires
                        n < m,
                        x > 0,
                ;
            } else {
                lemma_pow2_unfold(f as nat);
                if f < g - 1 {
                    lemma_pow2_strictly_increases(f as nat, (g - 1) as nat);
                }
                assert(n * x < OCTAVE * (2 * x)) by (nonlinear_arith)
                    requires
                        n < 2 * OCTAVE,
                        x > 0,
                ;
                assert(OCTAVE * (2 * x) <= m * y) by (nonlinear_arith)
                    requires
                        2 * x <= y,
                        OCTAVE <= m,
                        x > 0,
                ;
            }
        }
    }
}

/// Bits that stand for a number are the bits of that number.
pub proof fn bits_come_back(size: u32)
    requires
        size <= INFINITE,
    ensures
        bits_of(steps_of(size)) == size,
{
    lemma2_to64();
    if size < 2 * OCTAVE {
        bits_are(size as nat, 0);
        assert(size as nat * 1 == size);
    } else {
        let e = (size / OCTAVE - 1) as nat;
        bits_are(((size % OCTAVE) + OCTAVE) as nat, e);
        assert(e * OCTAVE + (size % OCTAVE) + OCTAVE == size);
    }
}

/// A size too large for single precision is infinite.
pub proof fn huge_is_infinite(steps: nat)
    requires
        steps >= pow2(300),
    ensures
        bits_of(steps) == INFINITE,
{
    let e = excess(steps, SINGLE_DIGITS as nat);
    excess_bounds(steps, SINGLE_DIGITS as nat);
    if SINGLE_DIGITS + e < 300 {
        lemma_pow2_strictly_increases(SINGLE_DIGITS as nat + e, 300);
    }
    assert(e >= 256);
    lemma_pow2_pos(e);
    assert(steps / pow2(e) >= 0) by {
        vstd::arithmetic::div_mod::lemma_div_pos_is_pos(steps as int, pow2(e) as int);
    }
}

/// The size that bits stand for.
pub fn size_of_bits(size: u32) -> (b: Binary)
    requires
        size <= INFINITE,
    ensures
        b@ == steps_of(size),
        b@ <= pow2(300),
{
    proof {
        lemma2_to64();
        let e = if size < 2 * OCTAVE {
            0
        } else {
            (size / OCTAVE - 1) as nat
        };
        lemma_pow2_adds(24, e);
        lemma_pow2_pos(e);
        lemma_pow2_strictly_increases(24 + e, 300);
        let p = pow2(e) as int;
        let m = ((size % OCTAVE) + OCTAVE) as int;
        assert(m * p <= 0x100_0000 * p) by (nonlinear_arith)
            requires
                m <= 0x100_0000,
                p > 0,
        ;
        assert(size as nat * 1 == size);
    }
    if size < 2 * OCTAVE {
        Binary { significand: size as u128, exponent: 0 }
    } else {
        Binary { significand: (size % OCTAVE + OCTAVE) as u128, exponent: size / OCTAVE - 1 }
    }
}

/// The bits of a size that single precision arithmetic gave.
pub fn bits_of_size(b: &Binary) -> (bits: u32)
    requires
        b.shaped(SINGLE_DIGITS),
    ensures
        bits == bits_of(b@),
        bits <= INFINITE,
{
    proof {
        lemma2_to64();
        bits_are(b.significand as nat, b.exponent as nat);
    }
    let bits: u128 = b.exponent as u128 * OCTAVE as u128 + b.significand;
    if bits >= INFINITE as u128 {
        INFINITE
    } else {
        bits as u32
    }
}

/// The bits of `num / den` steps.
pub fn single_bits(num: &Natural, den: &Natural) -> (bits: u32)
    requires
        den@ > 0,
        num@ < den@ * pow2(REACH as nat),
    ensures
        bits == bits_of(single(num@, den@)),
        bits <= INFINITE,
{
    bits_of_size(&round(num, den, SINGLE_DIGITS))
}

fn negative(bits: u32) -> (r: bool)
    ensures
        r == is_negative(bits),
{
    bits >= SIGN
}

/// The bits without their sign.
pub fn unsigned(bits: u32) -> (r: u32)
    ensures
        r == magnitude(bits),
{
    if bits >= SIGN {
        bits - SIGN
    } else {
        bits
    }
}

/// A size with a sign.
pub fn with_sign(below: bool, size: u32) -> (r: u32)
    requires
        size < SIGN,
    ensures
        r == signed(below, size),
{
    if below {
        size + SIGN
    } else {
        size
    }
}

proof fn small_sums_are_in_reach(n: nat, k: nat)
    requires
        n <= pow2(301),
        k > 0,
    ensures
        n < k * pow2(REACH as nat),
{
    lemma_pow2_strictly_increases(301, REACH as nat);
    let p = pow2(REACH as nat);
    assert(p <= k * p) by (nonlinear_arith)
        requires
            k >= 1,
    ;
}

/// The sum of two numbers.
pub fn plus(a: u32, b: u32) -> (r: u32)
    ensures
        r == sum(a, b),
{
    let x: u32 = unsigned(a);
    let y: u32 = unsigned(b);
    if x > INFINITE || y > INFINITE || (x == INFINITE && y == INFINITE && negative(a) != negative(
        b,
    )) {
        return NOT_A_NUMBER;
    }
    if x == INFINITE {
        return a;
    }
    if y == INFINITE {
        return b;
    }
    let first = size_of_bits(x).steps();
    let second = size_of_bits(y).steps();
    let one = Natural::from_whole(1);
    proof {
        lemma2_to64();
        lemma_pow2_adds(1, 300);
    }
    if negative(a) == negative(b) {
        proof {
            small_sums_are_in_reach(first@ + second@, 1);
        }
        return with_sign(negative(a), single_bits(&first.plus(&second), &one));
    }
    match first.minus(&second) {
        Some(left) => {
            proof {
                small_sums_are_in_reach(left@, 1);
            }
            let bits: u32 = single_bits(&left, &one);
            if second.minus(&first).is_some() {
                0
            } else {
                with_sign(negative(a), bits)
            }
        },
        None => match second.minus(&first) {
            Some(left) => {
                proof {
                    small_sums_are_in_reach(left@, 1);
                }
                with_sign(negative(b), single_bits(&left, &one))
            },
            None => 0,
        },
    }
}

/// A number in `k` parts.
pub fn divided(a: u32, k: u32) -> (r: u32)
    requires
        k > 0,
    ensures
        r == share(a, k),
{
    let x: u32 = unsigned(a);
    if x > INFINITE {
        return NOT_A_NUMBER;
    }
    if x == INFINITE {
        return a;
    }
    let size = size_of_bits(x);
    proof {
        lemma_pow2_strictly_increases(300, 301);
        small_sums_are_in_reach(size@, k as nat);
    }
    with_sign(negative(a), single_bits(&size.steps(), &Natural::from_whole(k as u128)))
}

/// The number with the other sign.
pub fn opposite(a: u32) -> (r: u32)
    ensures
        r == negated(a),
{
    with_sign(!negative(a), unsigned(a))
}

/// Bits of a significand and how often it is doubled stand for that number.
proof fn bits_stand_for(m: nat, e: nat)
    requires
        m <= 2 * OCTAVE,
        e > 0 ==> m >= OCTAVE,
        bits_of(m * pow2(e)) < INFINITE,
    ensures
        steps_of(bits_of(m * pow2(e))) == m * pow2(e),
{
    bits_are(m, e);
    lemma2_to64();
    let size = bits_of(m * pow2(e));
    assert(size == e * OCTAVE + m);
    if m == 2 * OCTAVE {
        lemma_pow2_adds(1, e);
        assert(1 + e == e + 1);
        assert(size / OCTAVE == e + 2);
        assert(size % OCTAVE == 0);
        let p = pow2(e) as int;
        assert(OCTAVE * (2 * p) == (2 * OCTAVE) * p) by (nonlinear_arith);
    } else if m >= OCTAVE && e > 0 {
        assert(size / OCTAVE == e + 1);
        assert(size % OCTAVE == m - OCTAVE);
    } else {
        assert(e == 0);
        assert(m * 1 == m);
    }
}

/// What single precision arithmetic gives is what its bits stand for, unless it is too large.
pub proof fn rounded_bits_stand_for_the_number(num: nat, den: nat)
    requires
        den > 0,
        bits_of(single(num, den)) < INFINITE,
    ensures
        steps_of(bits_of(single(num, den))) == single(num, den),
{
    let digits = SINGLE_DIGITS as nat;
    let q = num / den;
    let e = excess(q, digits);
    excess_bounds(q, digits);
    let a = pow2(e) as int;
    let m = nearest(num, den * pow2(e));
    lemma_pow2_pos(e);
    lemma2_to64();
    lemma_pow2_adds(24, e);
    let top = pow2(24 + e) as int;
    let d = den as int;
    vstd::arithmetic::div_mod::lemma_fundamental_div_mod(num as int, d);
    vstd::arithmetic::div_mod::lemma_mod_bound(num as int, d);
    assert(num < d * top) by (nonlinear_arith)
        requires
            num == d * q + num as int % d,
            num as int % d < d,
            q < top,
            d > 0,
    ;
    rounding_stays_below(num, den, digits, 24 + e);
    assert(m <= 0x100_0000) by (nonlinear_arith)
        requires
            m * a <= top,
            top == 0x100_0000 * a,
            a > 0,
    ;
    if e > 0 {
        lemma_pow2_adds(23, e);
        let low = pow2(23 + e) as int;
        assert((24 + e - 1) as nat == 23 + e);
        assert(num >= d * low) by (nonlinear_arith)
            requires
                num == d * q + num as int % d,
                num as int % d >= 0,
                q >= low,
                d > 0,
        ;
        rounding_stays_above(num, den, digits, 23 + e);
        assert(m >= 0x80_0000) by (nonlinear_arith)
            requires
                m * a >= low,
                low == 0x80_0000 * a,
                a > 0,
        ;
    }
    bits_stand_for(m, e);
}

/// Any bits below infinity are a significand of so many digits, doubled so often.
proof fn bits_have_few_digits(size: u32) -> (parts: (nat, nat))
    requires
        size < INFINITE,
    ensures
        parts.0 < pow2(SINGLE_DIGITS as nat),
        steps_of(size) == parts.0 * pow2(parts.1),
{
    lemma2_to64();
    if size < 2 * OCTAVE {
        assert(size as nat * 1 == size);
        (size as nat, 0)
    } else {
        (((size % OCTAVE) + OCTAVE) as nat, (size / OCTAVE - 1) as nat)
    }
}

/// A number in parts is as near to that share of it as any number there is.
pub proof fn a_share_is_the_nearest_there_is(a: u32, parts: u32, other: u32)
    requires
        a < INFINITE,
        parts > 0,
        share(a, parts) < INFINITE,
        other < INFINITE,
    ensures
        ({
            let off = steps_of(share(a, parts)) * parts - steps_of(a);
            let other_off = steps_of(other) * parts - steps_of(a);
            (if off >= 0 {
                off
            } else {
                -off
            }) <= (if other_off >= 0 {
                other_off
            } else {
                -other_off
            })
        }),
{
    rounded_bits_stand_for_the_number(steps_of(a), parts as nat);
    let (m, e) = bits_have_few_digits(other);
    rounding_gives_the_nearest(steps_of(a), parts as nat, SINGLE_DIGITS as nat, m, e);
}

/// A sum of two numbers that are not negative is as near to it as any number there is.
pub proof fn a_sum_is_the_nearest_there_is(a: u32, b: u32, other: u32)
    requires
        a < INFINITE,
        b < INFINITE,
        sum(a, b) < INFINITE,
        other < INFINITE,
    ensures
        ({
            let off = steps_of(sum(a, b)) - (steps_of(a) + steps_of(b));
            let other_off = steps_of(other) - (steps_of(a) + steps_of(b));
            (if off >= 0 {
                off
            } else {
                -off
            }) <= (if other_off >= 0 {
                other_off
            } else {
                -other_off
            })
        }),
{
    let total = steps_of(a) + steps_of(b);
    rounded_bits_stand_for_the_number(total, 1);
    let (m, e) = bits_have_few_digits(other);
    rounding_gives_the_nearest(total, 1, SINGLE_DIGITS as nat, m, e);
}

/// Of two numbers from nought to one, the smaller taken from the larger is as near to the
/// difference as any number there is, and nothing where they are the same.
pub proof fn a_difference_is_the_nearest_there_is(a: u32, b: u32, other: u32)
    requires
        b <= a <= 0x3f80_0000,
        other < INFINITE,
    ensures
        sum(a, negated(b)) < INFINITE,
        a == b ==> sum(a, negated(b)) == 0,
        ({
            let off = steps_of(sum(a, negated(b))) - (steps_of(a) - steps_of(b));
            let other_off = steps_of(other) - (steps_of(a) - steps_of(b));
            (if off >= 0 {
                off
            } else {
                -off
            }) <= (if other_off >= 0 {
                other_off
            } else {
                -other_off
            })
        }),
{
    assert(magnitude(negated(b)) == b);
    if b < a {
        sizes_are_in_order(b, a);
        let less = (steps_of(a) - steps_of(b)) as nat;
        full_scale_in_steps();
        if a < 0x3f80_0000 {
            sizes_are_in_order(a, 0x3f80_0000);
        }
        lemma_pow2_strictly_increases(149, 150);
        assert(less < 1 * pow2(150));
        rounding_stays_below(less, 1, SINGLE_DIGITS as nat, 150);
        lemma_pow2_strictly_increases(150, 160);
        what_is_small_is_finite(single(less, 1));
        rounded_bits_stand_for_the_number(less, 1);
        let (m, e) = bits_have_few_digits(other);
        rounding_gives_the_nearest(less, 1, SINGLE_DIGITS as nat, m, e);
    } else {
        assert(steps_of(0) == 0);
    }
}

/// What is within two thousand times full scale is no infinity.
pub proof fn what_is_small_is_finite(steps: nat)
    requires
        steps <= pow2(160),
    ensures
        bits_of(steps) < INFINITE,
{
    let e = excess(steps, SINGLE_DIGITS as nat);
    excess_bounds(steps, SINGLE_DIGITS as nat);
    lemma_pow2_pos(e);
    lemma2_to64();
    lemma_pow2_adds(24, e);
    if e > 137 {
        lemma_pow2_strictly_increases(160, (24 + e - 1) as nat);
    }
    let a = pow2(e) as int;
    vstd::arithmetic::div_mod::lemma_fundamental_div_mod(steps as int, a);
    vstd::arithmetic::div_mod::lemma_mod_bound(steps as int, a);
    let m = steps as int / a;
    assert(m < 0x100_0000) by (nonlinear_arith)
        requires
            steps == a * m + steps as int % a,
            steps as int % a >= 0,
            steps < 0x100_0000 * a,
            a > 0,
    ;
}

/// Full scale is two to the 149 steps.
pub proof fn full_scale_in_steps()
    ensures
        steps_of(0x3f80_0000) == pow2(149),
{
    lemma2_to64();
    lemma_pow2_adds(23, 126);
    assert(0x3f80_0000u32 / OCTAVE == 127 && 0x3f80_0000u32 % OCTAVE == 0);
}

} // verus!
