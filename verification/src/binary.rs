//! Binary numbers of a fixed precision: what single and double precision arithmetic give.
//!
//! A number of either precision is a whole number of its smallest steps, so its size is a natural
//! number. The precision is how many binary digits of that number can be told from zero, counted
//! from the highest: an exact result with more digits is rounded to the nearest number that has no
//! more, and to the even one of two that are as near.

use vstd::arithmetic::div_mod::{
    lemma_fundamental_div_mod, lemma_fundamental_div_mod_converse, lemma_mod_bound,
};
use vstd::arithmetic::power2::{
    lemma2_to64, lemma_pow2_adds, lemma_pow2_pos, lemma_pow2_strictly_increases, lemma_pow2_unfold,
    pow2,
};
use vstd::prelude::*;

use crate::natural::Natural;

verus! {

/// Binary digits of a single precision number.
pub const SINGLE_DIGITS: u32 = 24;

/// A single precision number counts steps of two to the minus this.
pub const SINGLE_PLACES: u32 = 149;

/// Binary digits of a double precision number.
pub const DOUBLE_DIGITS: u32 = 53;

/// A double precision number counts steps of two to the minus this.
pub const DOUBLE_PLACES: u32 = 1074;

/// Numbers worked with here have fewer binary digits than this.
pub const REACH: u32 = 3_000;

/// `num / den` to the nearest whole number, the even one of two as near.
pub open spec fn nearest(num: nat, den: nat) -> nat {
    let low = num / den;
    let rest = num % den;
    if 2 * rest > den || (2 * rest == den && low % 2 == 1) {
        low + 1
    } else {
        low
    }
}

/// How many binary digits `n` has beyond `digits` of them.
pub open spec fn excess(n: nat, digits: nat) -> nat
    decreases n,
{
    if n < pow2(digits) || n == 0 {
        0
    } else {
        1 + excess(n / 2, digits)
    }
}

/// `num / den` in a precision of `digits` binary digits.
pub open spec fn rounded(num: nat, den: nat, digits: nat) -> nat {
    let e = excess(num / den, digits);
    nearest(num, den * pow2(e)) * pow2(e)
}

/// `num / den` in double precision.
pub open spec fn double(num: nat, den: nat) -> nat {
    rounded(num, den, DOUBLE_DIGITS as nat)
}

/// `num / den` in single precision.
pub open spec fn single(num: nat, den: nat) -> nat {
    rounded(num, den, SINGLE_DIGITS as nat)
}

/// `n`, held at the most a `u64` can be.
pub open spec fn held(n: nat) -> u64 {
    if n > u64::MAX {
        u64::MAX
    } else {
        n as u64
    }
}

/// What a whole number is in steps of two to the minus `places`.
pub open spec fn in_steps(n: nat, places: u32) -> nat {
    n * pow2(places as nat)
}

/// The size of a number: `significand` times two to the `exponent`, in steps.
#[derive(Debug, Clone, Copy, PartialEq, Eq, Structural)]
pub struct Binary {
    pub significand: u128,
    pub exponent: u32,
}

impl View for Binary {
    type V = nat;

    open spec fn view(&self) -> nat {
        self.significand as nat * pow2(self.exponent as nat)
    }
}

proof fn two_to_128()
    ensures
        pow2(128) == 0x1_0000_0000_0000_0000_0000_0000_0000_0000,
{
    lemma2_to64();
    lemma_pow2_adds(64, 64);
    assert(0x1_0000_0000_0000_0000 * 0x1_0000_0000_0000_0000
        == 0x1_0000_0000_0000_0000_0000_0000_0000_0000) by (nonlinear_arith);
}

impl Binary {
    /// Whether the significand takes all the digits of a precision, and no more, unless there are
    /// no more to take.
    pub open spec fn shaped(self, digits: u32) -> bool {
        &&& self.significand <= pow2(digits as nat)
        &&& self.exponent > 0 ==> self.significand >= pow2((digits - 1) as nat)
    }
}

/// The excess is where the digits run out.
pub proof fn excess_is(n: nat, digits: nat, e: nat)
    requires
        n < pow2(digits + e),
        e > 0 ==> n >= pow2((digits + e - 1) as nat),
    ensures
        excess(n, digits) == e,
    decreases e,
{
    lemma_pow2_pos(digits);
    if e > 0 {
        lemma_pow2_unfold(digits + e);
        lemma_pow2_pos((digits + e - 1) as nat);
        if digits + e - 1 > digits {
            lemma_pow2_strictly_increases(digits, (digits + e - 1) as nat);
        }
        if e > 1 {
            lemma_pow2_unfold((digits + e - 1) as nat);
        }
        assert(digits + (e - 1) as nat == (digits + e - 1) as nat);
        excess_is(n / 2, digits, (e - 1) as nat);
    }
}

/// A quotient worked out a binary digit at a time is the nearest whole number once it is rounded
/// by what is left.
proof fn long_division_is_nearest(num: nat, den: nat, scale: nat, q: nat, rest: nat)
    requires
        den > 0,
        scale > 0,
        num * scale == q * (den * scale) + rest,
        rest < den * scale,
    ensures
        nearest(num, den) == if 2 * rest > den * scale || (2 * rest == den * scale && q % 2 == 1) {
            q + 1
        } else {
            q
        },
{
    let left = num - q * den;
    assert(rest == left * scale) by (nonlinear_arith)
        requires
            num * scale == q * (den * scale) + rest,
            left == num - q * den,
    ;
    assert(0 <= left < den) by (nonlinear_arith)
        requires
            rest == left * scale,
            0 <= rest < den * scale,
            scale > 0,
    ;
    assert(num as int == den * (q as int) + left) by (nonlinear_arith)
        requires
            left == num - q * den,
    ;
    lemma_fundamental_div_mod_converse(num as int, den as int, q as int, left);
    assert(2 * rest > den * scale <==> 2 * left > den) by (nonlinear_arith)
        requires
            rest == left * scale,
            scale > 0,
    ;
    assert(2 * rest == den * scale <==> 2 * left == den) by (nonlinear_arith)
        requires
            rest == left * scale,
            scale > 0,
    ;
}

/// `n` doubled `times` times.
pub fn doubled(n: &Natural, times: u32) -> (r: Natural)
    ensures
        r@ == n@ * pow2(times as nat),
{
    let mut r = n.times_plus(1, 0);
    let mut left: u32 = times;
    let ghost all = n@ * pow2(times as nat);
    while left > 0
        invariant
            r@ * pow2(left as nat) == all,
        decreases left,
    {
        let by: u32 = if left >= 16 {
            16
        } else {
            1
        };
        let factor: u32 = if left >= 16 {
            0x1_0000
        } else {
            2
        };
        proof {
            lemma2_to64();
            lemma_pow2_adds(by as nat, (left - by) as nat);
            let a = r@ as int;
            let b = factor as int;
            let c = pow2((left - by) as nat) as int;
            assert((a * b) * c == a * (b * c)) by (nonlinear_arith);
        }
        r = r.times_plus(factor, 0);
        left = left - by;
    }
    proof {
        lemma2_to64();
        assert(r@ * 1 == all);
    }
    r
}

/// `num / den` in a precision of `digits` binary digits.
pub fn round(num: &Natural, den: &Natural, digits: u32) -> (b: Binary)
    requires
        den@ > 0,
        1 <= digits <= 126,
        num@ < den@ * pow2(REACH as nat),
    ensures
        b@ == rounded(num@, den@, digits as nat),
        b.exponent == excess(num@ / den@, digits as nat),
        b.exponent <= REACH,
        b.shaped(digits),
{
    let mut unit = doubled(den, digits - 1);
    let mut twice = unit.times_plus(2, 0);
    let mut e: u32 = 0;
    let mut fits: bool = num.minus(&twice).is_none();
    while !fits
        invariant
            den@ > 0,
            1 <= digits <= 126,
            num@ < den@ * pow2(REACH as nat),
            unit@ == den@ * pow2((digits - 1 + e) as nat),
            twice@ == unit@ * 2,
            fits == (num@ < twice@),
            e > 0 ==> num@ >= unit@,
            e <= REACH,
        decreases REACH - e,
    {
        proof {
            let here = (digits + e) as nat;
            lemma_pow2_unfold(here);
            let d = den@ as int;
            let p = pow2((digits - 1 + e) as nat) as int;
            assert((here - 1) as nat == (digits - 1 + e) as nat);
            assert(d * (2 * p) == (d * p) * 2) by (nonlinear_arith);
            assert(twice@ == den@ * pow2(here));
            if here >= REACH {
                if here > REACH {
                    lemma_pow2_strictly_increases(REACH as nat, here);
                }
                let low = pow2(REACH as nat) as int;
                let high = pow2(here) as int;
                assert(d * low <= d * high) by (nonlinear_arith)
                    requires
                        d > 0,
                        low <= high,
                ;
            }
            assert(here < REACH);
            assert((digits - 1 + (e + 1)) as nat == here);
        }
        unit = twice;
        twice = unit.times_plus(2, 0);
        e = e + 1;
        fits = num.minus(&twice).is_none();
    }
    let ghost start = num@;
    let (mut q, mut rest): (u128, Natural) = match num.minus(&unit) {
        Some(left) => (1, left),
        None => (0, num.times_plus(1, 0)),
    };
    let mut i: u32 = 0;
    proof {
        lemma2_to64();
        assert(start * pow2(0) == start);
        assert(q == 1 ==> q * unit@ == unit@);
        assert(q == 0 ==> q * unit@ == 0);
    }
    while i < digits - 1
        invariant
            1 <= digits <= 126,
            i <= digits - 1,
            start * pow2(i as nat) == q as nat * unit@ + rest@,
            rest@ < unit@,
            q < pow2((i + 1) as nat),
            e > 0 ==> q >= pow2(i as nat),
        decreases digits - i,
    {
        proof {
            lemma_pow2_unfold((i + 1) as nat);
            lemma_pow2_unfold((i + 2) as nat);
            lemma_pow2_strictly_increases((i + 2) as nat, 128);
            two_to_128();
            lemma2_to64();
            let n = start as int;
            let p = pow2(i as nat) as int;
            let u = unit@ as int;
            let r = rest@ as int;
            let k = q as int;
            assert(n * (2 * p) == (2 * k) * u + 2 * r) by (nonlinear_arith)
                requires
                    n * p == k * u + r,
            ;
            assert((2 * k + 1) * u == (2 * k) * u + u) by (nonlinear_arith);
        }
        let more = rest.times_plus(2, 0);
        match more.minus(&unit) {
            Some(left) => {
                q = 2 * q + 1;
                rest = left;
            },
            None => {
                q = 2 * q;
                rest = more;
            },
        }
        i = i + 1;
    }
    let more = rest.times_plus(2, 0);
    let up: bool = match more.minus(&unit) {
        None => false,
        Some(_) => match unit.minus(&more) {
            Some(_) => q % 2 == 1,
            None => true,
        },
    };
    proof {
        let d = den@;
        let s = pow2(e as nat);
        let scale = pow2((digits - 1) as nat);
        lemma_pow2_pos(e as nat);
        lemma_pow2_pos((digits - 1) as nat);
        lemma_pow2_adds((digits - 1) as nat, e as nat);
        assert((digits - 1) as nat + e as nat == (digits - 1 + e) as nat);
        assert(d * (scale * s) == (d * s) * scale) by (nonlinear_arith);
        assert(d * s > 0) by (nonlinear_arith)
            requires
                d > 0,
                s > 0,
        ;
        long_division_is_nearest(start, d * s, scale, q as nat, rest@);
        // Where the digits run out.
        let whole = start / d;
        lemma_fundamental_div_mod(start as int, d as int);
        lemma_mod_bound(start as int, d as int);
        let high = pow2((digits + e) as nat);
        lemma_pow2_unfold((digits + e) as nat);
        assert((digits + e - 1) as nat == (digits - 1 + e) as nat);
        let half = pow2((digits - 1 + e) as nat);
        assert(whole < high) by (nonlinear_arith)
            requires
                start == d * whole + start % d,
                start % d >= 0,
                start < (d * half) * 2,
                high == 2 * half,
                d > 0,
        ;
        if e > 0 {
            assert(whole >= half) by (nonlinear_arith)
                requires
                    start == d * whole + start % d,
                    start % d < d,
                    start >= d * half,
                    d > 0,
            ;
        }
        assert(digits as nat + e as nat == (digits + e) as nat);
        excess_is(whole, digits as nat, e as nat);
        assert(q < pow2(digits as nat));
        lemma_pow2_strictly_increases(digits as nat, 128);
        two_to_128();
    }
    Binary {
        significand: if up {
            q + 1
        } else {
            q
        },
        exponent: e,
    }
}

/// Where the digits run out is where the excess says.
pub proof fn excess_bounds(n: nat, digits: nat)
    ensures
        n < pow2(digits + excess(n, digits)),
        excess(n, digits) > 0 ==> n >= pow2((digits + excess(n, digits) - 1) as nat),
    decreases n,
{
    lemma_pow2_pos(digits);
    if n >= pow2(digits) && n != 0 {
        let e = excess(n / 2, digits);
        excess_bounds(n / 2, digits);
        lemma_pow2_unfold(digits + e + 1);
        assert((digits + e + 1 - 1) as nat == digits + e);
        assert(digits + (e + 1) == digits + e + 1);
        if e > 0 {
            lemma_pow2_unfold(digits + e);
        }
    }
}

proof fn nearest_is_at_most_one_up(num: nat, den: nat, bound: nat)
    requires
        den > 0,
        num < den * bound,
    ensures
        nearest(num, den) <= bound,
{
    lemma_fundamental_div_mod(num as int, den as int);
    lemma_mod_bound(num as int, den as int);
    let q = num / den;
    assert(q < bound) by (nonlinear_arith)
        requires
            num == den * q + num % den,
            num % den >= 0,
            num < den * bound,
            den > 0,
    ;
}

/// Rounding passes no power of two.
pub proof fn rounding_stays_below(num: nat, den: nat, digits: nat, k: nat)
    requires
        den > 0,
        digits > 0,
        num < den * pow2(k),
    ensures
        rounded(num, den, digits) <= pow2(k),
{
    let q = num / den;
    let e = excess(q, digits);
    excess_bounds(q, digits);
    lemma_pow2_pos(e);
    if e > 0 {
        lemma_fundamental_div_mod(num as int, den as int);
        lemma_mod_bound(num as int, den as int);
        let p = pow2(k);
        assert(q < p) by (nonlinear_arith)
            requires
                num == den * q + num % den,
                num % den >= 0,
                num < den * p,
                den > 0,
        ;
        let top = (digits + e - 1) as nat;
        if k <= top {
            if k < top {
                lemma_pow2_strictly_increases(k, top);
            }
        }
        assert(e <= k);
    }
    lemma_pow2_adds(e, (k - e) as nat);
    assert(e + (k - e) as nat == k);
    let a = pow2(e);
    let b = pow2((k - e) as nat);
    assert(den * (a * b) == (den * a) * b) by (nonlinear_arith);
    assert(den * a > 0) by (nonlinear_arith)
        requires
            den > 0,
            a > 0,
    ;
    nearest_is_at_most_one_up(num, den * a, b);
    let n = nearest(num, den * a);
    assert(n * a <= a * b) by (nonlinear_arith)
        requires
            n <= b,
    ;
}

/// Rounding falls below no power of two either.
pub proof fn rounding_stays_above(num: nat, den: nat, digits: nat, k: nat)
    requires
        den > 0,
        digits > 0,
        num >= den * pow2(k),
    ensures
        rounded(num, den, digits) >= pow2(k),
{
    let q = num / den;
    let e = excess(q, digits);
    excess_bounds(q, digits);
    lemma_pow2_pos(e);
    let a = pow2(e) as int;
    let d = den * a;
    assert(d > 0) by (nonlinear_arith)
        requires
            d == den * a,
            den > 0,
            a > 0,
    ;
    lemma_fundamental_div_mod(num as int, den as int);
    lemma_mod_bound(num as int, den as int);
    lemma_fundamental_div_mod(num as int, d);
    lemma_mod_bound(num as int, d);
    let low = num as int / d;
    let least = if e <= k {
        pow2((k - e) as nat) as int
    } else {
        1int
    };
    if e <= k {
        lemma_pow2_adds(e, (k - e) as nat);
        assert(e + (k - e) as nat == k);
        let p = pow2(k) as int;
        assert(num >= d * least) by (nonlinear_arith)
            requires
                num >= den * p,
                p == a * least,
                d == den * a,
        ;
    } else {
        lemma_pow2_strictly_increases(k, e);
        let top = (digits + e - 1) as nat;
        if e < top {
            lemma_pow2_strictly_increases(e, top);
        }
        assert(num >= d * least) by (nonlinear_arith)
            requires
                num == den * q + num % den,
                num % den >= 0,
                q >= a,
                d == den * a,
                least == 1,
                den > 0,
        ;
    }
    assert(low >= least) by (nonlinear_arith)
        requires
            num == d * low + num as int % d,
            (num as int % d) < d,
            num >= d * least,
            d > 0,
    ;
    let n = nearest(num, d as nat) as int;
    assert(n * a >= least * a) by (nonlinear_arith)
        requires
            n >= least,
            a > 0,
    ;
    assert(least * a == a * least) by (nonlinear_arith);
}

/// Rounding moves a number by no more than its share of the precision, or by no more than a step.
pub proof fn rounding_moves_little(num: nat, den: nat, digits: nat)
    requires
        den > 0,
        digits > 0,
    ensures
        pow2(digits) * (rounded(num, den, digits) * den - num) <= num + den * pow2(digits),
        pow2(digits) * (num - rounded(num, den, digits) * den) <= num + den * pow2(digits),
{
    let q = num / den;
    let e = excess(q, digits);
    excess_bounds(q, digits);
    lemma_pow2_pos(e);
    lemma_pow2_pos(digits);
    lemma_fundamental_div_mod(num as int, den as int);
    lemma_mod_bound(num as int, den as int);
    let a = pow2(e) as int;
    let p = pow2(digits) as int;
    let d = den * a;
    assert(d > 0) by (nonlinear_arith)
        requires
            d == den * a,
            den > 0,
            a > 0,
    ;
    lemma_fundamental_div_mod(num as int, d);
    lemma_mod_bound(num as int, d);
    let n = nearest(num, (den * a) as nat) as int;
    let low = num as int / d;
    let rest = num as int % d;
    let apart = n * d - num;
    assert((low + 1) * d == d * low + d) by (nonlinear_arith);
    assert(low * d == d * low) by (nonlinear_arith);
    assert(-d <= 2 * apart <= d);
    assert(rounded(num, den, digits) * den == n * d) by (nonlinear_arith)
        requires
            rounded(num, den, digits) == n * a,
            d == den * a,
    ;
    if e > 0 {
        lemma_pow2_unfold(digits + e);
        lemma_pow2_adds(digits, e);
        let half = pow2((digits + e - 1) as nat) as int;
        assert(num >= den * half) by (nonlinear_arith)
            requires
                num == den * q + num % den,
                num % den >= 0,
                q >= half,
                den > 0,
        ;
        assert(p * d == 2 * (den * half)) by (nonlinear_arith)
            requires
                d == den * a,
                p * a == 2 * half,
        ;
        assert(p * apart <= num && p * (-apart) <= num) by (nonlinear_arith)
            requires
                -d <= 2 * apart <= d,
                p * d <= 2 * num,
                p > 0,
        ;
        assert(den * p >= 0) by (nonlinear_arith)
            requires
                den > 0,
                p > 0,
        ;
    } else {
        lemma2_to64();
        assert(den * 1 == den);
        assert(a == 1);
        assert(d == den);
        assert(p * apart <= den * p && p * (-apart) <= den * p) by (nonlinear_arith)
            requires
                -d <= 2 * apart <= d,
                d == den,
                den > 0,
                p > 0,
        ;
    }
}

proof fn no_whole_number_is_nearer(num: nat, den: nat, other: int)
    requires
        den > 0,
    ensures
        ({
            let apart = nearest(num, den) * den - num;
            let off = other * den - num;
            (if apart < 0 {
                -apart
            } else {
                apart
            }) <= (if off < 0 {
                -off
            } else {
                off
            })
        }),
{
    lemma_fundamental_div_mod(num as int, den as int);
    lemma_mod_bound(num as int, den as int);
    let low = num as int / den as int;
    let rest = num as int % den as int;
    let d = den as int;
    assert(low * d == d * low) by (nonlinear_arith);
    assert((low + 1) * d == d * low + d) by (nonlinear_arith);
    if other <= low {
        assert(other * d <= low * d) by (nonlinear_arith)
            requires
                other <= low,
                d > 0,
        ;
    } else {
        assert(other * d >= (low + 1) * d) by (nonlinear_arith)
            requires
                other >= low + 1,
                d > 0,
        ;
    }
}

/// How far `n` steps are from `num / den` of them, that many times over.
pub open spec fn distance(n: nat, num: nat, den: nat) -> nat {
    if n * den >= num {
        (n * den - num) as nat
    } else {
        (num - n * den) as nat
    }
}

/// Rounding gives the nearest number there is: none with as few digits is nearer.
pub proof fn rounding_gives_the_nearest(
    num: nat,
    den: nat,
    digits: nat,
    significand: nat,
    exponent: nat,
)
    requires
        den > 0,
        digits > 0,
        significand < pow2(digits),
    ensures
        distance(rounded(num, den, digits), num, den) <= distance(
            significand * pow2(exponent),
            num,
            den,
        ),
{
    let q = num / den;
    let e = excess(q, digits);
    excess_bounds(q, digits);
    lemma_pow2_pos(e);
    let a = pow2(e) as int;
    let d = den * a;
    assert(d > 0) by (nonlinear_arith)
        requires
            d == den * a,
            den > 0,
            a > 0,
    ;
    let n = nearest(num, d as nat) as int;
    assert(rounded(num, den, digits) * den == n * d) by (nonlinear_arith)
        requires
            rounded(num, den, digits) == n * a,
            d == den * a,
    ;
    let other = significand * pow2(exponent);
    if exponent >= e {
        let by = (exponent - e) as nat;
        lemma_pow2_adds(e, by);
        assert(e + by == exponent);
        let k = (significand * pow2(by)) as int;
        let b = pow2(by) as int;
        assert(k * d == other * den) by (nonlinear_arith)
            requires
                k == significand * b,
                other == significand * (a * b),
                d == den * a,
        ;
        no_whole_number_is_nearer(num, d as nat, k);
    } else {
        // It is below every number of this size, the least of which is nearer.
        let least = (digits + e - 1) as nat;
        let by = (digits - 1) as nat;
        lemma_pow2_adds(e, by);
        assert(e + by == least);
        lemma_pow2_adds(digits, exponent);
        lemma_pow2_pos(exponent);
        if digits + exponent < least {
            lemma_pow2_strictly_increases(digits + exponent, least);
        }
        let p = pow2(digits) as int;
        let x = pow2(exponent) as int;
        let l = pow2(least) as int;
        assert(other <= p * x) by (nonlinear_arith)
            requires
                other == significand * x,
                significand < p,
                x > 0,
        ;
        lemma_fundamental_div_mod(num as int, den as int);
        lemma_mod_bound(num as int, den as int);
        assert(other * den <= l * den && l * den <= num) by (nonlinear_arith)
            requires
                other <= l,
                q >= l,
                num == den * q + num % den,
                num % den >= 0,
                den > 0,
        ;
        let b = pow2(by) as int;
        assert(b * d == l * den) by (nonlinear_arith)
            requires
                l == a * b,
                d == den * a,
        ;
        no_whole_number_is_nearer(num, d as nat, b);
    }
}

/// What fits the precision is not rounded.
pub proof fn what_fits_is_exact(n: nat, digits: nat, places: nat)
    requires
        n < pow2(digits),
    ensures
        rounded(n * pow2(places), 1, digits) == n * pow2(places),
{
    let steps = n * pow2(places);
    let e = excess(steps, digits);
    assert(steps / 1 == steps);
    excess_bounds(steps, digits);
    lemma_pow2_pos(e);
    lemma_pow2_pos(places);
    if e > 0 {
        lemma_pow2_adds(digits, places);
        let a = pow2(digits) as int;
        let b = pow2(places) as int;
        assert(n * b < a * b) by (nonlinear_arith)
            requires
                n < a,
                b > 0,
        ;
        let top = (digits + e - 1) as nat;
        if digits + places <= top {
            if digits + places < top {
                lemma_pow2_strictly_increases(digits + places, top);
            }
        }
        assert(e <= places);
    }
    lemma_pow2_adds((places - e) as nat, e);
    assert((places - e) as nat + e == places);
    let a = pow2((places - e) as nat) as int;
    let b = pow2(e) as int;
    assert(n * (a * b) == (n * a) * b) by (nonlinear_arith);
    assert(n * a >= 0) by (nonlinear_arith)
        requires
            n >= 0,
            a >= 0,
    ;
    assert(steps as int == b * (n * a) + 0) by (nonlinear_arith)
        requires
            steps == n * (a * b),
    ;
    lemma_fundamental_div_mod_converse(steps as int, b, n * a, 0);
    assert(1 * pow2(e) == pow2(e));
    assert(nearest(steps, pow2(e)) == n * a);
}

/// Numbers below this power of two can still be added and multiplied.
pub const SPAN: u32 = 2_900;

proof fn within_reach(n: nat, factor: nat, den: nat)
    requires
        n <= pow2(SPAN as nat),
        factor <= 0xffff_ffff,
        den > 0,
    ensures
        n * factor < den * pow2(REACH as nat),
{
    lemma2_to64();
    lemma_pow2_adds(SPAN as nat, 32);
    lemma_pow2_pos(SPAN as nat);
    lemma_pow2_strictly_increases(SPAN as nat + 32, REACH as nat);
    let a = pow2(SPAN as nat) as int;
    let b = pow2(REACH as nat) as int;
    assert(n * factor <= a * 0x1_0000_0000) by (nonlinear_arith)
        requires
            0 <= n <= a,
            0 <= factor <= 0xffff_ffff,
    ;
    assert(b <= den * b) by (nonlinear_arith)
        requires
            den >= 1,
            b >= 0,
    ;
}

impl Binary {
    pub fn zero() -> (b: Binary)
        ensures
            b@ == 0,
            b.significand == 0 && b.exponent == 0,
    {
        proof {
            lemma2_to64();
        }
        Binary { significand: 0, exponent: 0 }
    }

    pub fn is_zero(&self) -> (r: bool)
        ensures
            r == (self@ == 0),
    {
        proof {
            lemma_pow2_pos(self.exponent as nat);
            let a = self.significand as int;
            let b = pow2(self.exponent as nat) as int;
            assert(a * b == 0 <==> a == 0) by (nonlinear_arith)
                requires
                    b > 0,
            ;
        }
        self.significand == 0
    }

    /// How many steps there are.
    pub fn steps(&self) -> (n: Natural)
        ensures
            n@ == self@,
    {
        doubled(&Natural::from_whole(self.significand), self.exponent)
    }

    /// `n / den`, counted in steps of two to the minus `places`.
    pub fn ratio(n: u128, den: u32, places: u32, digits: u32) -> (b: Binary)
        requires
            den > 0,
            places <= 2_000,
            1 <= digits <= 126,
        ensures
            b@ == rounded(in_steps(n as nat, places), den as nat, digits as nat),
            b@ <= pow2((places + 128) as nat),
            b.exponent <= REACH,
    {
        let num = doubled(&Natural::from_whole(n), places);
        proof {
            two_to_128();
            lemma_pow2_adds(128, places as nat);
            lemma_pow2_pos(places as nat);
            lemma_pow2_strictly_increases((128 + places) as nat, REACH as nat);
            let a = pow2(128) as int;
            let p = pow2(places as nat) as int;
            let d = den as int;
            let r = pow2(REACH as nat) as int;
            assert(n * p < d * (a * p)) by (nonlinear_arith)
                requires
                    0 <= n < a,
                    p > 0,
                    d >= 1,
            ;
            assert(n * p < d * r) by (nonlinear_arith)
                requires
                    n * p < d * (a * p),
                    a * p <= r,
                    d >= 1,
            ;
            assert((places + 128) as nat == 128 + places as nat);
            rounding_stays_below(num@, den as nat, digits as nat, (places + 128) as nat);
        }
        round(&num, &Natural::from_whole(den as u128), digits)
    }

    /// This number `k` times over.
    pub fn times(&self, k: u32, digits: u32) -> (b: Binary)
        requires
            self@ <= pow2(SPAN as nat),
            1 <= digits <= 126,
        ensures
            b@ == rounded(self@ * k as nat, 1, digits as nat),
            b.exponent <= REACH,
    {
        proof {
            within_reach(self@, k as nat, 1);
        }
        round(&self.steps().times_plus(k, 0), &Natural::from_whole(1), digits)
    }

    /// This number in `k` parts.
    pub fn over(&self, k: u32, digits: u32) -> (b: Binary)
        requires
            self@ <= pow2(SPAN as nat),
            k > 0,
            1 <= digits <= 126,
        ensures
            b@ == rounded(self@, k as nat, digits as nat),
            b.exponent <= REACH,
    {
        proof {
            within_reach(self@, 1, k as nat);
            assert(self@ * 1 == self@);
        }
        round(&self.steps(), &Natural::from_whole(k as u128), digits)
    }

    /// The two numbers together.
    pub fn plus(&self, other: &Binary, digits: u32) -> (b: Binary)
        requires
            self@ + other@ <= pow2(SPAN as nat),
            1 <= digits <= 126,
        ensures
            b@ == rounded(self@ + other@, 1, digits as nat),
            b.exponent <= REACH,
    {
        proof {
            within_reach(self@ + other@, 1, 1);
            assert((self@ + other@) * 1 == self@ + other@);
        }
        round(&self.steps().plus(&other.steps()), &Natural::from_whole(1), digits)
    }

    /// This number `k` times over to the nearest whole number, where steps are two to the minus
    /// `places`.
    pub fn nearest_times(&self, k: u32, places: u32) -> (n: u128)
        requires
            self@ <= in_steps(pow2(64), places),
            places <= 2_000,
        ensures
            n == nearest(self@ * k as nat, pow2(places as nat)),
    {
        let num = self.steps().times_plus(k, 0);
        let den = doubled(&Natural::from_whole(1), places);
        proof {
            let p = pow2(places as nat);
            lemma_pow2_pos(places as nat);
            lemma2_to64();
            lemma_pow2_adds(64, places as nat);
            lemma_pow2_strictly_increases(64 + places as nat, SPAN as nat);
            within_reach(self@, k as nat, p);
            // Nothing is beyond the digits there are.
            let q = num@ / p;
            lemma_fundamental_div_mod(num@ as int, p as int);
            lemma_mod_bound(num@ as int, p as int);
            lemma_pow2_adds(64, 32);
            lemma_pow2_strictly_increases(96, 126);
            let x = self@ as int;
            let t = pow2(64) as int;
            assert(x * k < (t * 0x1_0000_0000) * p) by (nonlinear_arith)
                requires
                    0 <= x <= t * p,
                    0 <= k < 0x1_0000_0000,
                    t > 0,
                    p > 0,
            ;
            let bound = t * 0x1_0000_0000;
            assert(q < bound) by (nonlinear_arith)
                requires
                    x * k == p * q + num@ % p,
                    num@ % p >= 0,
                    x * k < bound * p,
                    p > 0,
            ;
            assert(excess(q, 126) == 0);
            assert(p * 1 == p);
            assert(nearest(num@, p) * 1 == nearest(num@, p));
        }
        let b = round(&num, &den, 126);
        assert(b.significand * 1 == b.significand);
        b.significand
    }

    /// The whole number below, where steps are two to the minus `places`, held at the most a `u64`
    /// can be.
    pub fn whole(&self, places: u32) -> (n: u64)
        ensures
            n == held(self@ / pow2(places as nat)),
    {
        let m: u128 = self.significand;
        proof {
            lemma_pow2_pos(places as nat);
            lemma_pow2_pos(self.exponent as nat);
            lemma2_to64();
        }
        if self.exponent >= places {
            let up: u32 = self.exponent - places;
            proof {
                lemma_pow2_adds(up as nat, places as nat);
                assert(up as nat + places as nat == self.exponent as nat);
                let a = pow2(up as nat) as int;
                let b = pow2(places as nat) as int;
                assert(m * (a * b) == b * (m * a) + 0) by (nonlinear_arith);
                lemma_fundamental_div_mod_converse(self@ as int, b, m * a, 0);
                assert(self@ / pow2(places as nat) == m * pow2(up as nat));
            }
            if m > u64::MAX as u128 {
                proof {
                    lemma_pow2_pos(up as nat);
                    let a = pow2(up as nat) as int;
                    assert(m * a >= m) by (nonlinear_arith)
                        requires
                            a >= 1,
                            m >= 0,
                    ;
                }
                return u64::MAX;
            }
            let mut v: u64 = m as u64;
            let mut i: u32 = 0;
            assert(m * pow2(0) == m);
            while i < up
                invariant
                    i <= up,
                    v == m * pow2(i as nat),
                    self@ / pow2(places as nat) == m * pow2(up as nat),
                decreases up - i,
            {
                proof {
                    lemma_pow2_unfold((i + 1) as nat);
                    let a = pow2(i as nat) as int;
                    assert(m * (2 * a) == 2 * (m * a)) by (nonlinear_arith);
                }
                if v > u64::MAX / 2 {
                    proof {
                        if i + 1 < up {
                            lemma_pow2_strictly_increases((i + 1) as nat, up as nat);
                        }
                        let a = pow2((i + 1) as nat) as int;
                        let b = pow2(up as nat) as int;
                        assert(m * a <= m * b) by (nonlinear_arith)
                            requires
                                a <= b,
                                m >= 0,
                        ;
                    }
                    return u64::MAX;
                }
                v = v * 2;
                i = i + 1;
            }
            v
        } else {
            let down: u32 = places - self.exponent;
            proof {
                lemma_pow2_adds(down as nat, self.exponent as nat);
                assert(down as nat + self.exponent as nat == places as nat);
                let a = pow2(self.exponent as nat) as int;
                let b = pow2(down as nat) as int;
                lemma_pow2_pos(down as nat);
                lemma_fundamental_div_mod(m as int, b);
                lemma_mod_bound(m as int, b);
                let q = m as int / b;
                let r = m as int % b;
                assert(m * a == (b * a) * q + a * r) by (nonlinear_arith)
                    requires
                        m == b * q + r,
                ;
                assert(0 <= a * r < b * a) by (nonlinear_arith)
                    requires
                        0 <= r < b,
                        a > 0,
                ;
                lemma_fundamental_div_mod_converse(self@ as int, b * a, q, a * r);
                assert(self@ / pow2(places as nat) == m as nat / pow2(down as nat));
            }
            let mut v: u128 = m;
            let mut i: u32 = 0;
            assert(m as nat / pow2(0) == m);
            while i < down
                invariant
                    i <= down,
                    v == m as nat / pow2(i as nat),
                decreases down - i,
            {
                proof {
                    lemma_pow2_unfold((i + 1) as nat);
                    lemma_pow2_pos(i as nat);
                    vstd::arithmetic::div_mod::lemma_div_denominator(
                        m as int,
                        pow2(i as nat) as int,
                        2,
                    );
                    assert(pow2(i as nat) * 2 == 2 * pow2(i as nat));
                }
                v = v / 2;
                i = i + 1;
            }
            if v > u64::MAX as u128 {
                u64::MAX
            } else {
                v as u64
            }
        }
    }
}

} // verus!
