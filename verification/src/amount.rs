//! Amounts as a person types them: seconds to seek to, a volume in percent.

use vstd::arithmetic::power2::{
    lemma2_to64, lemma_pow2_adds, lemma_pow2_pos, lemma_pow2_strictly_increases, pow2,
};
use vstd::prelude::*;

use crate::binary::{
    double, doubled, excess, held, in_steps, nearest, round, rounded, rounding_stays_above,
    rounding_stays_below, what_fits_is_exact, Binary, DOUBLE_DIGITS, DOUBLE_PLACES, REACH,
    SINGLE_DIGITS, SINGLE_PLACES, SPAN,
};
use crate::command::{Volume, FULL_VOLUME};
use crate::ingest::same_but_case;
use crate::line::{
    is_char, only_digits, part, read_digits, read_whole, split_at_char, split_once, trim, trimmed,
    whole,
};
use crate::natural::Natural;
use crate::shelf::{fold, folded};
use crate::single::{self, INFINITE, NOT_A_NUMBER};
use crate::text::{all_digits, chars_of, decimal_value, is_digit};

verus! {

/// A number as typed.
pub enum Amount {
    /// What `digits` write, times ten to the `exponent`.
    Finite { negative: bool, digits: Seq<char>, exponent: int },
    Infinite { negative: bool },
    NotANumber,
}

/// Ten to the `n`.
pub open spec fn tens(n: nat) -> nat
    decreases n,
{
    if n == 0 {
        1
    } else {
        tens((n - 1) as nat) * 10
    }
}

pub open spec fn is_exponent_mark() -> spec_fn(char) -> bool {
    |c: char| c == 'e' || c == 'E'
}

/// Whether `s` starts with a minus sign.
pub open spec fn is_negative(s: Seq<char>) -> bool {
    s.len() > 0 && s[0] == '-'
}

/// `s` without a sign in front.
pub open spec fn unsigned(s: Seq<char>) -> Seq<char> {
    if s.len() > 0 && (s[0] == '-' || s[0] == '+') {
        s.skip(1)
    } else {
        s
    }
}

/// A whole number with or without a sign.
pub open spec fn signed(s: Seq<char>) -> Option<int> {
    let digits = unsigned(s);
    if digits.len() > 0 && all_digits(digits) {
        if is_negative(s) {
            Some(-(decimal_value(digits) as int))
        } else {
            Some(decimal_value(digits) as int)
        }
    } else {
        None
    }
}

/// What is typed before the exponent, and the exponent.
pub open spec fn mantissa_and_exponent(s: Seq<char>) -> (Seq<char>, Option<int>) {
    match split_once(s, is_exponent_mark()) {
        Some((mantissa, exponent)) => (mantissa, signed(exponent)),
        None => (s, Some(0)),
    }
}

/// The digits before the point, and those after it.
pub open spec fn around_point(s: Seq<char>) -> (Seq<char>, Seq<char>) {
    match split_once(s, is_char('.')) {
        Some((whole, fraction)) => (whole, fraction),
        None => (s, Seq::empty()),
    }
}

/// The number `s` is: digits with or without a sign, a point and an exponent, or the name of an
/// infinity, or of no number at all.
pub open spec fn amount(s: Seq<char>) -> Option<Amount> {
    let body = unsigned(s);
    let negative = is_negative(s);
    if same_but_case(body, "inf"@) || same_but_case(body, "infinity"@) {
        Some(Amount::Infinite { negative })
    } else if same_but_case(body, "nan"@) {
        Some(Amount::NotANumber)
    } else {
        let (mantissa, exponent) = mantissa_and_exponent(body);
        let (before, after) = around_point(mantissa);
        if exponent is Some && all_digits(before) && all_digits(after) && before.len() + after.len()
            > 0 {
            Some(
                Amount::Finite {
                    negative,
                    digits: before + after,
                    exponent: exponent->0 - after.len(),
                },
            )
        } else {
            None
        }
    }
}

/// What `digits` write, times ten to the `exponent`, as a fraction: what stands above the line, in
/// steps of two to the minus `places`.
pub open spec fn numerator(digits: Seq<char>, exponent: int, places: u32) -> nat {
    in_steps(
        decimal_value(digits) * tens(
            if exponent >= 0 {
                exponent as nat
            } else {
                0
            },
        ),
        places,
    )
}

/// What stands below the line in that fraction.
pub open spec fn denominator(exponent: int) -> nat {
    tens(
        if exponent >= 0 {
            0
        } else {
            (-exponent) as nat
        },
    )
}

/// What `digits` write, times ten to the `exponent`, in a precision of `kept` binary digits.
pub open spec fn size_of(digits: Seq<char>, exponent: int, kept: u32, places: u32) -> nat {
    rounded(numerator(digits, exponent, places), denominator(exponent), kept as nat)
}

/// A number as typed, in some precision.
#[derive(Debug, Clone, Copy, PartialEq, Eq, Structural)]
pub enum Reading {
    Finite { negative: bool, size: Binary },
    /// Infinite, or at least two to the 1000.
    Huge { negative: bool },
    NotANumber,
}

/// Whether `r` is what `amount` comes to in a precision of `kept` binary digits.
pub open spec fn reads(r: Reading, amount: Amount, kept: u32, places: u32) -> bool {
    match amount {
        Amount::Finite { negative, digits, exponent } => match r {
            Reading::Finite { negative: below, size } => {
                &&& below == negative
                &&& size@ == size_of(digits, exponent, kept, places)
                &&& size@ <= pow2(2_800)
                &&& size.shaped(kept)
            },
            Reading::Huge { negative: below } => {
                &&& below == negative
                &&& size_of(digits, exponent, kept, places) >= in_steps(pow2(1_000), places)
            },
            Reading::NotANumber => false,
        },
        Amount::Infinite { negative } => r == (Reading::Huge { negative }),
        Amount::NotANumber => r == Reading::NotANumber,
    }
}

fn named(s: &Vec<char>, from: usize, name: &str) -> (r: bool)
    requires
        from <= s@.len(),
    ensures
        r == same_but_case(s@.skip(from as int), name@),
{
    let other = chars_of(name);
    let total: usize = s.len();
    if total - from != other.len() {
        return false;
    }
    let mut i: usize = 0;
    while i < other.len()
        invariant
            from <= s@.len(),
            total == s@.len(),
            other@ == name@,
            s@.len() - from == other@.len(),
            i <= other@.len(),
            forall|k: int| 0 <= k < i ==> folded(s@[from + k]) == folded(#[trigger] other@[k]),
        decreases other.len() - i,
    {
        if fold(s[from + i]) != fold(other[i]) {
            assert(folded(s@.skip(from as int)[i as int]) != folded(name@[i as int]));
            return false;
        }
        i = i + 1;
    }
    assert forall|k: int| 0 <= k < name@.len() implies folded(
        #[trigger] s@.skip(from as int)[k],
    ) == folded(name@[k]) by {
        assert(folded(s@[from + k]) == folded(other@[k]));
    }
    true
}

proof fn tens_are_positive(n: nat)
    ensures
        tens(n) >= 1,
    decreases n,
{
    if n > 0 {
        tens_are_positive((n - 1) as nat);
    }
}

proof fn tens_add_up(a: nat, b: nat)
    ensures
        tens(a + b) == tens(a) * tens(b),
    decreases b,
{
    let x = tens(a) as int;
    if b > 0 {
        tens_add_up(a, (b - 1) as nat);
        let y = tens((b - 1) as nat) as int;
        assert((x * y) * 10 == x * (y * 10)) by (nonlinear_arith);
        assert(((a + b) - 1) as nat == a + (b - 1) as nat);
    } else {
        assert(x * 1 == x);
    }
}

proof fn tens_lie_between(n: nat)
    ensures
        pow2(3 * n) <= tens(n) <= pow2(4 * n),
    decreases n,
{
    lemma2_to64();
    if n > 0 {
        tens_lie_between((n - 1) as nat);
        lemma_pow2_adds(3 * (n - 1) as nat, 3);
        lemma_pow2_adds(4 * (n - 1) as nat, 4);
        assert(3 * (n - 1) as nat + 3 == 3 * n);
        assert(4 * (n - 1) as nat + 4 == 4 * n);
    }
}

/// `len` digits write less than ten to the `len`, and no less than a tenth of it unless the first
/// is a zero.
proof fn digits_are_bounded(s: Seq<char>)
    requires
        all_digits(s),
    ensures
        decimal_value(s) < tens(s.len()),
        s.len() > 0 && s[0] != '0' ==> decimal_value(s) >= tens((s.len() - 1) as nat),
    decreases s.len(),
{
    if s.len() > 0 {
        let less = s.drop_last();
        assert forall|k: int| 0 <= k < less.len() implies is_digit(#[trigger] less[k]) by {
            assert(is_digit(s[k]));
        }
        digits_are_bounded(less);
        assert(is_digit(s.last()));
        if less.len() > 0 {
            assert(less[0] == s[0]);
        }
    }
}

/// Zeros in front change nothing.
proof fn zeros_in_front_write_nothing(s: Seq<char>, n: int)
    requires
        0 <= n <= s.len(),
        forall|k: int| 0 <= k < n ==> s[k] == '0',
    ensures
        decimal_value(s.skip(n)) == decimal_value(s),
        n == s.len() ==> decimal_value(s) == 0,
    decreases s.len(),
{
    if n < s.len() {
        let less = s.drop_last();
        zeros_in_front_write_nothing(less, n);
        assert(s.skip(n).drop_last() =~= less.skip(n));
        assert(s.skip(n).last() == s.last());
    } else if n > 0 {
        let less = s.drop_last();
        zeros_in_front_write_nothing(less, n - 1);
        assert(s.last() == '0');
        assert(s.skip(n) =~= Seq::empty());
    } else {
        assert(s.skip(n) =~= s);
    }
}

/// `n`, `times` powers of ten up.
fn tens_up(n: &Natural, times: u128) -> (r: Natural)
    ensures
        r@ == n@ * tens(times as nat),
{
    let mut r = n.times_plus(1, 0);
    let mut i: u128 = 0;
    assert(n@ * tens(0) == n@) by {
        assert(tens(0) == 1);
    }
    while i < times
        invariant
            i <= times,
            r@ == n@ * tens(i as nat),
        decreases times - i,
    {
        proof {
            let a = n@ as int;
            let b = tens(i as nat) as int;
            assert(a * (b * 10) == (a * b) * 10) by (nonlinear_arith);
            assert(((i + 1) as nat - 1) as nat == i as nat);
        }
        r = r.times_plus(10, 0);
        i = i + 1;
    }
    r
}

/// The number that `digits` write.
fn natural_of(digits: &Vec<char>) -> (n: Natural)
    requires
        all_digits(digits@),
    ensures
        n@ == decimal_value(digits@),
{
    let mut n = Natural::zero();
    let mut i: usize = 0;
    assert(digits@.take(0) =~= Seq::empty());
    while i < digits.len()
        invariant
            i <= digits@.len(),
            all_digits(digits@),
            n@ == decimal_value(digits@.take(i as int)),
        decreases digits.len() - i,
    {
        let c = digits[i];
        proof {
            assert(is_digit(digits@[i as int]));
            let upto = digits@.take(i + 1);
            assert(upto.drop_last() =~= digits@.take(i as int));
            assert(upto.last() == c);
        }
        n = n.times_plus(10, c as u32 - 48);
        i = i + 1;
    }
    assert(digits@.take(i as int) =~= digits@);
    n
}

/// Beyond this many powers of ten a number is too large, or too small, to matter.
pub const MOST_TENS: i128 = 400;

/// A number of many powers of ten is huge.
proof fn many_tens_are_huge(digits: Seq<char>, zeros: int, exponent: int, kept: u32, places: u32)
    requires
        all_digits(digits),
        0 <= zeros < digits.len(),
        forall|k: int| 0 <= k < zeros ==> digits[k] == '0',
        digits[zeros] != '0',
        digits.len() - zeros + exponent > MOST_TENS,
        kept > 0,
    ensures
        size_of(digits, exponent, kept, places) >= in_steps(pow2(1_000), places),
{
    let typed = digits.skip(zeros);
    zeros_in_front_write_nothing(digits, zeros);
    assert(all_digits(typed)) by {
        assert forall|k: int| 0 <= k < typed.len() implies is_digit(#[trigger] typed[k]) by {
            assert(is_digit(digits[zeros + k]));
        }
    }
    digits_are_bounded(typed);
    let v = decimal_value(digits);
    let len = (typed.len() - 1) as nat;
    let up = if exponent >= 0 {
        exponent as nat
    } else {
        0
    };
    let down = if exponent >= 0 {
        0
    } else {
        (-exponent) as nat
    };
    // All of it together is at least ten to the 400, over the denominator.
    let whole = (len + up - down) as nat;
    tens_add_up(len, up);
    tens_add_up(whole, down);
    assert(whole + down == len + up);
    tens_are_positive(up);
    tens_are_positive(down);
    let a = tens(len) as int;
    let b = tens(up) as int;
    let d = tens(down) as int;
    let w = tens(whole) as int;
    assert(v * b >= w * d) by (nonlinear_arith)
        requires
            v >= a,
            b > 0,
            a * b == w * d,
    ;
    tens_lie_between(whole);
    if 1_000 < 3 * whole {
        lemma_pow2_strictly_increases(1_000, 3 * whole);
    }
    let p = pow2(1_000) as int;
    let u = pow2(places as nat) as int;
    lemma_pow2_pos(places as nat);
    lemma_pow2_adds(1_000, places as nat);
    assert((v * b) * u >= d * (p * u)) by (nonlinear_arith)
        requires
            v * b >= w * d,
            w >= p,
            d > 0,
            u > 0,
    ;
    rounding_stays_above(
        numerator(digits, exponent, places),
        denominator(exponent),
        kept as nat,
        1_000 + places as nat,
    );
}

/// A number of many negative powers of ten is nothing.
proof fn few_tens_are_nothing(digits: Seq<char>, zeros: int, exponent: int, kept: u32, places: u32)
    requires
        all_digits(digits),
        0 <= zeros < digits.len(),
        forall|k: int| 0 <= k < zeros ==> digits[k] == '0',
        digits.len() - zeros + exponent < -MOST_TENS,
        places <= 1_100,
    ensures
        size_of(digits, exponent, kept, places) == 0,
{
    let typed = digits.skip(zeros);
    zeros_in_front_write_nothing(digits, zeros);
    assert(all_digits(typed)) by {
        assert forall|k: int| 0 <= k < typed.len() implies is_digit(#[trigger] typed[k]) by {
            assert(is_digit(digits[zeros + k]));
        }
    }
    digits_are_bounded(typed);
    let v = decimal_value(digits);
    let len = typed.len();
    let down = (-exponent) as nat;
    let rest = (down - len) as nat;
    tens_add_up(len, rest);
    assert(len + rest == down);
    tens_lie_between(rest);
    lemma_pow2_strictly_increases(1_101, 3 * rest);
    lemma2_to64();
    lemma_pow2_adds(1, places as nat);
    if places < 1_100 {
        lemma_pow2_strictly_increases(places as nat + 1, 1_101);
    }
    let a = tens(len) as int;
    let b = tens(rest) as int;
    let u = pow2(places as nat) as int;
    lemma_pow2_pos(places as nat);
    tens_are_positive(len);
    assert(v * 1 == v);
    assert(tens(0) == 1);
    assert(2 * (v * u) < a * b) by (nonlinear_arith)
        requires
            v < a,
            2 * u < b,
            u > 0,
            v >= 0,
    ;
    let num = numerator(digits, exponent, places);
    let den = denominator(exponent);
    vstd::arithmetic::div_mod::lemma_basic_div(num as int, den as int);
    vstd::arithmetic::div_mod::lemma_small_mod(num, den);
    lemma_pow2_pos(kept as nat);
    assert(excess(num / den, kept as nat) == 0);
    assert(den * 1 == den);
    assert(nearest(num, den) == 0);
}

/// What writes nothing is nothing.
proof fn zeros_are_nothing(digits: Seq<char>, exponent: int, kept: u32, places: u32)
    requires
        decimal_value(digits) == 0,
    ensures
        size_of(digits, exponent, kept, places) == 0,
{
    let num = numerator(digits, exponent, places);
    let den = denominator(exponent);
    let t = tens(
        if exponent >= 0 {
            exponent as nat
        } else {
            0
        },
    );
    let u = pow2(places as nat);
    assert(0 * t == 0) by (nonlinear_arith);
    assert(0 * u == 0) by (nonlinear_arith);
    assert(num == 0);
    tens_are_positive(
        if exponent >= 0 {
            0
        } else {
            (-exponent) as nat
        },
    );
    vstd::arithmetic::div_mod::lemma_div_of0(den as int);
    vstd::arithmetic::div_mod::lemma_small_mod(num, den);
    lemma_pow2_pos(kept as nat);
    lemma2_to64();
    assert(excess(0, kept as nat) == 0);
    assert(den * 1 == den);
    assert(nearest(num, den) == 0);
}

/// Whether two exponents are the same, or both beyond any number of digits there can be.
spec fn as_far_out(a: int, b: int) -> bool {
    ||| a == b
    ||| 2 * a > FAR && 2 * b > FAR
    ||| 2 * a < -FAR && 2 * b < -FAR
}

/// What `digits` write, times ten to the `exponent`, in a precision of `kept` binary digits;
/// nothing where it is huge. An exponent that was held stands for one as far out, `typed`.
fn read_size(
    digits: &Vec<char>,
    exponent: i128,
    Ghost(typed): Ghost<int>,
    kept: u32,
    places: u32,
) -> (size: Option<Binary>)
    requires
        all_digits(digits@),
        1 <= kept <= 126,
        places <= 1_100,
        -2 * FAR <= exponent <= 2 * FAR,
        as_far_out(exponent as int, typed),
    ensures
        match size {
            Some(b) => b@ == size_of(digits@, typed, kept, places) && b@ <= pow2(2_800)
                && b.shaped(kept),
            None => size_of(digits@, typed, kept, places) >= in_steps(pow2(1_000), places),
        },
{
    let mut zeros: usize = 0;
    while zeros < digits.len() && digits[zeros] == '0'
        invariant
            zeros <= digits@.len(),
            forall|k: int| 0 <= k < zeros ==> digits@[k] == '0',
        decreases digits.len() - zeros,
    {
        zeros = zeros + 1;
    }
    proof {
        lemma_pow2_pos(2_800);
    }
    if zeros == digits.len() {
        proof {
            zeros_in_front_write_nothing(digits@, zeros as int);
            zeros_are_nothing(digits@, typed, kept, places);
        }
        return Some(Binary::zero());
    }
    let reach: i128 = (digits.len() - zeros) as i128 + exponent;
    if reach > MOST_TENS {
        proof {
            many_tens_are_huge(digits@, zeros as int, typed, kept, places);
        }
        return None;
    }
    if reach < -MOST_TENS {
        proof {
            few_tens_are_nothing(digits@, zeros as int, typed, kept, places);
        }
        return Some(Binary::zero());
    }
    assert(exponent == typed);
    let up: u128 = if exponent >= 0 {
        exponent as u128
    } else {
        0
    };
    let down: u128 = if exponent >= 0 {
        0
    } else {
        (-exponent) as u128
    };
    let num = doubled(&tens_up(&natural_of(digits), up), places);
    let den = tens_up(&Natural::from_whole(1), down);
    proof {
        let shown = digits@.skip(zeros as int);
        zeros_in_front_write_nothing(digits@, zeros as int);
        assert(all_digits(shown)) by {
            assert forall|k: int| 0 <= k < shown.len() implies is_digit(#[trigger] shown[k]) by {
                assert(is_digit(digits@[zeros + k]));
            }
        }
        digits_are_bounded(shown);
        let v = decimal_value(digits@);
        let len = shown.len();
        // All of it together is less than ten to the 400, over the denominator.
        tens_add_up(len, up as nat);
        tens_are_positive(up as nat);
        tens_are_positive(down as nat);
        tens_add_up(400, down as nat);
        assert(1 * tens(down as nat) == tens(down as nat));
        let most = 400 + down as nat;
        let there = len + up as nat;
        assert(there <= most);
        tens_add_up(there, (most - there) as nat);
        assert(there + (most - there) as nat == most);
        tens_are_positive((most - there) as nat);
        let x = tens(there) as int;
        let y = tens((most - there) as nat) as int;
        assert(x <= x * y) by (nonlinear_arith)
            requires
                x >= 0,
                y >= 1,
        ;
        tens_lie_between(400);
        let a = tens(len) as int;
        let b = tens(up as nat) as int;
        let d = tens(down as nat) as int;
        let t = tens(400) as int;
        let p = pow2(1_600) as int;
        let u = pow2(places as nat) as int;
        lemma_pow2_pos(places as nat);
        lemma_pow2_adds(1_600, places as nat);
        assert(v * b < t * d) by (nonlinear_arith)
            requires
                v < a,
                b > 0,
                a * b <= t * d,
        ;
        assert((v * b) * u < d * (p * u)) by (nonlinear_arith)
            requires
                v * b < t * d,
                t <= p,
                d > 0,
                u > 0,
        ;
        let k = 1_600 + places as nat;
        rounding_stays_below(num@, den@, kept as nat, k);
        lemma_pow2_strictly_increases(k, 2_800);
        lemma_pow2_strictly_increases(k, REACH as nat);
        let q = pow2(k) as int;
        let r = pow2(REACH as nat) as int;
        assert(d * q <= d * r) by (nonlinear_arith)
            requires
                q <= r,
                d > 0,
        ;
    }
    Some(round(&num, &den, kept))
}

/// An exponent beyond this is beyond any number of digits there can be.
pub const FAR: u128 = 0x1_0000_0000_0000_0000_0000;

/// An exponent as typed: its sign, and its size, held at [`FAR`].
fn read_exponent(s: &Vec<char>) -> (e: Option<(bool, u128)>)
    ensures
        match e {
            Some((negative, size)) => signed(s@) is Some && stands_for(
                negative,
                size,
                signed(s@)->0,
            ),
            None => signed(s@) is None,
        },
{
    let negative: bool = s.len() > 0 && s[0] == '-';
    let from: usize = if s.len() > 0 && (s[0] == '-' || s[0] == '+') {
        1
    } else {
        0
    };
    let digits = part(s, from, s.len());
    assert(digits@ =~= unsigned(s@));
    if digits.len() == 0 || !only_digits(&digits) {
        return None;
    }
    assert(digits@.skip(0) =~= digits@);
    match read_digits(&digits, 0, FAR - 1) {
        Some(size) => Some((negative, size)),
        None => Some((negative, FAR)),
    }
}

/// What comes before the exponent mark, and what comes after it.
fn split_exponent(s: &Vec<char>) -> (halves: Option<(Vec<char>, Vec<char>)>)
    ensures
        match halves {
            Some((a, b)) => split_once(s@, is_exponent_mark()) == Some((a@, b@)),
            None => split_once(s@, is_exponent_mark()) is None,
        },
{
    let ghost p = is_exponent_mark();
    let mut i: usize = 0;
    while i < s.len()
        invariant
            i <= s@.len(),
            p == is_exponent_mark(),
            forall|k: int| 0 <= k < i ==> !p(#[trigger] s@[k]),
        decreases s.len() - i,
    {
        if s[i] == 'e' || s[i] == 'E' {
            proof {
                crate::rows::found_first(s@, p, i as int);
                assert(s@.subrange(0, i as int) =~= s@.take(i as int));
                assert(s@.subrange(i + 1, s@.len() as int) =~= s@.skip(i + 1));
            }
            return Some((part(s, 0, i), part(s, i + 1, s.len())));
        }
        i = i + 1;
    }
    proof {
        crate::rows::found_none(s@, p);
    }
    None
}

/// The digits of a number as typed, how many stand after the point, and its exponent: its sign,
/// and its size, held at [`FAR`].
fn read_number(body: &Vec<char>) -> (r: Option<(Vec<char>, usize, bool, u128)>)
    ensures
        ({
            let (mantissa, exponent) = mantissa_and_exponent(body@);
            let (before, after) = around_point(mantissa);
            let fits = exponent is Some && all_digits(before) && all_digits(after) && before.len()
                + after.len() > 0;
            match r {
                Some((digits, fraction, below, size)) => fits && digits@ == before + after
                    && fraction == after.len() && stands_for(below, size, exponent->0),
                None => !fits,
            }
        }),
{
    let (mantissa, exponent): (Vec<char>, Option<(bool, u128)>) = match split_exponent(body) {
        Some((mantissa, typed)) => (mantissa, read_exponent(&typed)),
        None => (part(body, 0, body.len()), Some((false, 0))),
    };
    assert(mantissa@ =~= mantissa_and_exponent(body@).0);
    let (below, size): (bool, u128) = match exponent {
        Some(e) => e,
        None => {
            return None;
        },
    };
    let (before, after): (Vec<char>, Vec<char>) = match split_at_char(&mantissa, '.') {
        Some((before, after)) => (before, after),
        None => (part(&mantissa, 0, mantissa.len()), Vec::new()),
    };
    assert(before@ =~= around_point(mantissa@).0);
    assert(after@ =~= around_point(mantissa@).1);
    if !only_digits(&before) || !only_digits(&after) {
        return None;
    }
    if before.len() == 0 && after.len() == 0 {
        return None;
    }
    let fraction: usize = after.len();
    let mut digits = before;
    let mut rest = after;
    digits.append(&mut rest);
    Some((digits, fraction, below, size))
}

/// The number typed, in a precision of `kept` binary digits.
pub fn read_amount(s: &Vec<char>, kept: u32, places: u32) -> (r: Option<Reading>)
    requires
        1 <= kept <= 126,
        places <= 1_100,
    ensures
        match r {
            Some(reading) => amount(s@) is Some && reads(reading, amount(s@)->0, kept, places),
            None => amount(s@) is None,
        },
{
    let negative: bool = s.len() > 0 && s[0] == '-';
    let from: usize = if s.len() > 0 && (s[0] == '-' || s[0] == '+') {
        1
    } else {
        0
    };
    assert(s@.skip(0) =~= s@);
    assert(s@.skip(from as int) =~= unsigned(s@));
    if named(s, from, "inf") || named(s, from, "infinity") {
        return Some(Reading::Huge { negative });
    }
    if named(s, from, "nan") {
        return Some(Reading::NotANumber);
    }
    let body = part(s, from, s.len());
    assert(body@ =~= unsigned(s@));
    match read_number(&body) {
        None => None,
        Some((digits, fraction, below, size)) => {
            let ghost exponent = mantissa_and_exponent(body@).1->0 - fraction;
            proof {
                let mantissa = mantissa_and_exponent(body@).0;
                digits_together(around_point(mantissa).0, around_point(mantissa).1);
            }
            let shift: i128 = if below {
                -(size as i128) - fraction as i128
            } else {
                size as i128 - fraction as i128
            };
            match read_size(&digits, shift, Ghost(exponent), kept, places) {
                Some(size) => Some(Reading::Finite { negative, size }),
                None => Some(Reading::Huge { negative }),
            }
        },
    }
}

proof fn digits_together(a: Seq<char>, b: Seq<char>)
    requires
        all_digits(a),
        all_digits(b),
    ensures
        all_digits(a + b),
{
    assert forall|k: int| 0 <= k < (a + b).len() implies is_digit(#[trigger] (a + b)[k]) by {
        if k < a.len() {
            assert(is_digit(a[k]));
        } else {
            assert(is_digit(b[k - a.len()]));
        }
    }
}

/// Whether a sign and a size, held at [`FAR`], stand for the exponent `e`.
pub open spec fn stands_for(below: bool, size: u128, e: int) -> bool {
    &&& size <= FAR
    &&& size < FAR ==> e == if below {
        -(size as int)
    } else {
        size as int
    }
    &&& size == FAR ==> if below {
        e <= -(FAR as int)
    } else {
        e >= FAR
    }
}

/// A double precision number of seconds in milliseconds.
pub open spec fn millis(secs: nat) -> u64 {
    held(double(secs * 1_000, 1) / pow2(DOUBLE_PLACES as nat))
}

/// Seconds as typed, in milliseconds; there are no seconds below none.
pub open spec fn seconds_ms(s: Seq<char>) -> Option<u64> {
    match amount(s) {
        None => None,
        Some(Amount::Finite { negative, digits, exponent }) => {
            let secs = size_of(digits, exponent, DOUBLE_DIGITS, DOUBLE_PLACES);
            if negative && secs > 0 {
                None
            } else {
                Some(millis(secs))
            }
        },
        Some(Amount::Infinite { negative }) => if negative {
            None
        } else {
            Some(u64::MAX)
        },
        Some(Amount::NotANumber) => Some(0),
    }
}

/// More seconds than milliseconds can be counted.
proof fn huge_seconds_are_held(secs: nat)
    requires
        secs >= in_steps(pow2(1_000), DOUBLE_PLACES),
    ensures
        secs > 0,
        millis(secs) == u64::MAX,
{
    let u = pow2(DOUBLE_PLACES as nat);
    lemma_pow2_pos(DOUBLE_PLACES as nat);
    lemma_pow2_pos(1_000);
    lemma2_to64();
    lemma_pow2_adds(1_000, DOUBLE_PLACES as nat);
    lemma_pow2_strictly_increases(64, 1_000);
    assert(secs > 0) by (nonlinear_arith)
        requires
            secs >= pow2(1_000) * u,
            pow2(1_000) > 0,
            u > 0,
    ;
    let v = double(secs * 1_000, 1);
    rounding_stays_above(secs * 1_000, 1, DOUBLE_DIGITS as nat, 1_000 + DOUBLE_PLACES as nat);
    let q = v as int / u as int;
    vstd::arithmetic::div_mod::lemma_fundamental_div_mod(v as int, u as int);
    vstd::arithmetic::div_mod::lemma_mod_bound(v as int, u as int);
    assert(q >= pow2(1_000)) by (nonlinear_arith)
        requires
            v == u * q + v as int % u as int,
            (v as int % u as int) < u,
            v >= pow2(1_000) * u,
            u > 0,
    ;
}

/// Seconds as typed, in milliseconds.
pub fn to_ms(s: &Vec<char>) -> (ms: Option<u64>)
    ensures
        ms == seconds_ms(s@),
{
    match read_amount(s, DOUBLE_DIGITS, DOUBLE_PLACES) {
        None => None,
        Some(Reading::Finite { negative, size }) => {
            proof {
                lemma_pow2_strictly_increases(2_800, SPAN as nat);
            }
            if negative && !size.is_zero() {
                None
            } else {
                Some(size.times(1_000, DOUBLE_DIGITS).whole(DOUBLE_PLACES))
            }
        },
        Some(Reading::Huge { negative }) => {
            proof {
                if let Amount::Finite { digits, exponent, .. } = amount(s@)->0 {
                    huge_seconds_are_held(size_of(digits, exponent, DOUBLE_DIGITS, DOUBLE_PLACES));
                }
            }
            if negative {
                None
            } else {
                Some(u64::MAX)
            }
        },
        Some(Reading::NotANumber) => Some(0),
    }
}

/// Where a seek typed as `s` goes, from `current_ms`: `90` or `1:30` from the start, `+10` or
/// `-10` from where playback is. Seconds throughout.
pub open spec fn sought(s: Seq<char>, current_ms: u64) -> Option<u64> {
    if s.len() > 0 && s[0] == '+' {
        match seconds_ms(trimmed(s.skip(1))) {
            Some(ms) => Some(held((current_ms + ms) as nat)),
            None => None,
        }
    } else if s.len() > 0 && s[0] == '-' {
        match seconds_ms(trimmed(s.skip(1))) {
            Some(ms) => Some(
                if ms > current_ms {
                    0
                } else {
                    (current_ms - ms) as u64
                },
            ),
            None => None,
        }
    } else {
        match split_once(s, is_char(':')) {
            Some((minutes, seconds)) => match (whole(trimmed(minutes)), seconds_ms(trimmed(seconds)))
            {
                (Some(m), Some(ms)) => if m * 60_000 + ms > u64::MAX {
                    None
                } else {
                    Some((m * 60_000 + ms) as u64)
                },
                _ => None,
            },
            None => seconds_ms(s),
        }
    }
}

/// Where a seek typed as `spec` goes, from `current_ms`.
pub fn parse_seek(spec: &str, current_ms: u64) -> (position_ms: Option<u64>)
    ensures
        position_ms == sought(spec@, current_ms),
{
    let s = chars_of(spec);
    if s.len() > 0 && s[0] == '+' {
        let rest = part(&s, 1, s.len());
        assert(rest@ =~= s@.skip(1));
        return match to_ms(&trim(&rest)) {
            Some(ms) => Some(current_ms.saturating_add(ms)),
            None => None,
        };
    }
    if s.len() > 0 && s[0] == '-' {
        let rest = part(&s, 1, s.len());
        assert(rest@ =~= s@.skip(1));
        return match to_ms(&trim(&rest)) {
            Some(ms) => Some(current_ms.saturating_sub(ms)),
            None => None,
        };
    }
    match split_at_char(&s, ':') {
        Some((minutes, seconds)) => {
            let m = read_whole(&trim(&minutes), u64::MAX);
            let ms = to_ms(&trim(&seconds));
            match (m, ms) {
                (Some(m), Some(ms)) => {
                    let at: u128 = m as u128 * 60_000 + ms as u128;
                    if at > u64::MAX as u128 {
                        None
                    } else {
                        Some(at as u64)
                    }
                },
                _ => None,
            }
        },
        None => to_ms(&s),
    }
}

/// The single precision number typed as `s`, by its bits.
pub open spec fn typed_single(s: Seq<char>) -> Option<u32> {
    match amount(s) {
        None => None,
        Some(Amount::Finite { negative, digits, exponent }) => Some(
            single::signed(
                negative,
                single::bits_of(size_of(digits, exponent, SINGLE_DIGITS, SINGLE_PLACES)),
            ),
        ),
        Some(Amount::Infinite { negative }) => Some(single::signed(negative, INFINITE)),
        Some(Amount::NotANumber) => Some(NOT_A_NUMBER),
    }
}

/// The single precision number typed as `s`, by its bits.
fn read_single(s: &Vec<char>) -> (bits: Option<u32>)
    ensures
        bits == typed_single(s@),
{
    match read_amount(s, SINGLE_DIGITS, SINGLE_PLACES) {
        None => None,
        Some(Reading::Finite { negative, size }) => Some(
            single::with_sign(negative, single::bits_of_size(&size)),
        ),
        Some(Reading::Huge { negative }) => {
            proof {
                if let Amount::Finite { digits, exponent, .. } = amount(s@)->0 {
                    lemma_pow2_adds(1_000, SINGLE_PLACES as nat);
                    lemma_pow2_strictly_increases(300, 1_000 + SINGLE_PLACES as nat);
                    single::huge_is_infinite(
                        size_of(digits, exponent, SINGLE_DIGITS, SINGLE_PLACES),
                    );
                }
            }
            Some(single::with_sign(negative, INFINITE))
        },
        Some(Reading::NotANumber) => Some(NOT_A_NUMBER),
    }
}

/// The volume typed as `s`, from `current`: `60` percent of full scale, or `+10` or `-10` percent
/// from where it is, held between silence and full scale.
pub open spec fn typed_volume(s: Seq<char>, current: Volume) -> Option<Volume> {
    let spec = trimmed(s);
    let relative = spec.len() > 0 && (spec[0] == '+' || spec[0] == '-');
    match typed_single(spec) {
        None => None,
        Some(percent) => Some(
            Volume {
                bits: if relative {
                    single::sum(current.bits, single::share(percent, 100))
                } else {
                    single::share(percent, 100)
                },
            }.clamped(),
        ),
    }
}

/// The volume typed as `spec`, from `current`.
pub fn parse_volume(spec: &str, current: Volume) -> (volume: Option<Volume>)
    ensures
        volume == typed_volume(spec@, current),
{
    let typed = trim(&chars_of(spec));
    let relative: bool = typed.len() > 0 && (typed[0] == '+' || typed[0] == '-');
    match read_single(&typed) {
        None => None,
        Some(percent) => {
            let part: u32 = single::divided(percent, 100);
            let bits: u32 = if relative {
                single::plus(current.bits, part)
            } else {
                part
            };
            Some(Volume { bits }.clamp())
        },
    }
}

/// Seeking back never goes past the start of the track.
pub proof fn seeking_back_stops_at_the_start(s: Seq<char>, current_ms: u64)
    requires
        s.len() > 0,
        s[0] == '-',
        sought(s, current_ms) is Some,
    ensures
        sought(s, current_ms)->0 <= current_ms,
{
}

/// Whatever is typed, the volume stays between silence and full scale, unless it is no number.
pub proof fn a_typed_volume_is_in_range(s: Seq<char>, current: Volume)
    requires
        typed_volume(s, current) is Some,
    ensures
        ({
            let size = single::magnitude(typed_volume(s, current)->0.bits);
            size <= FULL_VOLUME || size > INFINITE
        }),
        typed_volume(s, current)->0.clamped() == typed_volume(s, current)->0,
{
}

/// Whole seconds are read as they are typed, up to nine quadrillion milliseconds.
pub proof fn whole_seconds_are_read_exactly(s: Seq<char>)
    requires
        s.len() > 0,
        all_digits(s),
        decimal_value(s) * 1_000 < pow2(DOUBLE_DIGITS as nat),
    ensures
        seconds_ms(s) == Some((decimal_value(s) * 1_000) as u64),
{
    let n = decimal_value(s);
    a_whole_number_is_finite(s);
    assert(tens(0) == 1);
    assert(n * 1 == n);
    let u = pow2(DOUBLE_PLACES as nat) as int;
    what_fits_is_exact(n, DOUBLE_DIGITS as nat, DOUBLE_PLACES as nat);
    what_fits_is_exact(n * 1_000, DOUBLE_DIGITS as nat, DOUBLE_PLACES as nat);
    assert((n * u) * 1_000 == (n * 1_000) * u) by (nonlinear_arith);
    lemma_pow2_pos(DOUBLE_PLACES as nat);
    vstd::arithmetic::div_mod::lemma_div_multiples_vanish((n * 1_000) as int, u);
    assert(u * (n * 1_000) == (n * 1_000) * u) by (nonlinear_arith);
    lemma2_to64();
    lemma_pow2_strictly_increases(DOUBLE_DIGITS as nat, 64);
}

/// A whole number is read as the digits that write it.
proof fn a_whole_number_is_finite(s: Seq<char>)
    requires
        s.len() > 0,
        all_digits(s),
    ensures
        amount(s) == Some(Amount::Finite { negative: false, digits: s, exponent: 0 }),
{
    assert(is_digit(s[0]));
    assert(unsigned(s) == s);
    assert(!is_negative(s));
    assert(!same_but_case(s, "inf"@) && !same_but_case(s, "infinity"@) && !same_but_case(
        s,
        "nan"@,
    )) by {
        reveal_strlit("inf");
        reveal_strlit("infinity");
        reveal_strlit("nan");
        assert(folded(s[0]) == s[0]);
        assert(folded("inf"@[0]) == 'i');
        assert(folded("infinity"@[0]) == 'i');
        assert(folded("nan"@[0]) == 'n');
    }
    crate::rows::found_none(s, is_exponent_mark());
    crate::rows::found_none(s, is_char('.'));
    assert(s + Seq::empty() =~= s);
}

/// A volume typed as so many per cent is the number nearest to that share of full scale, whatever
/// the volume was.
pub proof fn a_typed_percentage_is_that_share_of_full(s: Seq<char>, current: Volume, other: u32)
    requires
        s.len() > 0,
        all_digits(s),
        decimal_value(s) <= 100,
        other < INFINITE,
    ensures
        ({
            let percent = decimal_value(s);
            let volume = typed_volume(s, current)->0.bits;
            let off = single::steps_of(volume) * 100 - percent * single::steps_of(0x3f80_0000);
            let other_off = single::steps_of(other) * 100 - percent * single::steps_of(0x3f80_0000);
            &&& typed_volume(s, current) is Some
            &&& volume <= 0x3f80_0000
            &&& volume == single::share(typed_single(s)->0, 100)
            &&& (if off >= 0 {
                off
            } else {
                -off
            }) <= (if other_off >= 0 {
                other_off
            } else {
                -other_off
            })
        }),
{
    let n = decimal_value(s);
    a_whole_number_is_finite(s);
    assert(is_digit(s[0]) && is_digit(s[s.len() - 1]));
    assert(trimmed(s) == s);
    single::full_scale_in_steps();
    lemma2_to64();
    lemma_pow2_pos(149);
    let u = pow2(149) as int;
    // What is typed is what is read.
    assert(tens(0) == 1);
    assert(n * 1 == n);
    what_fits_is_exact(n, SINGLE_DIGITS as nat, SINGLE_PLACES as nat);
    let steps = n * pow2(149);
    assert(crate::binary::single(steps, 1) == steps);
    lemma_pow2_adds(7, 149);
    lemma_pow2_strictly_increases(156, 160);
    assert(steps < pow2(160)) by (nonlinear_arith)
        requires
            steps == n * u,
            n <= 100,
            pow2(156) == 128 * u,
            pow2(156) < pow2(160),
            u > 0,
    ;
    single::what_is_small_is_finite(steps);
    single::rounded_bits_stand_for_the_number(steps, 1);
    let typed = single::bits_of(steps);
    assert(typed_single(s) == Some(typed));
    assert(single::steps_of(typed) == steps);
    // A hundredth of it is no more than full scale.
    let part = crate::binary::single(steps, 100);
    if n < 100 {
        assert(steps < 100 * u) by (nonlinear_arith)
            requires
                steps == n * u,
                n < 100,
                u > 0,
        ;
        rounding_stays_below(steps, 100, SINGLE_DIGITS as nat, 149);
    } else {
        let one = pow2(23);
        lemma_pow2_adds(23, 126);
        crate::binary::rounding_gives_the_nearest(steps, 100, SINGLE_DIGITS as nat, one, 126);
    }
    assert(part <= pow2(149));
    lemma_pow2_strictly_increases(149, 160);
    single::what_is_small_is_finite(part);
    single::rounded_bits_stand_for_the_number(steps, 100);
    let bits = single::share(typed, 100);
    assert(bits == single::bits_of(part));
    if 0x3f80_0000 < bits {
        single::sizes_are_in_order(0x3f80_0000, bits);
    }
    single::a_share_is_the_nearest_there_is(typed, 100, other);
}

/// A volume typed with a sign is the share of full scale that it names, added to the volume there
/// is or taken from it, and held in range.
pub proof fn a_signed_percentage_moves_the_volume(s: Seq<char>, current: Volume)
    requires
        s.len() > 0,
        all_digits(s),
        decimal_value(s) <= 100,
    ensures
        ({
            let share = typed_volume(s, current)->0.bits;
            &&& typed_volume(seq!['+'] + s, current) == Some(
                Volume { bits: single::sum(current.bits, share) }.clamped(),
            )
            &&& typed_volume(seq!['-'] + s, current) == Some(
                Volume { bits: single::sum(current.bits, single::negated(share)) }.clamped(),
            )
        }),
{
    a_typed_percentage_is_that_share_of_full(s, current, 0);
    a_whole_number_is_finite(s);
    assert(is_digit(s[0]) && is_digit(s[s.len() - 1]));
    let (more, less) = (seq!['+'] + s, seq!['-'] + s);
    assert(more.skip(1) =~= s && less.skip(1) =~= s);
    assert(more.last() == s.last() && less.last() == s.last());
    assert(trimmed(more) == more && trimmed(less) == less && trimmed(s) == s);
    assert(amount(more) == Some(Amount::Finite { negative: false, digits: s, exponent: 0 }));
    assert(amount(less) == Some(Amount::Finite { negative: true, digits: s, exponent: 0 }));
    let size = single::bits_of(size_of(s, 0, SINGLE_DIGITS, SINGLE_PLACES));
    typed_sizes_are_finite(s);
    assert(typed_single(s) == Some(size));
    assert(typed_single(less) == Some((size + single::SIGN) as u32));
    let share = single::share(size, 100);
    assert(single::share((size + single::SIGN) as u32, 100) == single::negated(share));
}

proof fn typed_sizes_are_finite(s: Seq<char>)
    requires
        all_digits(s),
        decimal_value(s) <= 100,
    ensures
        ({
            let steps = size_of(s, 0, SINGLE_DIGITS, SINGLE_PLACES);
            &&& single::bits_of(steps) < INFINITE
            &&& single::share(single::bits_of(steps), 100) < INFINITE
        }),
{
    let n = decimal_value(s);
    lemma2_to64();
    lemma_pow2_pos(149);
    let u = pow2(149) as int;
    assert(tens(0) == 1);
    assert(n * 1 == n);
    what_fits_is_exact(n, SINGLE_DIGITS as nat, SINGLE_PLACES as nat);
    let steps = n * pow2(149);
    lemma_pow2_adds(7, 149);
    lemma_pow2_strictly_increases(156, 160);
    assert(steps < pow2(160) && steps < 100 * pow2(156)) by (nonlinear_arith)
        requires
            steps == n * u,
            n <= 100,
            pow2(156) == 128 * u,
            pow2(156) < pow2(160),
            u > 0,
    ;
    single::what_is_small_is_finite(steps);
    single::rounded_bits_stand_for_the_number(steps, 1);
    rounding_stays_below(steps, 100, SINGLE_DIGITS as nat, 156);
    single::what_is_small_is_finite(crate::binary::single(steps, 100));
}

} // verus!
