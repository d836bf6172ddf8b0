//! Natural numbers of any size.

use vstd::prelude::*;

verus! {

/// What a limb in the place `n` counts: two to the 32, `n` times over.
pub open spec fn weight(n: nat) -> nat
    decreases n,
{
    if n == 0 {
        1
    } else {
        weight((n - 1) as nat) * 0x1_0000_0000
    }
}

/// The number that limbs write, least significant first.
pub open spec fn limbs_value(limbs: Seq<u32>) -> nat
    decreases limbs.len(),
{
    if limbs.len() == 0 {
        0
    } else {
        limbs_value(limbs.drop_last()) + limbs.last() as nat * weight((limbs.len() - 1) as nat)
    }
}

/// A natural number, held in limbs of 32 bits.
#[derive(Debug)]
pub struct Natural {
    limbs: Vec<u32>,
}

impl View for Natural {
    type V = nat;

    closed spec fn view(&self) -> nat {
        limbs_value(self.limbs@)
    }
}

/// The limb in the place `i`; there is nothing above the highest.
spec fn limb(limbs: Seq<u32>, i: int) -> nat {
    if i < limbs.len() {
        limbs[i] as nat
    } else {
        0
    }
}

/// What the lowest `i` limbs write.
spec fn lowest(limbs: Seq<u32>, i: int) -> nat {
    if i < limbs.len() {
        limbs_value(limbs.take(i))
    } else {
        limbs_value(limbs)
    }
}

proof fn one_limb_more(limbs: Seq<u32>, i: int)
    requires
        i >= 0,
    ensures
        lowest(limbs, i + 1) == lowest(limbs, i) + limb(limbs, i) * weight(i as nat),
        lowest(limbs, 0) == 0,
{
    assert(limbs_value(limbs.take(0)) == 0);
    if i < limbs.len() {
        let more = limbs.take(i + 1);
        assert(more.drop_last() =~= limbs.take(i));
        assert(more.last() == limbs[i]);
        if i + 1 == limbs.len() {
            assert(more =~= limbs);
        }
    } else {
        assert(0nat * weight(i as nat) == 0) by (nonlinear_arith);
    }
}

proof fn a_limb_pushed(limbs: Seq<u32>, top: u32)
    ensures
        limbs_value(limbs.push(top)) == limbs_value(limbs) + top as nat * weight(limbs.len()),
{
    assert(limbs.push(top).drop_last() =~= limbs);
}

proof fn limbs_are_bounded(limbs: Seq<u32>)
    ensures
        limbs_value(limbs) < weight(limbs.len()),
    decreases limbs.len(),
{
    if limbs.len() > 0 {
        limbs_are_bounded(limbs.drop_last());
        let w = weight((limbs.len() - 1) as nat) as int;
        let top = limbs.last() as int;
        assert(top * w + w <= w * 0x1_0000_0000) by (nonlinear_arith)
            requires
                0 <= top <= 0xffff_ffff,
                w >= 0,
        ;
    }
}

impl Natural {
    pub fn zero() -> (n: Natural)
        ensures
            n@ == 0,
    {
        Natural { limbs: Vec::new() }
    }

    /// This number `k` times over, and `c`.
    pub fn times_plus(&self, k: u32, c: u32) -> (r: Natural)
        ensures
            r@ == self@ * k + c,
    {
        let mut out: Vec<u32> = Vec::new();
        let mut carry: u64 = c as u64;
        let mut i: usize = 0;
        let ghost s = self.limbs@;
        proof {
            one_limb_more(s, 0);
            assert(0nat * k == 0) by (nonlinear_arith);
            assert(carry as nat * weight(0) == c) by {
                assert(weight(0) == 1);
            }
        }
        while i < self.limbs.len()
            invariant
                i <= s.len(),
                s == self.limbs@,
                out@.len() == i,
                carry <= 0xffff_ffff,
                lowest(s, i as int) * k + c == limbs_value(out@) + carry as nat * weight(i as nat),
            decreases self.limbs.len() - i,
        {
            let here: u64 = self.limbs[i] as u64;
            let factor: u64 = k as u64;
            assert(here * factor + carry <= 0xffff_ffff_ffff_ffff) by (nonlinear_arith)
                requires
                    here <= 0xffff_ffff,
                    factor <= 0xffff_ffff,
                    carry <= 0xffff_ffff,
            ;
            assert(here * factor >= 0) by (nonlinear_arith);
            let t: u64 = here * factor + carry;
            let digit: u32 = (t % 0x1_0000_0000) as u32;
            proof {
                one_limb_more(s, i as int);
                a_limb_pushed(out@, digit);
                let w = weight(i as nat) as int;
                let low = lowest(s, i as int) as int;
                let done = limbs_value(out@) as int;
                let up = (t / 0x1_0000_0000) as int;
                assert(weight((i + 1) as nat) == w * 0x1_0000_0000);
                assert((low + here * w) * k + c == (done + digit * w) + up * (w * 0x1_0000_0000))
                    by (nonlinear_arith)
                    requires
                        low * k + c == done + carry * w,
                        here * factor + carry == digit + up * 0x1_0000_0000,
                        factor == k,
                ;
            }
            out.push(digit);
            carry = t / 0x1_0000_0000;
            i = i + 1;
        }
        if carry > 0 {
            proof {
                a_limb_pushed(out@, carry as u32);
            }
            out.push(carry as u32);
        } else {
            assert(0nat * weight(i as nat) == 0) by (nonlinear_arith);
        }
        Natural { limbs: out }
    }

    /// The number `n` as such.
    pub fn from_whole(n: u128) -> (r: Natural)
        ensures
            r@ == n,
    {
        let mut out: Vec<u32> = Vec::new();
        let mut rest: u128 = n;
        assert(rest as nat * weight(0) == rest as nat) by (nonlinear_arith)
            requires
                weight(0) == 1,
        ;
        while rest > 0
            invariant
                n == limbs_value(out@) + rest as nat * weight(out@.len()),
            decreases rest,
        {
            let digit: u32 = (rest % 0x1_0000_0000) as u32;
            proof {
                a_limb_pushed(out@, digit);
                let w = weight(out@.len()) as int;
                let up = (rest / 0x1_0000_0000) as int;
                assert(weight((out@.len() + 1) as nat) == w * 0x1_0000_0000);
                assert(rest * w == digit * w + up * (w * 0x1_0000_0000)) by (nonlinear_arith)
                    requires
                        rest == digit + up * 0x1_0000_0000,
                ;
            }
            out.push(digit);
            rest = rest / 0x1_0000_0000;
        }
        assert(0nat * weight(out@.len()) == 0) by (nonlinear_arith);
        Natural { limbs: out }
    }

    fn limb_at(&self, i: usize) -> (d: u32)
        ensures
            d == limb(self.limbs@, i as int),
    {
        if i < self.limbs.len() {
            self.limbs[i]
        } else {
            0
        }
    }

    /// The two numbers together.
    pub fn plus(&self, other: &Natural) -> (r: Natural)
        ensures
            r@ == self@ + other@,
    {
        let mut out: Vec<u32> = Vec::new();
        let mut carry: u64 = 0;
        let mut i: usize = 0;
        let ghost a = self.limbs@;
        let ghost b = other.limbs@;
        proof {
            one_limb_more(a, 0);
            one_limb_more(b, 0);
            assert(0nat * weight(0) == 0) by (nonlinear_arith);
        }
        while i < self.limbs.len() || i < other.limbs.len()
            invariant
                a == self.limbs@,
                b == other.limbs@,
                i <= a.len() || i <= b.len(),
                out@.len() == i,
                carry <= 1,
                lowest(a, i as int) + lowest(b, i as int) == limbs_value(out@) + carry as nat
                    * weight(i as nat),
            decreases (if a.len() > b.len() {
                    a.len()
                } else {
                    b.len()
                }) - i,
        {
            let x: u64 = self.limb_at(i) as u64;
            let y: u64 = other.limb_at(i) as u64;
            let t: u64 = x + y + carry;
            let digit: u32 = (t % 0x1_0000_0000) as u32;
            proof {
                one_limb_more(a, i as int);
                one_limb_more(b, i as int);
                a_limb_pushed(out@, digit);
                let w = weight(i as nat) as int;
                let up = (t / 0x1_0000_0000) as int;
                assert(weight((i + 1) as nat) == w * 0x1_0000_0000);
                assert(x * w + y * w + carry * w == digit * w + up * (w * 0x1_0000_0000))
                    by (nonlinear_arith)
                    requires
                        x + y + carry == digit + up * 0x1_0000_0000,
                ;
            }
            out.push(digit);
            carry = t / 0x1_0000_0000;
            i = i + 1;
        }
        if carry > 0 {
            proof {
                a_limb_pushed(out@, 1);
                assert(1nat * weight(i as nat) == carry as nat * weight(i as nat));
            }
            out.push(1);
        } else {
            assert(0nat * weight(i as nat) == 0) by (nonlinear_arith);
        }
        Natural { limbs: out }
    }

    /// What is left of this number once `other` is taken off; nothing where `other` is more.
    pub fn minus(&self, other: &Natural) -> (r: Option<Natural>)
        ensures
            match r {
                Some(left) => left@ + other@ == self@,
                None => self@ < other@,
            },
    {
        let mut out: Vec<u32> = Vec::new();
        let mut borrow: u64 = 0;
        let mut i: usize = 0;
        let ghost a = self.limbs@;
        let ghost b = other.limbs@;
        proof {
            one_limb_more(a, 0);
            one_limb_more(b, 0);
            assert(0nat * weight(0) == 0) by (nonlinear_arith);
        }
        while i < self.limbs.len() || i < other.limbs.len()
            invariant
                a == self.limbs@,
                b == other.limbs@,
                i <= a.len() || i <= b.len(),
                out@.len() == i,
                borrow <= 1,
                lowest(a, i as int) + borrow as nat * weight(i as nat) == limbs_value(out@)
                    + lowest(b, i as int),
            decreases (if a.len() > b.len() {
                    a.len()
                } else {
                    b.len()
                }) - i,
        {
            let x: u64 = self.limb_at(i) as u64;
            let y: u64 = other.limb_at(i) as u64;
            let t: u64 = 0x1_0000_0000 + x - y - borrow;
            let digit: u32 = (t % 0x1_0000_0000) as u32;
            let short: u64 = if t < 0x1_0000_0000 {
                1
            } else {
                0
            };
            proof {
                one_limb_more(a, i as int);
                one_limb_more(b, i as int);
                a_limb_pushed(out@, digit);
                let w = weight(i as nat) as int;
                assert(weight((i + 1) as nat) == w * 0x1_0000_0000);
                assert(digit + 0x1_0000_0000 * (1 - short) == t);
                assert(x * w + short * (w * 0x1_0000_0000) == digit * w + y * w + borrow * w)
                    by (nonlinear_arith)
                    requires
                        0x1_0000_0000 + x - y - borrow == digit + 0x1_0000_0000 * (1 - short),
                ;
            }
            out.push(digit);
            borrow = short;
            i = i + 1;
        }
        proof {
            limbs_are_bounded(out@);
            assert(0nat * weight(i as nat) == 0) by (nonlinear_arith);
            assert(1nat * weight(i as nat) == weight(i as nat));
        }
        if borrow > 0 {
            None
        } else {
            Some(Natural { limbs: out })
        }
    }
}

} // verus!
