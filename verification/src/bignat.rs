//! Natural numbers of unbounded size, held as little-endian 64-bit limbs.
//!
//! Only what exact fraction arithmetic needs is offered: scaling by a machine
//! word, addition and comparison.

use vstd::arithmetic::div_mod::{
    lemma_div_is_ordered, lemma_div_multiples_vanish, lemma_fundamental_div_mod_converse,
};
use vstd::prelude::*;

verus! {

/// The radix of a limb, `2^64`.
spec fn radix() -> nat {
    0x1_0000_0000_0000_0000
}

/// `radix()` raised to the power `i`: the weight of limb `i`.
spec fn weight(i: nat) -> nat
    decreases i,
{
    if i == 0 {
        1
    } else {
        radix() * weight((i - 1) as nat)
    }
}

/// Limb `i` of `s`; zero past the end.
spec fn limb(s: Seq<u64>, i: nat) -> nat {
    if i < s.len() {
        s[i as int] as nat
    } else {
        0
    }
}

/// The number that the lowest `n` limbs of `s` stand for.
spec fn low_value(s: Seq<u64>, n: nat) -> nat
    decreases n,
{
    if n == 0 {
        0
    } else {
        low_value(s, (n - 1) as nat) + limb(s, (n - 1) as nat) * weight((n - 1) as nat)
    }
}

/// The number that the limbs `s` stand for.
spec fn limbs_value(s: Seq<u64>) -> nat {
    low_value(s, s.len())
}

/// The lowest `n` limbs stand for a number below `weight(n)`.
proof fn lemma_low_value_bound(s: Seq<u64>, n: nat)
    ensures
        low_value(s, n) < weight(n),
    decreases n,
{
    if n > 0 {
        let m: nat = (n - 1) as nat;
        lemma_low_value_bound(s, m);
        let w: nat = weight(m);
        let x: nat = limb(s, m);
        assert(x <= radix() - 1);
        assert(x * w <= (radix() - 1) * w) by (nonlinear_arith)
            requires
                x <= radix() - 1,
        ;
        assert((radix() - 1) * w == radix() * w - w) by (nonlinear_arith);
    }
}

/// Past the end of `s` every limb is zero, so nothing is added there.
proof fn lemma_low_value_past_end(s: Seq<u64>, n: nat)
    requires
        n >= s.len(),
    ensures
        low_value(s, n) == limbs_value(s),
    decreases n,
{
    if n > s.len() {
        lemma_low_value_past_end(s, (n - 1) as nat);
        assert(limb(s, (n - 1) as nat) == 0);
        assert(0 * weight((n - 1) as nat) == 0);
    }
}

/// A limb pushed on top leaves the lower limbs as they were.
proof fn lemma_low_value_push(s: Seq<u64>, x: u64, n: nat)
    requires
        n <= s.len(),
    ensures
        low_value(s.push(x), n) == low_value(s, n),
    decreases n,
{
    if n > 0 {
        lemma_low_value_push(s, x, (n - 1) as nat);
        assert(limb(s.push(x), (n - 1) as nat) == limb(s, (n - 1) as nat));
    }
}

/// A limb pushed on top adds its value times the weight of its place.
proof fn lemma_limbs_value_push(s: Seq<u64>, x: u64)
    ensures
        limbs_value(s.push(x)) == limbs_value(s) + x * weight(s.len()),
{
    lemma_low_value_push(s, x, s.len());
    assert(limb(s.push(x), s.len()) == x as nat);
}

/// Where two limb sequences agree from place `i` up to `n`, their low values
/// at `n` differ by what their low values at `i` differ by.
proof fn lemma_equal_high_limbs(a: Seq<u64>, b: Seq<u64>, i: nat, n: nat)
    requires
        i <= n,
        forall|j: nat| i <= j < n ==> limb(a, j) == limb(b, j),
    ensures
        low_value(a, n) - low_value(a, i) == low_value(b, n) - low_value(b, i),
    decreases n,
{
    if n > i {
        lemma_equal_high_limbs(a, b, i, (n - 1) as nat);
        assert(limb(a, (n - 1) as nat) == limb(b, (n - 1) as nat));
    }
}

/// A natural number of unbounded size.
pub struct BigNat {
    limbs: Vec<u64>,
}

impl View for BigNat {
    type V = nat;

    closed spec fn view(&self) -> nat {
        limbs_value(self.limbs@)
    }
}

impl BigNat {
    /// The number `x`.
    pub fn from_u64(x: u64) -> (r: BigNat)
        ensures
            r@ == x,
    {
        let mut limbs: Vec<u64> = Vec::new();
        limbs.push(x);
        proof {
            lemma_limbs_value_push(Seq::<u64>::empty(), x);
            assert(limbs@ =~= Seq::<u64>::empty().push(x));
            assert(x * weight(0) == x) by (nonlinear_arith)
                requires
                    weight(0) == 1,
            ;
        }
        BigNat { limbs }
    }

    /// `self` times `m`.
    pub fn scale(&self, m: u64) -> (r: BigNat)
        ensures
            r@ == self@ * m,
    {
        let n: usize = self.limbs.len();
        let mut out: Vec<u64> = Vec::new();
        let mut carry: u64 = 0;
        let mut i: usize = 0;
        assert(low_value(self.limbs@, 0) * m == 0) by (nonlinear_arith)
            requires
                low_value(self.limbs@, 0) == 0,
        ;
        while i < n
            invariant
                n == self.limbs.len(),
                i <= n,
                out@.len() == i,
                limbs_value(out@) + carry * weight(i as nat) == low_value(self.limbs@, i as nat)
                    * m,
            decreases n - i,
        {
            let x: u64 = self.limbs[i];
            assert(x * m + carry <= 0xffff_ffff_ffff_ffff * 0x1_0000_0000_0000_0000) by (nonlinear_arith)
                requires
                    x <= 0xffff_ffff_ffff_ffff,
                    m <= 0xffff_ffff_ffff_ffff,
                    carry <= 0xffff_ffff_ffff_ffff,
            ;
            let t: u128 = x as u128 * m as u128 + carry as u128;
            let lo: u64 = (t % 0x1_0000_0000_0000_0000u128) as u64;
            let hi: u64 = (t / 0x1_0000_0000_0000_0000u128) as u64;
            proof {
                let w: nat = weight(i as nat);
                let before: nat = limbs_value(out@);
                let low: nat = low_value(self.limbs@, i as nat);
                lemma_limbs_value_push(out@, lo);
                assert(limb(self.limbs@, i as nat) == x as nat);
                assert(weight((i + 1) as nat) == radix() * w);
                assert(before + lo * w + hi * (radix() * w) == (low + x * w) * m) by (nonlinear_arith)
                    requires
                        before + carry * w == low * m,
                        lo + hi * radix() == x * m + carry,
                ;
            }
            out.push(lo);
            carry = hi;
            i = i + 1;
        }
        if carry != 0 {
            proof {
                lemma_limbs_value_push(out@, carry);
            }
            out.push(carry);
        }
        BigNat { limbs: out }
    }

    /// `self` plus `other`.
    pub fn sum(&self, other: &BigNat) -> (r: BigNat)
        ensures
            r@ == self@ + other@,
    {
        let la: usize = self.limbs.len();
        let lb: usize = other.limbs.len();
        let n: usize = if la < lb {
            lb
        } else {
            la
        };
        let mut out: Vec<u64> = Vec::new();
        let mut carry: u64 = 0;
        let mut i: usize = 0;
        while i < n
            invariant
                la == self.limbs.len(),
                lb == other.limbs.len(),
                la <= n,
                lb <= n,
                i <= n,
                out@.len() == i,
                carry <= 1,
                limbs_value(out@) + carry * weight(i as nat) == low_value(self.limbs@, i as nat)
                    + low_value(other.limbs@, i as nat),
            decreases n - i,
        {
            let x: u64 = if i < la {
                self.limbs[i]
            } else {
                0
            };
            let y: u64 = if i < lb {
                other.limbs[i]
            } else {
                0
            };
            let t: u128 = x as u128 + y as u128 + carry as u128;
            let lo: u64 = (t % 0x1_0000_0000_0000_0000u128) as u64;
            let hi: u64 = (t / 0x1_0000_0000_0000_0000u128) as u64;
            proof {
                let w: nat = weight(i as nat);
                let before: nat = limbs_value(out@);
                lemma_limbs_value_push(out@, lo);
                assert(limb(self.limbs@, i as nat) == x as nat);
                assert(limb(other.limbs@, i as nat) == y as nat);
                assert(weight((i + 1) as nat) == radix() * w);
                assert(before + lo * w + hi * (radix() * w) == before + carry * w + x * w + y * w)
                    by (nonlinear_arith)
                    requires
                        lo + hi * radix() == x + y + carry,
                ;
            }
            out.push(lo);
            carry = hi;
            i = i + 1;
        }
        proof {
            lemma_low_value_past_end(self.limbs@, n as nat);
            lemma_low_value_past_end(other.limbs@, n as nat);
        }
        if carry != 0 {
            proof {
                lemma_limbs_value_push(out@, carry);
            }
            out.push(carry);
        }
        BigNat { limbs: out }
    }

    /// Whether `self` is less than or equal to `other`.
    pub fn at_most(&self, other: &BigNat) -> (b: bool)
        ensures
            b == (self@ <= other@),
    {
        let la: usize = self.limbs.len();
        let lb: usize = other.limbs.len();
        let n: usize = if la < lb {
            lb
        } else {
            la
        };
        proof {
            lemma_low_value_past_end(self.limbs@, n as nat);
            lemma_low_value_past_end(other.limbs@, n as nat);
        }
        let mut i: usize = n;
        while i > 0
            invariant
                la == self.limbs.len(),
                lb == other.limbs.len(),
                i <= n,
                forall|j: nat| i <= j < n ==> limb(self.limbs@, j) == limb(other.limbs@, j),
                low_value(self.limbs@, n as nat) == self@,
                low_value(other.limbs@, n as nat) == other@,
            decreases i,
        {
            i = i - 1;
            let x: u64 = if i < la {
                self.limbs[i]
            } else {
                0
            };
            let y: u64 = if i < lb {
                other.limbs[i]
            } else {
                0
            };
            if x != y {
                proof {
                    let a: Seq<u64> = self.limbs@;
                    let b: Seq<u64> = other.limbs@;
                    let w: nat = weight(i as nat);
                    lemma_equal_high_limbs(a, b, (i + 1) as nat, n as nat);
                    lemma_low_value_bound(a, i as nat);
                    lemma_low_value_bound(b, i as nat);
                    assert(limb(a, i as nat) == x as nat);
                    assert(limb(b, i as nat) == y as nat);
                    if x < y {
                        assert(y * w - x * w >= w) by (nonlinear_arith)
                            requires
                                x < y,
                        ;
                    } else {
                        assert(x * w - y * w >= w) by (nonlinear_arith)
                            requires
                                y < x,
                        ;
                    }
                }
                return x < y;
            }
        }
        proof {
            lemma_equal_high_limbs(self.limbs@, other.limbs@, 0, n as nat);
        }
        true
    }

    /// `self` divided by `divisor`, rounded down, but no more than `cap`.
    /// There is no quotient by zero.
    pub fn quotient_capped(&self, divisor: &BigNat, cap: u64) -> (r: Option<u64>)
        ensures
            divisor@ == 0 <==> r is None,
            divisor@ > 0 ==> r == Some(
                if self@ / divisor@ < cap {
                    (self@ / divisor@) as u64
                } else {
                    cap
                },
            ),
    {
        let zero = BigNat::from_u64(0);
        if divisor.at_most(&zero) {
            return None;
        }
        let mut k: u64 = 0;
        assert(divisor@ * 0 == 0);
        while k < cap
            invariant
                k <= cap,
                divisor@ > 0,
                divisor@ * k <= self@,
            decreases cap - k,
        {
            let next = divisor.scale(k + 1);
            if !next.at_most(self) {
                proof {
                    let d: int = divisor@ as int;
                    let x: int = self@ as int;
                    assert(d * (k + 1) == d * k + d) by (nonlinear_arith);
                    assert(d * k == k * d) by (nonlinear_arith);
                    lemma_fundamental_div_mod_converse(x, d, k as int, x - k * d);
                }
                return Some(k);
            }
            k = k + 1;
        }
        proof {
            let d: int = divisor@ as int;
            lemma_div_multiples_vanish(cap as int, d);
            lemma_div_is_ordered(d * cap, self@ as int, d);
        }
        Some(cap)
    }
}

} // verus!
