//! Numbers as a computer rounds them: 53 binary digits, the nearest of them, ties to the even one.

use vstd::arithmetic::power2::*;
use vstd::prelude::*;

verus! {

/// The least number of 53 binary digits: `2^52`.
pub const LEAST: u64 = 0x10_0000_0000_0000;

/// A number that is not negative: `mantissa * 2^exponent`.
///
/// The mantissa has 53 binary digits, or the number is zero and so is the exponent.
#[derive(Debug, Clone, Copy, PartialEq, Eq)]
pub struct Double {
    pub mantissa: u64,
    pub exponent: i64,
}

impl View for Double {
    type V = (nat, int);

    open spec fn view(&self) -> (nat, int) {
        (self.mantissa as nat, self.exponent as int)
    }
}

/// The number `n / d * 2^e`, written with a numerator that is doubled until the quotient has 53
/// binary digits or more.
pub open spec fn raised(n: nat, d: nat, e: int) -> (nat, nat, int)
    decreases 0x20_0000_0000_0000 * d - n,
{
    if 0 < n && n < 0x10_0000_0000_0000 * d {
        raised(2 * n, d, e - 1)
    } else {
        (n, d, e)
    }
}

/// The number `n / d * 2^e`, written with a denominator that is doubled until the quotient has 53
/// binary digits or fewer.
pub open spec fn lowered(n: nat, d: nat, e: int) -> (nat, nat, int)
    decreases n - d,
{
    if 0 < d && n >= 0x20_0000_0000_0000 * d {
        lowered(n, 2 * d, e + 1)
    } else {
        (n, d, e)
    }
}

/// The whole number nearest to a quotient; of two that are as near, the even one.
pub open spec fn nearest(n: nat, d: nat) -> nat {
    let q = n / d;
    let r = n % d;
    if 2 * r > d || (2 * r == d && q % 2 == 1) {
        q + 1
    } else {
        q
    }
}

/// The number of 53 binary digits that is nearest to `n / d * 2^e`: its mantissa and exponent.
pub open spec fn rounded(n: nat, d: nat, e: int) -> (nat, int) {
    if n == 0 {
        (0, 0)
    } else {
        let (n1, d1, e1) = raised(n, d, e);
        let (n2, d2, e2) = lowered(n1, d1, e1);
        let m = nearest(n2, d2);
        if m == 2 * LEAST {
            (LEAST as nat, e2 + 1)
        } else {
            (m, e2)
        }
    }
}

/// Whether a number is greater than another.
pub open spec fn greater(x: (nat, int), y: (nat, int)) -> bool {
    x.0 > 0 && (y.0 == 0 || x.1 > y.1 || (x.1 == y.1 && x.0 > y.0))
}

/// The quotient of two numbers, the first of them doubled.
pub open spec fn twice_over(x: (nat, int), y: (nat, int)) -> (nat, int) {
    rounded(x.0, y.0, x.1 + 1 - y.1)
}

/// A hundred times a number.
pub open spec fn hundredfold(x: (nat, int)) -> (nat, int) {
    rounded(x.0 * 100, 1, x.1)
}

proof fn lemma_pow2_bound(k: nat, limit: nat, n: nat)
    requires
        pow2(k) <= n,
        n < pow2(limit),
    ensures
        k < limit,
{
    if k > limit {
        lemma_pow2_strictly_increases(limit, k);
    }
}

/// The number of 53 binary digits that is nearest to `n / d * 2^e`.
pub fn round(n: u128, d: u128, e: i64) -> (r: Double)
    requires
        n < 0x4_0000_0000_0000_0000,
        0 < d < 0x40_0000_0000_0000,
        -1000 <= e <= 1000,
    ensures
        r@ == rounded(n as nat, d as nat, e as int),
        r.mantissa < 2 * LEAST,
        n > 0 ==> r.mantissa >= LEAST,
        n > 0 ==> e - 200 <= r.exponent <= e + 100,
        n == 0 ==> r.mantissa == 0 && r.exponent == 0,
{
    if n == 0 {
        return Double { mantissa: 0, exponent: 0 };
    }
    let mut n1: u128 = n;
    let mut e1: i64 = e;
    let ghost mut k: nat = 0;
    proof {
        lemma2_to64();
        lemma2_to64_rest();
        lemma_pow2_adds(64, 43);
        assert(pow2(107) == 0x800_0000_0000_0000_0000_0000_0000);
    }
    while n1 < 0x10_0000_0000_0000u128 * d
        invariant
            0 < d < 0x40_0000_0000_0000,
            0 < n1 < 0x800_0000_0000_0000_0000_0000_0000,
            pow2(107) == 0x800_0000_0000_0000_0000_0000_0000,
            pow2(k) <= n1,
            k <= 107,
            e1 == e - k,
            -1000 <= e <= 1000,
            n1 < 0x4_0000_0000_0000_0000 || n1 < 0x20_0000_0000_0000 * d,
            raised(n1 as nat, d as nat, e1 as int) == raised(n as nat, d as nat, e as int),
        decreases 0x20_0000_0000_0000 * d - n1,
    {
        proof {
            lemma_pow2_unfold(k + 1);
            lemma_pow2_bound(k, 107, n1 as nat);
            k = k + 1;
        }
        n1 = 2 * n1;
        e1 = e1 - 1;
    }
    let ghost (m1, c1, f1) = raised(n as nat, d as nat, e as int);
    assert((m1, c1, f1) == (n1 as nat, d as nat, e1 as int));
    let mut d2: u128 = d;
    let mut e2: i64 = e1;
    let ghost mut j: nat = 0;
    proof {
        lemma2_to64();
        lemma2_to64_rest();
    }
    while n1 >= 0x20_0000_0000_0000u128 * d2
        invariant
            n1 >= 0x10_0000_0000_0000 * d2,
            0 < n1 < 0x800_0000_0000_0000_0000_0000_0000,
            0 < d2 < 0x80_0000_0000_0000,
            pow2(55) == 0x80_0000_0000_0000,
            pow2(j) <= d2,
            j <= 55,
            e2 == e1 + j,
            -2000 <= e1 <= 1000,
            lowered(n1 as nat, d2 as nat, e2 as int) == lowered(n1 as nat, d as nat, e1 as int),
        decreases n1 - d2,
    {
        proof {
            lemma_pow2_unfold(j + 1);
            lemma_pow2_bound(j, 55, d2 as nat);
            j = j + 1;
        }
        d2 = 2 * d2;
        e2 = e2 + 1;
    }
    let q: u128 = n1 / d2;
    let rest: u128 = n1 % d2;
    assert(LEAST <= q < 2 * LEAST) by (nonlinear_arith)
        requires
            q == n1 / d2,
            d2 > 0,
            n1 >= 0x10_0000_0000_0000 * d2,
            n1 < 0x20_0000_0000_0000 * d2,
    ;
    let m: u128 = if 2 * rest > d2 || (2 * rest == d2 && q % 2 == 1) {
        q + 1
    } else {
        q
    };
    if m == 0x20_0000_0000_0000 {
        Double { mantissa: LEAST, exponent: e2 + 1 }
    } else {
        Double { mantissa: m as u64, exponent: e2 }
    }
}

impl Double {
    /// Whether the number is greater than another.
    pub fn exceeds(&self, other: &Double) -> (r: bool)
        ensures
            r == greater(self@, other@),
    {
        self.mantissa > 0 && (other.mantissa == 0 || self.exponent > other.exponent || (
        self.exponent == other.exponent && self.mantissa > other.mantissa))
    }
}

/// The nearest whole number to a quotient is at most half away from it, and even where it is half
/// away.
pub proof fn law_nearest(n: nat, d: nat)
    requires
        d > 0,
    ensures
        2 * (nearest(n, d) * d - n) <= d,
        2 * (n - nearest(n, d) * d) <= d,
        2 * (nearest(n, d) * d - n) == d || 2 * (n - nearest(n, d) * d) == d ==> nearest(n, d) % 2
            == 0,
{
    let q = n / d;
    let r = n % d;
    vstd::arithmetic::div_mod::lemma_fundamental_div_mod(n as int, d as int);
    vstd::arithmetic::div_mod::lemma_mod_bound(n as int, d as int);
    assert(q * d == d * q) by (nonlinear_arith);
    assert((q + 1) * d == q * d + d) by (nonlinear_arith);
}

/// Raising keeps the number: each doubling of the numerator takes one from the exponent. It ends
/// once the quotient has its digits.
pub proof fn law_raised(n: nat, d: nat, e: int)
    requires
        d > 0,
    ensures
        ({
            let (n1, d1, e1) = raised(n, d, e);
            &&& d1 == d
            &&& e1 <= e
            &&& n1 == n * pow2((e - e1) as nat)
            &&& n > 0 ==> n1 >= 0x10_0000_0000_0000 * d
        }),
    decreases 0x20_0000_0000_0000 * d - n,
{
    lemma2_to64();
    if 0 < n && n < 0x10_0000_0000_0000 * d {
        law_raised(2 * n, d, e - 1);
        let (n1, d1, e1) = raised(2 * n, d, e - 1);
        let k = (e - 1 - e1) as nat;
        lemma_pow2_unfold(k + 1);
        assert(2 * n * pow2(k) == n * (2 * pow2(k))) by (nonlinear_arith);
    } else {
        assert(n * pow2(0) == n) by (nonlinear_arith)
            requires
                pow2(0) == 1,
        ;
    }
}

/// Lowering keeps the number: each doubling of the denominator gives one to the exponent. It ends
/// once the quotient has no more than its digits.
pub proof fn law_lowered(n: nat, d: nat, e: int)
    requires
        d > 0,
    ensures
        ({
            let (n1, d1, e1) = lowered(n, d, e);
            &&& n1 == n
            &&& e1 >= e
            &&& d1 == d * pow2((e1 - e) as nat)
            &&& n1 < 0x20_0000_0000_0000 * d1
        }),
    decreases n - d,
{
    lemma2_to64();
    if n >= 0x20_0000_0000_0000 * d {
        law_lowered(n, 2 * d, e + 1);
        let (n1, d1, e1) = lowered(n, 2 * d, e + 1);
        let k = (e1 - e - 1) as nat;
        lemma_pow2_unfold(k + 1);
        assert(2 * d * pow2(k) == d * (2 * pow2(k))) by (nonlinear_arith);
    } else {
        assert(d * pow2(0) == d) by (nonlinear_arith)
            requires
                pow2(0) == 1,
        ;
    }
}

/// Of two numbers in their form the one with the larger exponent is greater, of two with the same
/// exponent the one with the larger mantissa; every number but zero is greater than zero, and none
/// is greater than itself.
pub proof fn law_greater(x: (nat, int), y: (nat, int))
    ensures
        !greater(x, x),
        !(greater(x, y) && greater(y, x)),
        x.0 > 0 && y.0 == 0 ==> greater(x, y),
        x.0 > 0 && y.0 > 0 && x.1 > y.1 ==> greater(x, y),
        x.0 > 0 && y.0 > 0 && x.1 == y.1 ==> (greater(x, y) <==> x.0 > y.0),
{
}

} // verus!
