//! How much alike two texts are: by their longest common subsequence.

use crate::search::double;
use crate::search::double::Double;
use crate::search::order::Ranked;
use crate::text;
use vstd::prelude::*;

verus! {

/// The length of the longest common subsequence.
pub open spec fn lcs(a: Seq<char>, b: Seq<char>) -> nat
    decreases a.len() + b.len(),
{
    if a.len() == 0 || b.len() == 0 {
        0
    } else if a.last() == b.last() {
        lcs(a.drop_last(), b.drop_last()) + 1
    } else {
        let left = lcs(a.drop_last(), b);
        let right = lcs(a, b.drop_last());
        if left >= right {
            left
        } else {
            right
        }
    }
}

/// Whether the positions ascend within a text of that length.
pub open spec fn positions(p: Seq<int>, len: nat) -> bool {
    &&& forall|k: int| 0 <= k < p.len() ==> 0 <= #[trigger] p[k] < len
    &&& forall|k: int, l: int| 0 <= k < l < p.len() ==> #[trigger] p[k] < #[trigger] p[l]
}

/// Whether the two texts hold the same characters at the positions.
pub open spec fn common(a: Seq<char>, b: Seq<char>, p: Seq<int>, q: Seq<int>) -> bool {
    &&& p.len() == q.len()
    &&& positions(p, a.len())
    &&& positions(q, b.len())
    &&& forall|k: int| 0 <= k < p.len() ==> a[#[trigger] p[k]] == b[q[k]]
}

/// The two texts have a common subsequence of that length.
pub proof fn law_lcs_is_common(a: Seq<char>, b: Seq<char>) -> (r: (Seq<int>, Seq<int>))
    ensures
        common(a, b, r.0, r.1),
        r.0.len() == lcs(a, b),
    decreases a.len() + b.len(),
{
    if a.len() == 0 || b.len() == 0 {
        (Seq::empty(), Seq::empty())
    } else if a.last() == b.last() {
        let (p, q) = law_lcs_is_common(a.drop_last(), b.drop_last());
        let p2 = p.push(a.len() - 1);
        let q2 = q.push(b.len() - 1);
        assert(common(a, b, p2, q2)) by {
            assert forall|k: int| 0 <= k < p2.len() implies a[#[trigger] p2[k]] == b[q2[k]] by {
                if k < p.len() {
                    assert(a.drop_last()[p[k]] == b.drop_last()[q[k]]);
                }
            }
        }
        (p2, q2)
    } else if lcs(a.drop_last(), b) >= lcs(a, b.drop_last()) {
        let (p, q) = law_lcs_is_common(a.drop_last(), b);
        assert(common(a, b, p, q)) by {
            assert forall|k: int| 0 <= k < p.len() implies a[#[trigger] p[k]] == b[q[k]] by {
                assert(a.drop_last()[p[k]] == b[q[k]]);
            }
        }
        (p, q)
    } else {
        let (p, q) = law_lcs_is_common(a, b.drop_last());
        assert(common(a, b, p, q)) by {
            assert forall|k: int| 0 <= k < p.len() implies a[#[trigger] p[k]] == b[q[k]] by {
                assert(a[p[k]] == b.drop_last()[q[k]]);
            }
        }
        (p, q)
    }
}

/// No common subsequence of the two texts is longer.
pub proof fn law_lcs_is_longest(a: Seq<char>, b: Seq<char>, p: Seq<int>, q: Seq<int>)
    requires
        common(a, b, p, q),
    ensures
        p.len() <= lcs(a, b),
    decreases a.len() + b.len(),
{
    let n = p.len() as int;
    if n > 0 {
        assert(0 <= p[n - 1] < a.len());
        assert(0 <= q[n - 1] < b.len());
        let last_a = a.len() - 1;
        let last_b = b.len() - 1;
        let a2 = a.drop_last();
        let b2 = b.drop_last();
        if a.last() == b.last() {
            let p2 = p.drop_last();
            let q2 = q.drop_last();
            assert(common(a2, b2, p2, q2)) by {
                assert forall|k: int| 0 <= k < p2.len() implies 0 <= #[trigger] p2[k] < a2.len() by {
                    assert(p[k] < p[n - 1]);
                }
                assert forall|k: int| 0 <= k < q2.len() implies 0 <= #[trigger] q2[k] < b2.len() by {
                    assert(q[k] < q[n - 1]);
                }
                assert forall|k: int| 0 <= k < p2.len() implies a2[#[trigger] p2[k]] == b2[q2[k]] by {
                    assert(a[p[k]] == b[q[k]]);
                    assert(p[k] < p[n - 1]);
                    assert(q[k] < q[n - 1]);
                }
            }
            law_lcs_is_longest(a2, b2, p2, q2);
        } else if p[n - 1] < last_a {
            assert(common(a2, b, p, q)) by {
                assert forall|k: int| 0 <= k < p.len() implies 0 <= #[trigger] p[k] < a2.len() by {
                    if k < n - 1 {
                        assert(p[k] < p[n - 1]);
                    }
                }
                assert forall|k: int| 0 <= k < p.len() implies a2[#[trigger] p[k]] == b[q[k]] by {
                    assert(a[p[k]] == b[q[k]]);
                    if k < n - 1 {
                        assert(p[k] < p[n - 1]);
                    }
                }
            }
            law_lcs_is_longest(a2, b, p, q);
        } else {
            assert(a[p[n - 1]] == b[q[n - 1]]);
            assert(q[n - 1] < last_b);
            assert(common(a, b2, p, q)) by {
                assert forall|k: int| 0 <= k < q.len() implies 0 <= #[trigger] q[k] < b2.len() by {
                    if k < n - 1 {
                        assert(q[k] < q[n - 1]);
                    }
                }
                assert forall|k: int| 0 <= k < p.len() implies a[#[trigger] p[k]] == b2[q[k]] by {
                    assert(a[p[k]] == b[q[k]]);
                    if k < n - 1 {
                        assert(q[k] < q[n - 1]);
                    }
                }
            }
            law_lcs_is_longest(a, b2, p, q);
        }
    }
}

pub proof fn lemma_lcs_bound(a: Seq<char>, b: Seq<char>)
    ensures
        lcs(a, b) <= a.len(),
        lcs(a, b) <= b.len(),
    decreases a.len() + b.len(),
{
    if a.len() > 0 && b.len() > 0 {
        lemma_lcs_bound(a.drop_last(), b.drop_last());
        lemma_lcs_bound(a.drop_last(), b);
        lemma_lcs_bound(a, b.drop_last());
    }
}

/// The lengths for the prefixes of `b`: at each position that for the prefix which ends there.
spec fn row(a: Seq<char>, b: Seq<char>, r: Seq<usize>, n: int) -> bool {
    forall|j: int| 0 <= j < n ==> #[trigger] r[j] == lcs(a, b.take(j + 1))
}

/// The length of the longest common subsequence.
pub fn lcs_length(a: &[char], b: &[char]) -> (r: usize)
    ensures
        r == lcs(a@, b@),
{
    let n: usize = b.len();
    if n == 0 {
        return 0;
    }
    let mut prev: Vec<usize> = Vec::new();
    let mut k: usize = 0;
    while k < n
        invariant
            k <= n == b@.len(),
            prev@.len() == k,
            forall|j: int| 0 <= j < k ==> prev@[j] == 0,
        decreases n - k,
    {
        prev.push(0);
        k = k + 1;
    }
    let mut i: usize = 0;
    while i < a.len()
        invariant
            0 < n == b@.len(),
            i <= a@.len(),
            prev@.len() == n,
            row(a@.take(i as int), b@, prev@, n as int),
        decreases a@.len() - i,
    {
        let ghost above = a@.take(i as int);
        let ghost here = a@.take(i + 1);
        assert(here.drop_last() =~= above);
        assert(here.last() == a@[i as int]);
        let mut curr: Vec<usize> = Vec::new();
        let mut j: usize = 0;
        while j < n
            invariant
                0 < n == b@.len(),
                i < a@.len(),
                above == a@.take(i as int),
                here == a@.take(i + 1),
                here.drop_last() == above,
                here.last() == a@[i as int],
                prev@.len() == n,
                row(above, b@, prev@, n as int),
                j <= n,
                curr@.len() == j,
                row(here, b@, curr@, j as int),
            decreases n - j,
        {
            let ghost part = b@.take(j + 1);
            assert(part.drop_last() =~= b@.take(j as int));
            assert(part.last() == b@[j as int]);
            let left: usize = if j == 0 {
                0
            } else {
                curr[j - 1]
            };
            let diagonal: usize = if j == 0 {
                0
            } else {
                prev[j - 1]
            };
            proof {
                lemma_lcs_bound(above, b@.take(j as int));
                if j == 0 {
                    assert(lcs(here, b@.take(0)) == 0);
                    assert(lcs(above, b@.take(0)) == 0);
                } else {
                    assert(b@.take((j - 1) + 1) =~= b@.take(j as int));
                }
            }
            let value: usize = if a[i] == b[j] {
                diagonal + 1
            } else if left >= prev[j] {
                left
            } else {
                prev[j]
            };
            assert(value == lcs(here, part));
            curr.push(value);
            j = j + 1;
        }
        prev = curr;
        i = i + 1;
    }
    assert(a@.take(i as int) =~= a@);
    assert(b@.take((n - 1) + 1) =~= b@);
    prev[n - 1]
}

/// A bound for how much alike texts are, of a hundred: the number nearest to
/// `numerator / denominator`. One without a denominator is never reached.
#[derive(Debug, Clone, Copy, PartialEq, Eq)]
pub struct Threshold {
    pub numerator: u32,
    pub denominator: u32,
}

/// `shared` of `total` as a share of a hundred, each step rounded: `2 * shared / total * 100`.
pub open spec fn share(shared: nat, total: nat) -> (nat, int) {
    double::hundredfold(
        double::twice_over(double::rounded(shared, 1, 0), double::rounded(total, 1, 0)),
    )
}

/// How much alike two texts are, of a hundred: of the characters of both, the share that their
/// longest common subsequence covers. Two empty texts are alike.
pub open spec fn likeness(a: Seq<char>, b: Seq<char>) -> (nat, int) {
    if a.len() == 0 && b.len() == 0 {
        double::rounded(100, 1, 0)
    } else {
        share(lcs(a, b), a.len() + b.len())
    }
}

/// Simple fuzzy ratio (0-100).
///
/// Uses longest common subsequence ratio.
pub fn fuzzy_ratio(a: &str, b: &str) -> (r: Double)
    ensures
        r@ == likeness(a@, b@),
{
    let first = text::to_chars(a);
    let second = text::to_chars(b);
    if first.len() == 0 && second.len() == 0 {
        return double::round(100, 1, 0);
    }
    let shared: usize = lcs_length(first.as_slice(), second.as_slice());
    let part = double::round(shared as u128, 1, 0);
    let whole = double::round(first.len() as u128 + second.len() as u128, 1, 0);
    let quotient = double::round(
        part.mantissa as u128,
        whole.mantissa as u128,
        part.exponent + 1 - whole.exponent,
    );
    double::round(quotient.mantissa as u128 * 100, 1, quotient.exponent)
}

/// Whether a likeness reaches a threshold.
pub open spec fn reaches(ratio: (nat, int), threshold: Threshold) -> bool {
    threshold.denominator > 0 && !double::greater(
        double::rounded(threshold.numerator as nat, threshold.denominator as nat, 0),
        ratio,
    )
}

/// Whether a likeness reaches a threshold.
pub fn at_least(ratio: &Double, threshold: &Threshold) -> (r: bool)
    ensures
        r == reaches(ratio@, *threshold),
{
    if threshold.denominator == 0 {
        return false;
    }
    let bound = double::round(threshold.numerator as u128, threshold.denominator as u128, 0);
    !bound.exceeds(ratio)
}

/// A word and how much it is alike to what is looked for; the more alike go first.
#[derive(Debug)]
pub struct Scored {
    pub word: String,
    pub ratio: Double,
}

impl View for Scored {
    type V = (Seq<char>, (nat, int));

    open spec fn view(&self) -> (Seq<char>, (nat, int)) {
        (self.word@, self.ratio@)
    }
}

impl Ranked for Scored {
    open spec fn before(a: (Seq<char>, (nat, int)), b: (Seq<char>, (nat, int))) -> bool {
        double::greater(a.1, b.1)
    }

    proof fn lemma_before(
        a: (Seq<char>, (nat, int)),
        b: (Seq<char>, (nat, int)),
        c: (Seq<char>, (nat, int)),
    ) {
    }

    fn precedes(&self, other: &Self) -> (r: bool) {
        self.ratio.exceeds(&other.ratio)
    }
}

} // verus!
