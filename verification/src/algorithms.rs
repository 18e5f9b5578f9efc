//! Period-finding algorithms over byte strings.
//!
//! The fractional period of a string `s` of length `n` is the smallest
//! `p >= 1` such that `s[j] == s[j + p]` for every `j < n - p`. Three
//! algorithms compute it: two straightforward quadratic scans and a
//! linear-time computation through the border array. All three are
//! proved to return exactly the smallest period.

use vstd::prelude::*;

use crate::measurements::{AlgorithmMut, AlgorithmRef};
use crate::strings::TextInput;

verus! {

/// `p` is a period of `s`: every character equals the one `p` places
/// later. Every `p >= s.len()` is vacuously a period.
pub open spec fn is_period(s: Seq<u8>, p: int) -> bool {
    forall|j: int| 0 <= j < s.len() - p ==> s[j] == #[trigger] s[j + p]
}

/// `p` is the smallest period of `s`.
pub open spec fn is_min_period(s: Seq<u8>, p: int) -> bool {
    1 <= p <= s.len() && is_period(s, p) && forall|q: int| 1 <= q < p ==> !is_period(s, q)
}

/// `k` is a border length of the prefix of `s` of length `m`: the first
/// `k` characters of that prefix equal its last `k` characters, `k < m`.
pub open spec fn is_border(s: Seq<u8>, m: int, k: int) -> bool {
    0 <= k < m <= s.len() && forall|j: int| 0 <= j < k ==> #[trigger] s[j] == s[m - k + j]
}

/// `k` is the longest border length of the prefix of `s` of length `m`.
pub open spec fn is_max_border(s: Seq<u8>, m: int, k: int) -> bool {
    is_border(s, m, k) && forall|k2: int| k < k2 < m ==> !is_border(s, m, k2)
}

/// A border of a prefix shortens with it: dropping the last character
/// of both leaves a border, and the dropped characters were equal.
proof fn lemma_border_shrink(s: Seq<u8>, m: int, k: int)
    requires
        is_border(s, m, k),
        k >= 1,
        m >= 2,
    ensures
        is_border(s, m - 1, k - 1),
        s[k - 1] == s[m - 1],
{
    assert forall|j: int| 0 <= j < k - 1 implies #[trigger] s[j] == s[(m - 1) - (k - 1) + j] by {
        assert(s[j] == s[m - k + j]);
    }
    assert(s[k - 1] == s[m - k + (k - 1)]);
}

/// A shorter border of a prefix is a border of any longer border of the
/// same prefix.
proof fn lemma_border_within(s: Seq<u8>, m: int, x: int, k: int)
    requires
        is_border(s, m, x),
        is_border(s, m, k),
        k < x,
    ensures
        is_border(s, x, k),
{
    assert forall|j: int| 0 <= j < k implies #[trigger] s[j] == s[x - k + j] by {
        assert(s[j] == s[m - k + j]);
        assert(s[x - k + j] == s[m - x + (x - k + j)]);
    }
}

/// A border of a border is a border: the relation is transitive.
proof fn lemma_border_trans(s: Seq<u8>, m: int, k: int, j0: int)
    requires
        is_border(s, m, k),
        is_border(s, k, j0),
    ensures
        is_border(s, m, j0),
{
    assert forall|j: int| 0 <= j < j0 implies #[trigger] s[j] == s[m - j0 + j] by {
        assert(s[j] == s[k - j0 + j]);
        assert(s[k - j0 + j] == s[m - k + (k - j0 + j)]);
    }
}

/// `p` is a period of `s` exactly when `len - p` is a border length of
/// the whole string.
proof fn lemma_period_border(s: Seq<u8>, p: int)
    requires
        1 <= p <= s.len(),
    ensures
        is_period(s, p) <==> is_border(s, s.len() as int, s.len() - p),
{
    let n = s.len() as int;
    if is_period(s, p) {
        assert forall|j: int| 0 <= j < n - p implies #[trigger] s[j] == s[n - (n - p) + j] by {
            assert(s[j] == s[j + p]);
        }
    }
    if is_border(s, n, n - p) {
        assert forall|j: int| 0 <= j < n - p implies s[j] == #[trigger] s[j + p] by {
            assert(s[j] == s[n - (n - p) + j]);
        }
    }
}

/// Tests whether `p` is a period of `s`.
fn check_period(s: &[u8], p: usize) -> (r: bool)
    requires
        1 <= p <= s@.len(),
    ensures
        r == is_period(s@, p as int),
{
    let n = s.len();
    let mut j: usize = 0;
    while j < n - p
        invariant
            1 <= p <= n == s@.len(),
            j <= n - p,
            forall|t: int| 0 <= t < j ==> s@[t] == #[trigger] s@[t + p],
        decreases n - p - j,
    {
        if s[j] != s[j + p] {
            return false;
        }
        j = j + 1;
    }
    true
}

/// Compares the ranges `s[a..a + len]` and `s[b..b + len]` character by
/// character.
fn range_eq(s: &[u8], a: usize, b: usize, len: usize) -> (r: bool)
    requires
        a + len <= s@.len(),
        b + len <= s@.len(),
    ensures
        r == (forall|j: int| 0 <= j < len ==> #[trigger] s@[a + j] == s@[b + j]),
{
    let n = s.len();
    let mut j: usize = 0;
    while j < len
        invariant
            n == s@.len(),
            a + len <= n,
            b + len <= n,
            j <= len,
            forall|t: int| 0 <= t < j ==> #[trigger] s@[a + t] == s@[b + t],
        decreases len - j,
    {
        if s[a + j] != s[b + j] {
            return false;
        }
        j = j + 1;
    }
    true
}

/// Finds the smallest period of `s` by testing each candidate with a
/// direct character scan; an empty string reports zero.
pub fn period_naive1(s: &[u8]) -> (r: usize)
    ensures
        s@.len() == 0 ==> r == 0,
        s@.len() >= 1 ==> is_min_period(s@, r as int),
{
    let n = s.len();
    let mut i: usize = 1;
    while i < n
        invariant
            1 <= i <= n || (n == 0 && i == 1),
            n == s@.len(),
            forall|q: int| 1 <= q < i ==> !is_period(s@, q),
        decreases n - i,
    {
        if check_period(s, i) {
            return i;
        }
        i = i + 1;
    }
    n
}

/// Finds the smallest period of `s` by comparing, for each candidate
/// `p`, the prefix and the suffix of length `len - p`; an empty string
/// reports zero.
pub fn period_naive2(s: &[u8]) -> (r: usize)
    ensures
        s@.len() == 0 ==> r == 0,
        s@.len() >= 1 ==> is_min_period(s@, r as int),
{
    let n = s.len();
    let mut i: usize = 1;
    while i < n
        invariant
            1 <= i <= n || (n == 0 && i == 1),
            n == s@.len(),
            forall|q: int| 1 <= q < i ==> !is_period(s@, q),
        decreases n - i,
    {
        let eq = range_eq(s, 0, i, n - i);
        proof {
            let sv = s@;
            let ii = i as int;
            if eq {
                assert forall|j: int| 0 <= j < sv.len() - ii implies sv[j] == #[trigger] sv[j
                    + ii] by {
                    assert(sv[0 + j] == sv[ii + j]);
                }
                assert(is_period(sv, ii));
            } else {
                if is_period(sv, ii) {
                    assert forall|j: int| 0 <= j < n - i implies #[trigger] sv[0 + j] == sv[ii
                        + j] by {
                        assert(sv[j] == sv[j + ii]);
                    }
                    assert(false);
                }
            }
        }
        if eq {
            return i;
        }
        i = i + 1;
    }
    n
}

/// Finds the smallest period of `s` in linear time through the border
/// array: `b[i]` is the length of the longest border of the prefix of
/// length `i + 1`, and the smallest period is the length of the string
/// minus its longest border.
pub fn period_smart(s: &[u8]) -> (r: usize)
    requires
        s@.len() >= 1,
    ensures
        is_min_period(s@, r as int),
{
    let size = s.len();
    let mut b: Vec<usize> = Vec::new();
    b.push(0);
    let mut i: usize = 1;
    while i < size
        invariant
            1 <= i <= size == s@.len(),
            b@.len() == i,
            forall|t: int| 0 <= t < i ==> is_max_border(s@, t + 1, #[trigger] b@[t] as int),
        decreases size - i,
    {
        let mut x: usize = b[i - 1];
        proof {
            assert(is_max_border(s@, i as int, b@[i - 1] as int));
        }
        while x > 0 && s[x] != s[i]
            invariant
                1 <= i < size == s@.len(),
                b@.len() == i,
                forall|t: int| 0 <= t < i ==> is_max_border(s@, t + 1, #[trigger] b@[t] as int),
                x < i,
                is_border(s@, i as int, x as int),
                forall|k: int|
                    x < k < i && #[trigger] is_border(s@, i as int, k) ==> s@[k] != s@[i as int],
            decreases x,
        {
            let x0 = x;
            x = b[x0 - 1];
            proof {
                let sv = s@;
                let ii = i as int;
                let x0i = x0 as int;
                let xi = x as int;
                assert(is_max_border(sv, x0i, xi));
                lemma_border_trans(sv, ii, x0i, xi);
                assert forall|k: int|
                    xi < k < ii && #[trigger] is_border(sv, ii, k) implies sv[k] != sv[ii] by {
                    if k < x0i {
                        lemma_border_within(sv, ii, x0i, k);
                        assert(!is_border(sv, x0i, k));
                    } else if k == x0i {
                        assert(sv[x0i] != sv[ii]);
                    }
                }
            }
        }
        proof {
            let sv = s@;
            let ii = i as int;
            let xi = x as int;
            if sv[xi] == sv[ii] {
                // The border extends by the matching character.
                assert forall|j: int| 0 <= j < xi + 1 implies #[trigger] sv[j] == sv[(ii + 1) - (
                xi + 1) + j] by {
                    if j < xi {
                        assert(sv[j] == sv[ii - xi + j]);
                    }
                }
                assert(is_border(sv, ii + 1, xi + 1));
                assert forall|k2: int| xi + 1 < k2 < ii + 1 implies !(#[trigger] is_border(
                    sv,
                    ii + 1,
                    k2,
                )) by {
                    if is_border(sv, ii + 1, k2) {
                        lemma_border_shrink(sv, ii + 1, k2);
                        assert(sv[k2 - 1] != sv[ii]);
                    }
                }
                assert(is_max_border(sv, ii + 1, xi + 1));
            } else {
                // No border extends: the longest border is empty.
                assert(x == 0);
                assert(is_border(sv, ii + 1, 0));
                assert forall|k2: int| 0 < k2 < ii + 1 implies !(#[trigger] is_border(
                    sv,
                    ii + 1,
                    k2,
                )) by {
                    if is_border(sv, ii + 1, k2) {
                        lemma_border_shrink(sv, ii + 1, k2);
                        if k2 - 1 > 0 {
                            assert(sv[k2 - 1] != sv[ii]);
                        } else {
                            assert(sv[0] != sv[ii]);
                        }
                    }
                }
                assert(is_max_border(sv, ii + 1, 0));
            }
        }
        if s[x] == s[i] {
            x = x + 1;
        }
        b.push(x);
        i = i + 1;
    }
    let max_border = b[size - 1];
    proof {
        let sv = s@;
        let n = size as int;
        let mb = max_border as int;
        assert(is_max_border(sv, n, mb));
        lemma_period_border(sv, n - mb);
        assert forall|q: int| 1 <= q < n - mb implies !(#[trigger] is_period(sv, q)) by {
            lemma_period_border(sv, q);
            assert(!is_border(sv, n, n - q));
        }
    }
    size - max_border
}

/// The selector of one of the period-finding algorithms.
#[derive(Clone, Copy, Debug, PartialEq, Eq, Structural)]
pub enum PeriodAlgorithm {
    /// The direct scan of [`period_naive1`].
    Naive1,
    /// The prefix/suffix comparison of [`period_naive2`].
    Naive2,
    /// The border-array computation of [`period_smart`].
    Smart,
}

/// A period-finding algorithm under its display name: the callable
/// handed to the measurement engine.
#[derive(Clone, Copy)]
pub struct Algorithm {
    /// The display name of the algorithm.
    pub name: &'static str,
    /// The algorithm run on each input.
    pub function: PeriodAlgorithm,
}

impl Algorithm {
    /// The [`period_naive1`] algorithm under its name.
    pub fn naive1() -> (r: Algorithm)
        ensures
            r.name@ == "period naive1"@,
            r.function == PeriodAlgorithm::Naive1,
    {
        Algorithm { name: "period naive1", function: PeriodAlgorithm::Naive1 }
    }

    /// The [`period_naive2`] algorithm under its name.
    pub fn naive2() -> (r: Algorithm)
        ensures
            r.name@ == "period naive2"@,
            r.function == PeriodAlgorithm::Naive2,
    {
        Algorithm { name: "period naive2", function: PeriodAlgorithm::Naive2 }
    }

    /// The [`period_smart`] algorithm under its name.
    pub fn smart() -> (r: Algorithm)
        ensures
            r.name@ == "period smart"@,
            r.function == PeriodAlgorithm::Smart,
    {
        Algorithm { name: "period smart", function: PeriodAlgorithm::Smart }
    }

    /// Runs the selected algorithm on a byte string; every selector
    /// returns the smallest period, and zero on an empty string.
    pub fn run(&self, s: &[u8]) -> (r: usize)
        ensures
            s@.len() == 0 ==> r == 0,
            s@.len() >= 1 ==> is_min_period(s@, r as int),
    {
        match self.function {
            PeriodAlgorithm::Naive1 => period_naive1(s),
            PeriodAlgorithm::Naive2 => period_naive2(s),
            PeriodAlgorithm::Smart => {
                if s.len() == 0 {
                    0
                } else {
                    period_smart(s)
                }
            },
        }
    }
}

impl AlgorithmRef<TextInput> for Algorithm {
    open spec fn name_spec(&self) -> Seq<char> {
        self.name@
    }

    fn name(&self) -> (r: String) {
        self.name.to_owned()
    }

    fn run(&self, input: &TextInput) {
        let _ = self.run(input.text.as_slice());
    }
}

impl AlgorithmMut<TextInput> for Algorithm {
    open spec fn name_spec(&self) -> Seq<char> {
        self.name@
    }

    fn name(&self) -> (r: String) {
        self.name.to_owned()
    }

    fn run(&self, input: &mut TextInput) {
        let _ = self.run(input.text.as_slice());
    }
}

} // verus!
