//! Intensity histogram over a grayscale pixel buffer.
//!
//! The histogram is ephemeral: it exists only to drive one threshold
//! computation. Its mathematical model is `count_eq`, the number of pixels
//! of one intensity, together with the prefix sums `count_below` (pixels
//! strictly below an intensity) and `mass_below` (their intensity mass).

use vstd::prelude::*;

verus! {

/// How many entries of `s` equal `v`.
pub open spec fn count_eq(s: Seq<u8>, v: int) -> int
    decreases s.len(),
{
    if s.len() == 0 {
        0
    } else {
        count_eq(s.drop_last(), v) + if s.last() == v {
            1int
        } else {
            0int
        }
    }
}

/// How many entries of `s` are strictly below intensity `i`
/// (the sum of `count_eq` over `0 .. i`).
pub open spec fn count_below(s: Seq<u8>, i: int) -> int
    decreases i,
{
    if i <= 0 {
        0
    } else {
        count_below(s, i - 1) + count_eq(s, i - 1)
    }
}

/// The intensity mass of the entries of `s` strictly below intensity `i`
/// (the sum of `k * count_eq(s, k)` over `0 .. i`).
pub open spec fn mass_below(s: Seq<u8>, i: int) -> int
    decreases i,
{
    if i <= 0 {
        0
    } else {
        mass_below(s, i - 1) + (i - 1) * count_eq(s, i - 1)
    }
}

pub proof fn lemma_count_eq_bounds(s: Seq<u8>, v: int)
    ensures
        0 <= count_eq(s, v) <= s.len(),
    decreases s.len(),
{
    if s.len() > 0 {
        lemma_count_eq_bounds(s.drop_last(), v);
    }
}

pub proof fn lemma_count_eq_push(s: Seq<u8>, x: u8, v: int)
    ensures
        count_eq(s.push(x), v) == count_eq(s, v) + if x == v {
            1int
        } else {
            0int
        },
{
    assert(s.push(x).drop_last() =~= s);
    assert(s.push(x).last() == x);
}

pub proof fn lemma_count_below_push(s: Seq<u8>, x: u8, i: int)
    ensures
        count_below(s.push(x), i) == count_below(s, i) + if (x as int) < i {
            1int
        } else {
            0int
        },
    decreases i,
{
    if i > 0 {
        lemma_count_below_push(s, x, i - 1);
        lemma_count_eq_push(s, x, i - 1);
    }
}

/// Every entry of a byte sequence lies below 256, so counting the entries
/// below 256 counts them all.
pub proof fn lemma_count_below_full(s: Seq<u8>)
    ensures
        count_below(s, 256) == s.len(),
    decreases s.len(),
{
    if s.len() == 0 {
        assert(s =~= Seq::<u8>::empty());
        lemma_count_below_empty(256);
    } else {
        let s0 = s.drop_last();
        lemma_count_below_full(s0);
        lemma_count_below_push(s0, s.last(), 256);
        assert(s0.push(s.last()) =~= s);
    }
}

pub proof fn lemma_count_below_empty(i: int)
    ensures
        count_below(Seq::<u8>::empty(), i) == 0,
    decreases i,
{
    if i > 0 {
        lemma_count_below_empty(i - 1);
    }
}

/// `count_below` grows with the intensity bound.
pub proof fn lemma_count_below_mono(s: Seq<u8>, i: int, j: int)
    requires
        i <= j,
    ensures
        count_below(s, i) <= count_below(s, j),
    decreases j - i,
{
    if i < j {
        lemma_count_below_mono(s, i, j - 1);
        lemma_count_eq_bounds(s, j - 1);
    }
}

/// Between two intensity bounds the mass gained is nonnegative and at most
/// 255 times the count gained: every pixel weighs at most 255.
pub proof fn lemma_mass_window(s: Seq<u8>, i: int, j: int)
    requires
        0 <= i <= j <= 256,
    ensures
        0 <= mass_below(s, j) - mass_below(s, i),
        mass_below(s, j) - mass_below(s, i) <= 255 * (count_below(s, j) - count_below(s, i)),
    decreases j - i,
{
    if i < j {
        lemma_mass_window(s, i, j - 1);
        lemma_count_eq_bounds(s, j - 1);
        let c = count_eq(s, j - 1);
        assert((j - 1) * c <= 255 * c) by (nonlinear_arith)
            requires
                0 <= c,
                0 <= j - 1 <= 255,
        ;
        assert(0 <= (j - 1) * c) by (nonlinear_arith)
            requires
                0 <= c,
                0 <= j - 1,
        ;
    }
}

/// In a uniform buffer every entry is `v`: counting any one intensity
/// yields the whole length at `v` and nothing elsewhere.
pub proof fn lemma_count_eq_uniform(s: Seq<u8>, v: u8, k: int)
    requires
        forall|j: int| 0 <= j < s.len() ==> s[j] == v,
    ensures
        count_eq(s, k) == if k == v {
            s.len() as int
        } else {
            0int
        },
    decreases s.len(),
{
    if s.len() > 0 {
        lemma_count_eq_uniform(s.drop_last(), v, k);
    }
}

/// In a uniform buffer the prefix count jumps from nothing to everything
/// exactly at the one populated intensity.
pub proof fn lemma_count_below_uniform(s: Seq<u8>, v: u8, i: int)
    requires
        forall|j: int| 0 <= j < s.len() ==> s[j] == v,
    ensures
        count_below(s, i) == if i > v {
            s.len() as int
        } else {
            0int
        },
    decreases i,
{
    if i > 0 {
        lemma_count_below_uniform(s, v, i - 1);
        lemma_count_eq_uniform(s, v, i - 1);
    }
}

/// In a buffer whose entries take only the two values `a` and `b`, no other
/// intensity is populated.
pub proof fn lemma_count_eq_two(s: Seq<u8>, a: u8, b: u8, k: int)
    requires
        forall|j: int| 0 <= j < s.len() ==> s[j] == a || s[j] == b,
        k != a,
        k != b,
    ensures
        count_eq(s, k) == 0,
    decreases s.len(),
{
    if s.len() > 0 {
        lemma_count_eq_two(s.drop_last(), a, b, k);
    }
}

/// In a two-valued buffer the prefix count is the sum of the two
/// populations so far covered by the intensity bound.
pub proof fn lemma_count_below_two(s: Seq<u8>, a: u8, b: u8, i: int)
    requires
        forall|j: int| 0 <= j < s.len() ==> s[j] == a || s[j] == b,
        a < b,
    ensures
        count_below(s, i) == (if i > a {
            count_eq(s, a as int)
        } else {
            0int
        }) + (if i > b {
            count_eq(s, b as int)
        } else {
            0int
        }),
    decreases i,
{
    if i > 0 {
        lemma_count_below_two(s, a, b, i - 1);
        if i - 1 != a && i - 1 != b {
            lemma_count_eq_two(s, a, b, i - 1);
        }
    }
}

/// In a two-valued buffer the prefix mass is the weighted sum of the two
/// populations so far covered by the intensity bound.
pub proof fn lemma_mass_below_two(s: Seq<u8>, a: u8, b: u8, i: int)
    requires
        forall|j: int| 0 <= j < s.len() ==> s[j] == a || s[j] == b,
        a < b,
    ensures
        mass_below(s, i) == (if i > a {
            (a as int) * count_eq(s, a as int)
        } else {
            0int
        }) + (if i > b {
            (b as int) * count_eq(s, b as int)
        } else {
            0int
        }),
    decreases i,
{
    if i > 0 {
        lemma_mass_below_two(s, a, b, i - 1);
        if i - 1 != a && i - 1 != b {
            lemma_count_eq_two(s, a, b, i - 1);
        }
    }
}

/// Builds the 256-bucket intensity histogram of a pixel buffer.
pub fn histogram(pixels: &Vec<u8>) -> (h: Vec<u64>)
    requires
        pixels.len() <= u64::MAX,
    ensures
        h.len() == 256,
        forall|k: int| 0 <= k < 256 ==> h[k] == count_eq(pixels@, k),
{
    let mut h: Vec<u64> = Vec::new();
    let mut k: usize = 0;
    while k < 256
        invariant
            h.len() == k,
            k <= 256,
            forall|t: int| 0 <= t < k ==> h[t] == 0,
        decreases 256 - k,
    {
        h.push(0);
        k = k + 1;
    }
    proof {
        assert forall|t: int| 0 <= t < 256 implies h[t] == count_eq(pixels@.take(0), t) by {
            assert(pixels@.take(0) =~= Seq::<u8>::empty());
        }
    }
    let n: usize = pixels.len();
    let mut j: usize = 0;
    while j < n
        invariant
            n == pixels.len() <= u64::MAX,
            0 <= j <= n,
            h.len() == 256,
            forall|t: int| 0 <= t < 256 ==> h[t] == count_eq(pixels@.take(j as int), t),
        decreases n - j,
    {
        let p: usize = pixels[j] as usize;
        proof {
            let s = pixels@.take(j as int);
            lemma_count_eq_bounds(s, p as int);
            assert(s.len() == j);
            assert(pixels@.take(j + 1) =~= s.push(pixels@[j as int]));
            assert forall|t: int| 0 <= t < 256 implies count_eq(pixels@.take(j + 1), t)
                == count_eq(s, t) + if pixels@[j as int] == t {
                1int
            } else {
                0int
            } by {
                lemma_count_eq_push(s, pixels@[j as int], t);
            }
        }
        let old_count: u64 = h[p];
        h.set(p, old_count + 1);
        j = j + 1;
    }
    proof {
        assert(pixels@.take(n as int) =~= pixels@);
    }
    h
}

} // verus!
