//! Global optimal threshold selection by between-class variance maximization.
//!
//! For a cut `t`, the pixels split into a background class (intensity at most
//! `t`) and a foreground class (above `t`). The between-class variance is
//! `w_b * w_f * (m_b - m_f)^2` where `w_b`, `w_f` are the class sizes and
//! `m_b`, `m_f` the class mean intensities. Writing `T` for the pixel count,
//! `S` for the total intensity mass, `s_b` for the background mass, this
//! variance equals the exact rational
//! `(s_b * T - S * w_b)^2 / (w_b * w_f)`,
//! so candidate cuts are compared here by cross-multiplying numerators and
//! denominators in exact integer arithmetic; no rounding takes part in the
//! choice. The selected threshold is the lowest cut of maximal variance, and
//! an image whose every cut has zero variance (in particular a uniform image)
//! yields threshold 0.

use vstd::prelude::*;
use vstd::arithmetic::div_mod::{
    lemma_fundamental_div_mod, lemma_div_multiples_vanish, lemma_div_is_ordered, lemma_mod_bound,
};
use crate::histogram::{
    count_eq, count_below, mass_below, lemma_count_below_mono, lemma_count_below_full,
    lemma_mass_window, lemma_count_below_two, lemma_mass_below_two, histogram,
};
use crate::bitmap::GrayBitmap;

verus! {

/// Background class size of cut `t`: pixels with intensity at most `t`.
pub open spec fn class_count(s: Seq<u8>, t: int) -> int {
    count_below(s, t + 1)
}

/// Background class mass of cut `t`.
pub open spec fn class_mass(s: Seq<u8>, t: int) -> int {
    mass_below(s, t + 1)
}

/// A cut is valid when both classes are populated.
pub open spec fn valid_cut(s: Seq<u8>, t: int) -> bool {
    &&& 0 <= t < 256
    &&& 0 < class_count(s, t) < s.len()
}

/// Numerator of the between-class variance of cut `t`, as an exact integer:
/// `(s_b * T - S * w_b)^2`.
pub open spec fn var_num(s: Seq<u8>, t: int) -> int {
    let diff = class_mass(s, t) * s.len() - mass_below(s, 256) * class_count(s, t);
    diff * diff
}

/// Denominator of the between-class variance of cut `t`: `w_b * w_f`.
pub open spec fn var_den(s: Seq<u8>, t: int) -> int {
    class_count(s, t) * (s.len() - class_count(s, t))
}

/// `t` is the threshold the sweep selects: the lowest valid cut of maximal
/// (positive) between-class variance, or 0 when no valid cut has positive
/// variance. Variances are compared as exact rationals by cross-multiplying.
pub open spec fn is_otsu_threshold(s: Seq<u8>, t: int) -> bool {
    if exists|i: int| valid_cut(s, i) && var_num(s, i) > 0 {
        &&& valid_cut(s, t)
        &&& var_num(s, t) > 0
        &&& forall|i: int|
            valid_cut(s, i) ==> var_num(s, i) * var_den(s, t) <= var_num(s, t) * var_den(s, i)
        &&& forall|i: int|
            valid_cut(s, i) && i < t ==> var_num(s, i) * var_den(s, t) < var_num(s, t) * var_den(
                s,
                i,
            )
    } else {
        t == 0
    }
}

/// The threshold of a pixel buffer, as a value: the unique cut that
/// `is_otsu_threshold` admits.
pub open spec fn otsu_threshold_of(s: Seq<u8>) -> int {
    choose|t: int| is_otsu_threshold(s, t)
}

/// `is_otsu_threshold` pins the threshold down: two cuts both selected by
/// the sweep are equal, so `otsu_threshold_of` names the one selected cut.
pub proof fn lemma_otsu_threshold_unique(s: Seq<u8>, t: int)
    requires
        is_otsu_threshold(s, t),
    ensures
        otsu_threshold_of(s) == t,
{
    assert(exists|x: int| is_otsu_threshold(s, x)) by {
        assert(is_otsu_threshold(s, t));
    }
    let t2 = otsu_threshold_of(s);
    assert(is_otsu_threshold(s, t2));
    if exists|i: int| valid_cut(s, i) && var_num(s, i) > 0 {
        if t < t2 {
            assert(var_num(s, t) * var_den(s, t2) < var_num(s, t2) * var_den(s, t));
            assert(var_num(s, t2) * var_den(s, t) <= var_num(s, t) * var_den(s, t2));
            assert(false);
        }
        if t2 < t {
            assert(var_num(s, t2) * var_den(s, t) < var_num(s, t) * var_den(s, t2));
            assert(var_num(s, t) * var_den(s, t2) <= var_num(s, t2) * var_den(s, t));
            assert(false);
        }
    }
}

/// The degenerate-image contract: a uniform image has no cut that separates
/// two populated classes, so the sweep never finds a positive variance and
/// the threshold defaults to 0. Binarizing at 0 then sends every pixel of
/// positive intensity to the high level.
pub proof fn lemma_uniform_image_threshold_zero(s: Seq<u8>, v: u8)
    requires
        forall|j: int| 0 <= j < s.len() ==> s[j] == v,
    ensures
        is_otsu_threshold(s, 0),
{
    if exists|i: int| valid_cut(s, i) && var_num(s, i) > 0 {
        let i = choose|i: int| valid_cut(s, i) && var_num(s, i) > 0;
        crate::histogram::lemma_count_below_uniform(s, v, i + 1);
        assert(false);
    }
}

/// Two pure intensity populations are parted by the selected threshold:
/// when the pixels take exactly two values `a < b`, both populated, the
/// threshold lies at `a` or above and strictly below `b`, so binarizing at
/// it sends every `a`-pixel to the low class and every `b`-pixel to the
/// high class. (The threshold touches `a` itself — the lowest cut already
/// separates two spike populations perfectly — so populations need spread
/// around their means for the threshold to clear the lower mean strictly.)
pub proof fn lemma_two_population_threshold_separates(s: Seq<u8>, t: int, a: u8, b: u8)
    requires
        forall|j: int| 0 <= j < s.len() ==> s[j] == a || s[j] == b,
        a < b,
        count_eq(s, a as int) > 0,
        count_eq(s, b as int) > 0,
        is_otsu_threshold(s, t),
    ensures
        a <= t < b,
{
    let ai = a as int;
    let bi = b as int;
    let ca = count_eq(s, ai);
    let cb = count_eq(s, bi);
    lemma_count_below_full(s);
    lemma_count_below_two(s, a, b, 256);
    assert(ca + cb == s.len());
    lemma_count_below_two(s, a, b, ai + 1);
    assert(class_count(s, ai) == ca);
    lemma_mass_below_two(s, a, b, ai + 1);
    lemma_mass_below_two(s, a, b, 256);
    assert(valid_cut(s, ai));
    let diff = class_mass(s, ai) * s.len() - mass_below(s, 256) * class_count(s, ai);
    assert(diff == ai * ca * (ca + cb) - (ai * ca + bi * cb) * ca);
    assert(diff * diff > 0) by (nonlinear_arith)
        requires
            diff == ai * ca * (ca + cb) - (ai * ca + bi * cb) * ca,
            ca >= 1,
            cb >= 1,
            ai < bi,
    ;
    assert(var_num(s, ai) > 0);
    assert(exists|i: int| valid_cut(s, i) && var_num(s, i) > 0) by {
        assert(valid_cut(s, ai) && var_num(s, ai) > 0);
    }
    assert(valid_cut(s, t));
    lemma_count_below_two(s, a, b, t + 1);
}

/// A lexicographic reading of quotient-remainder pairs: with both remainders
/// below the divisor, comparing `q * big + r` is comparing `(q, r)`.
proof fn lemma_lex_cmp(q1: int, r1: int, q2: int, r2: int, big: int) by (nonlinear_arith)
    requires
        big > 0,
        0 <= r1 < big,
        0 <= r2 < big,
    ensures
        (q1 * big + r1 > q2 * big + r2) <==> (q1 > q2 || (q1 == q2 && r1 > r2)),
{
}

/// Splitting `n` by `d` and the square of its remainder by `d` again writes
/// `n * n` as `q * d + r` with `r < d`.
proof fn lemma_square_div_parts(n: int, d: int, a: int, b: int, c: int, r: int) by (nonlinear_arith)
    requires
        d > 0,
        n == d * a + b,
        0 <= b < d,
        b * b == d * c + r,
        0 <= r < d,
    ensures
        n * n == (a * a * d + 2 * a * b + c) * d + r,
{
}

/// Decides whether `n1^2 / d1 > n2^2 / d2` as exact rationals, without
/// forming the squares: each square is split into quotient and remainder by
/// its own denominator, and the pair is compared lexicographically.
fn var_gt(n1: u128, d1: u128, n2: u128, d2: u128) -> (gt: bool)
    requires
        1 <= d1 <= 0x4000_0000_0000_0000,
        1 <= d2 <= 0x4000_0000_0000_0000,
        n1 <= 255 * d1,
        n2 <= 255 * d2,
    ensures
        gt == ((n1 as int) * (n1 as int) * (d2 as int) > (n2 as int) * (n2 as int) * (d1 as int)),
{
    let a1: u128 = n1 / d1;
    let b1: u128 = n1 % d1;
    let a2: u128 = n2 / d2;
    let b2: u128 = n2 % d2;
    proof {
        lemma_fundamental_div_mod(n1 as int, d1 as int);
        lemma_fundamental_div_mod(n2 as int, d2 as int);
        lemma_mod_bound(n1 as int, d1 as int);
        lemma_mod_bound(n2 as int, d2 as int);
        assert(255 * (d1 as int) == (d1 as int) * 255);
        lemma_div_is_ordered(n1 as int, 255 * (d1 as int), d1 as int);
        lemma_div_multiples_vanish(255, d1 as int);
        assert(255 * (d2 as int) == (d2 as int) * 255);
        lemma_div_is_ordered(n2 as int, 255 * (d2 as int), d2 as int);
        lemma_div_multiples_vanish(255, d2 as int);
        assert(a1 <= 255 && a2 <= 255);
        assert((b1 as int) * (b1 as int) < 0x4000_0000_0000_0000 * 0x4000_0000_0000_0000) by (
        nonlinear_arith)
            requires
                0 <= (b1 as int) < 0x4000_0000_0000_0000,
        ;
        assert((b2 as int) * (b2 as int) < 0x4000_0000_0000_0000 * 0x4000_0000_0000_0000) by (
        nonlinear_arith)
            requires
                0 <= (b2 as int) < 0x4000_0000_0000_0000,
        ;
    }
    let bsq1: u128 = b1 * b1;
    let bsq2: u128 = b2 * b2;
    let c1: u128 = bsq1 / d1;
    let r1: u128 = bsq1 % d1;
    let c2: u128 = bsq2 / d2;
    let r2: u128 = bsq2 % d2;
    proof {
        lemma_fundamental_div_mod(bsq1 as int, d1 as int);
        lemma_fundamental_div_mod(bsq2 as int, d2 as int);
        lemma_mod_bound(bsq1 as int, d1 as int);
        lemma_mod_bound(bsq2 as int, d2 as int);
        assert((c1 as int) < 0x4000_0000_0000_0000 && (a1 as int) * (a1 as int) <= 65025 && (
        a1 as int) * (a1 as int) * (d1 as int) <= 65025 * 0x4000_0000_0000_0000 && 2 * (a1 as int)
            * (b1 as int) <= 510 * 0x4000_0000_0000_0000 && (a1 as int) * (a1 as int) * (d1 as int)
            + 2 * (a1 as int) * (b1 as int) + (c1 as int)
            < 0x1_0000_0000_0000_0000_0000_0000_0000_0000) by (nonlinear_arith)
            requires
                0 < (d1 as int) <= 0x4000_0000_0000_0000,
                0 <= (b1 as int) < (d1 as int),
                (bsq1 as int) == (b1 as int) * (b1 as int),
                (bsq1 as int) == (d1 as int) * (c1 as int) + (r1 as int),
                0 <= (r1 as int) < (d1 as int),
                0 <= (a1 as int) <= 255,
        ;
        assert((c2 as int) < 0x4000_0000_0000_0000 && (a2 as int) * (a2 as int) <= 65025 && (
        a2 as int) * (a2 as int) * (d2 as int) <= 65025 * 0x4000_0000_0000_0000 && 2 * (a2 as int)
            * (b2 as int) <= 510 * 0x4000_0000_0000_0000 && (a2 as int) * (a2 as int) * (d2 as int)
            + 2 * (a2 as int) * (b2 as int) + (c2 as int)
            < 0x1_0000_0000_0000_0000_0000_0000_0000_0000) by (nonlinear_arith)
            requires
                0 < (d2 as int) <= 0x4000_0000_0000_0000,
                0 <= (b2 as int) < (d2 as int),
                (bsq2 as int) == (b2 as int) * (b2 as int),
                (bsq2 as int) == (d2 as int) * (c2 as int) + (r2 as int),
                0 <= (r2 as int) < (d2 as int),
                0 <= (a2 as int) <= 255,
        ;
    }
    let q1: u128 = a1 * a1 * d1 + 2 * a1 * b1 + c1;
    let q2: u128 = a2 * a2 * d2 + 2 * a2 * b2 + c2;
    proof {
        assert((r1 as int) * (d2 as int) < 0x4000_0000_0000_0000 * 0x4000_0000_0000_0000 && (
        r2 as int) * (d1 as int) < 0x4000_0000_0000_0000 * 0x4000_0000_0000_0000) by (
        nonlinear_arith)
            requires
                0 <= (r1 as int) < 0x4000_0000_0000_0000,
                0 <= (r2 as int) < 0x4000_0000_0000_0000,
                0 < (d1 as int) <= 0x4000_0000_0000_0000,
                0 < (d2 as int) <= 0x4000_0000_0000_0000,
        ;
    }
    let gt: bool = q1 > q2 || (q1 == q2 && r1 * d2 > r2 * d1);
    proof {
        let n1i = n1 as int;
        let n2i = n2 as int;
        let d1i = d1 as int;
        let d2i = d2 as int;
        let q1i = q1 as int;
        let q2i = q2 as int;
        let r1i = r1 as int;
        let r2i = r2 as int;
        lemma_square_div_parts(n1i, d1i, a1 as int, b1 as int, c1 as int, r1i);
        lemma_square_div_parts(n2i, d2i, a2 as int, b2 as int, c2 as int, r2i);
        assert(n1i * n1i == q1i * d1i + r1i);
        assert(n2i * n2i == q2i * d2i + r2i);
        let big = d1i * d2i;
        assert(n1i * n1i * d2i == q1i * big + r1i * d2i && n2i * n2i * d1i == q2i * big + r2i * d1i
            && 0 <= r1i * d2i < big && 0 <= r2i * d1i < big) by (nonlinear_arith)
            requires
                big == d1i * d2i,
                0 < d1i,
                0 < d2i,
                0 <= r1i < d1i,
                0 <= r2i < d2i,
                n1i * n1i == q1i * d1i + r1i,
                n2i * n2i == q2i * d2i + r2i,
        ;
        lemma_lex_cmp(q1i, r1i * d2i, q2i, r2i * d1i, big);
    }
    gt
}

/// The denominator of a valid cut is positive: both classes are populated.
pub proof fn lemma_var_den_pos(s: Seq<u8>, t: int)
    requires
        valid_cut(s, t),
    ensures
        var_den(s, t) > 0,
{
    let c = class_count(s, t);
    let w = s.len() - c;
    assert(c * w > 0) by (nonlinear_arith)
        requires
            c >= 1,
            w >= 1,
    ;
}

/// A variance numerator is a square, so never negative.
pub proof fn lemma_var_num_nonneg(s: Seq<u8>, t: int)
    ensures
        var_num(s, t) >= 0,
{
    let diff = class_mass(s, t) * s.len() - mass_below(s, 256) * class_count(s, t);
    assert(diff * diff >= 0) by (nonlinear_arith);
}

/// Transitivity of the cross-multiplied variance order: if cut `j` does not
/// beat cut `o` and cut `i` strictly beats cut `o`, then `i` strictly beats
/// `j`.
proof fn lemma_var_order_trans(aj: int, dj: int, ao: int, dd: int, ai: int, di: int) by (
    nonlinear_arith)
    requires
        dj > 0,
        dd > 0,
        di > 0,
        aj >= 0,
        ao >= 0,
        ai >= 0,
        aj * dd <= ao * dj,
        ao * di < ai * dd,
    ensures
        aj * di < ai * dj,
{
}

/// Computes the global optimal threshold of a grayscale image: the sweep of
/// all 256 candidate cuts, selecting the lowest cut of maximal
/// between-class variance, with exact arithmetic deciding every comparison.
/// A uniform image, and any image in which no cut separates two populated
/// classes with distinct means, yields the degenerate threshold 0.
#[verifier::rlimit(100)]
pub fn compute_threshold(img: &GrayBitmap) -> (t: u8)
    requires
        img.wf(),
        img.width * img.height <= 0x8000_0000,
    ensures
        is_otsu_threshold(img.pixels@, t as int),
{
    let ghost s = img.pixels@;
    let h = histogram(&img.pixels);
    proof {
        lemma_count_below_full(s);
    }
    let total: u64 = img.pixels.len() as u64;
    let mut sum: u64 = 0;
    let mut k: usize = 0;
    while k < 256
        invariant
            h.len() == 256,
            forall|v: int| 0 <= v < 256 ==> h[v] == count_eq(s, v),
            total == s.len(),
            total <= 0x8000_0000,
            count_below(s, 256) == s.len(),
            0 <= k <= 256,
            sum == mass_below(s, k as int),
        decreases 256 - k,
    {
        let hk: u64 = h[k];
        proof {
            crate::histogram::lemma_count_eq_bounds(s, k as int);
            lemma_mass_window(s, 0, k + 1);
            lemma_count_below_mono(s, k + 1, 256);
            assert((k as int) * (hk as int) <= 255 * 0x8000_0000) by (nonlinear_arith)
                requires
                    0 <= (k as int) <= 255,
                    0 <= (hk as int) <= 0x8000_0000,
            ;
            assert(mass_below(s, k + 1) == mass_below(s, k as int) + (k as int) * count_eq(
                s,
                k as int,
            ));
            assert(count_below(s, 0) == 0 && mass_below(s, 0) == 0);
            assert(mass_below(s, k + 1) <= 255 * count_below(s, k + 1));
            assert(count_below(s, k + 1) <= total as int);
        }
        sum = sum + (k as u64) * hk;
        k = k + 1;
    }
    let mut w_b: u64 = 0;
    let mut sum_b: u64 = 0;
    let mut best_t: u8 = 0;
    let mut best_n: u128 = 0;
    let mut best_d: u128 = 1;
    let mut have_best: bool = false;
    let ghost mut best_i: int = 0;
    let mut i: usize = 0;
    while i < 256
        invariant
            h.len() == 256,
            forall|v: int| 0 <= v < 256 ==> h[v] == count_eq(s, v),
            total == s.len(),
            total <= 0x8000_0000,
            count_below(s, 256) == s.len(),
            sum == mass_below(s, 256),
            0 <= i <= 256,
            w_b == count_below(s, i as int),
            sum_b == mass_below(s, i as int),
            have_best ==> {
                &&& valid_cut(s, best_i)
                &&& best_i < i
                &&& best_t == best_i
                &&& var_num(s, best_i) > 0
                &&& (best_n as int) * (best_n as int) == var_num(s, best_i)
                &&& best_d == var_den(s, best_i)
                &&& best_n <= 255 * best_d
                &&& 1 <= best_d <= 0x4000_0000_0000_0000
            },
            have_best ==> forall|j: int|
                valid_cut(s, j) && j < i ==> var_num(s, j) * var_den(s, best_i) <= var_num(
                    s,
                    best_i,
                ) * var_den(s, j),
            have_best ==> forall|j: int|
                valid_cut(s, j) && j < best_i ==> var_num(s, j) * var_den(s, best_i) < var_num(
                    s,
                    best_i,
                ) * var_den(s, j),
            !have_best ==> best_t == 0,
            !have_best ==> forall|j: int| valid_cut(s, j) && j < i ==> var_num(s, j) == 0,
        decreases 256 - i,
    {
        let hi: u64 = h[i];
        proof {
            crate::histogram::lemma_count_eq_bounds(s, i as int);
            lemma_count_below_mono(s, i + 1, 256);
            lemma_mass_window(s, 0, i + 1);
            lemma_mass_window(s, i + 1, 256);
            assert((i as int) * (hi as int) <= 255 * 0x8000_0000) by (nonlinear_arith)
                requires
                    0 <= (i as int) <= 255,
                    0 <= (hi as int) <= 0x8000_0000,
            ;
            assert(count_below(s, i + 1) == count_below(s, i as int) + count_eq(s, i as int));
            assert(mass_below(s, i + 1) == mass_below(s, i as int) + (i as int) * count_eq(
                s,
                i as int,
            ));
            assert(count_below(s, 0) == 0 && mass_below(s, 0) == 0);
            assert(count_below(s, i + 1) <= total as int);
            assert(mass_below(s, i + 1) <= 255 * count_below(s, i + 1));
        }
        w_b = w_b + hi;
        sum_b = sum_b + (i as u64) * hi;
        if w_b > 0 && w_b < total {
            let w_f: u64 = total - w_b;
            proof {
                assert((sum_b as int) * (total as int) < 0x1_0000_0000_0000_0000_0000_0000_0000_0000
                    && (sum as int) * (w_b as int) < 0x1_0000_0000_0000_0000_0000_0000_0000_0000
                    && 1 <= (w_b as int) * (w_f as int) <= 0x4000_0000_0000_0000) by (
                nonlinear_arith)
                    requires
                        0 <= (sum_b as int) < 0x1_0000_0000_0000_0000,
                        0 <= (sum as int) < 0x1_0000_0000_0000_0000,
                        1 <= (w_b as int) <= 0x8000_0000,
                        1 <= (w_f as int) <= 0x8000_0000,
                        0 <= (total as int) < 0x1_0000_0000_0000_0000,
                ;
            }
            let x: u128 = (sum_b as u128) * (total as u128);
            let y: u128 = (sum as u128) * (w_b as u128);
            let n: u128 = if x >= y {
                x - y
            } else {
                y - x
            };
            let d: u128 = (w_b as u128) * (w_f as u128);
            proof {
                let sb = sum_b as int;
                let sf = (sum - sum_b) as int;
                let wb = w_b as int;
                let wf = w_f as int;
                let diff = class_mass(s, i as int) * s.len() - mass_below(s, 256) * class_count(
                    s,
                    i as int,
                );
                assert(diff == (x as int) - (y as int));
                assert(diff == sb * wf - sf * wb) by (nonlinear_arith)
                    requires
                        diff == sb * (wb + wf) - (sb + sf) * wb,
                ;
                assert(sb * wf <= 255 * (wb * wf) && sf * wb <= 255 * (wb * wf) && sb * wf >= 0
                    && sf * wb >= 0) by (nonlinear_arith)
                    requires
                        0 <= sb <= 255 * wb,
                        0 <= sf <= 255 * wf,
                        wb >= 0,
                        wf >= 0,
                ;
                assert((n as int) * (n as int) == diff * diff) by (nonlinear_arith)
                    requires
                        (n as int) == diff || (n as int) == -diff,
                ;
                assert(n <= 255 * d);
                assert(d == var_den(s, i as int));
                assert((n as int) * (n as int) == var_num(s, i as int));
            }
            let better: bool = if have_best {
                var_gt(n, d, best_n, best_d)
            } else {
                n > 0
            };
            if better {
                proof {
                    assert((n as int) * (n as int) > 0) by (nonlinear_arith)
                        requires
                            ((n as int) * (n as int) * (best_d as int) > (best_n as int) * (
                            best_n as int) * (d as int) && (best_n as int) * (best_n as int) >= 0
                                && (best_d as int) > 0 && (d as int) > 0) || (n as int) >= 1,
                    ;
                    if have_best {
                        let ghost o = best_i;
                        assert forall|j: int| valid_cut(s, j) && j < i as int implies var_num(s, j)
                            * var_den(s, i as int) < var_num(s, i as int) * var_den(s, j) by {
                            lemma_var_den_pos(s, j);
                            lemma_var_den_pos(s, o);
                            lemma_var_den_pos(s, i as int);
                            lemma_var_num_nonneg(s, j);
                            lemma_var_order_trans(
                                var_num(s, j),
                                var_den(s, j),
                                var_num(s, o),
                                var_den(s, o),
                                var_num(s, i as int),
                                var_den(s, i as int),
                            );
                        }
                    } else {
                        assert forall|j: int| valid_cut(s, j) && j < i as int implies var_num(s, j)
                            * var_den(s, i as int) < var_num(s, i as int) * var_den(s, j) by {
                            lemma_var_den_pos(s, j);
                            assert(var_num(s, j) == 0);
                            assert(var_num(s, i as int) * var_den(s, j) > 0) by (nonlinear_arith)
                                requires
                                    var_num(s, i as int) > 0,
                                    var_den(s, j) > 0,
                            ;
                        }
                    }
                }
                best_t = i as u8;
                best_n = n;
                best_d = d;
                have_best = true;
                proof {
                    best_i = i as int;
                }
            } else {
                proof {
                    if have_best {
                        assert(var_num(s, i as int) * var_den(s, best_i) <= var_num(s, best_i)
                            * var_den(s, i as int));
                    } else {
                        assert(n == 0);
                        assert((n as int) * (n as int) == 0) by (nonlinear_arith)
                            requires
                                (n as int) == 0,
                        ;
                        assert(var_num(s, i as int) == 0);
                    }
                }
            }
        }
        i = i + 1;
    }
    proof {
        if have_best {
            assert(exists|j: int| valid_cut(s, j) && var_num(s, j) > 0) by {
                assert(valid_cut(s, best_i) && var_num(s, best_i) > 0);
            }
        } else {
            if exists|j: int| valid_cut(s, j) && var_num(s, j) > 0 {
                let j = choose|j: int| valid_cut(s, j) && var_num(s, j) > 0;
                assert(var_num(s, j) == 0);
                assert(false);
            }
        }
    }
    best_t
}

} // verus!
