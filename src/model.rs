//! The mathematical model: the convolution of two integer sequences.
use vstd::prelude::*;

verus! {

/// The largest value a sample or an accumulated coefficient may take.
pub open spec fn sample_max() -> int {
    i64::MAX as int
}

pub open spec fn abs(v: int) -> int {
    if v < 0 { -v } else { v }
}

/// Entry `j` of `x`, read as zero outside `0..x.len()`.
pub open spec fn at(x: Seq<i64>, j: int) -> int {
    if 0 <= j < x.len() { x[j] as int } else { 0 }
}

/// The sum of the first `k` terms `h[k'] * x[n - k']` of coefficient `n`.
pub open spec fn partial(x: Seq<i64>, h: Seq<i64>, n: int, k: int) -> int
    decreases k,
{
    if k <= 0 {
        0
    } else {
        partial(x, h, n, k - 1) + at(h, k - 1) * at(x, n - (k - 1))
    }
}

/// Coefficient `n` of the linear convolution of `x` and `h` (zero outside the result).
pub open spec fn conv_at(x: Seq<i64>, h: Seq<i64>, n: int) -> int {
    partial(x, h, n, h.len() as int)
}

/// The length of the convolution of sequences of lengths `n` and `m`.
pub open spec fn conv_len(n: int, m: int) -> int {
    n + m - 1
}

/// `y` is the linear convolution of `x` and `h`.
pub open spec fn is_conv(y: Seq<i64>, x: Seq<i64>, h: Seq<i64>) -> bool {
    &&& y.len() == conv_len(x.len() as int, h.len() as int)
    &&& forall|n: int| 0 <= n < y.len() ==> #[trigger] y[n] as int == conv_at(x, h, n)
}

/// The sum of the magnitudes of the entries of `s`.
pub open spec fn mag(s: Seq<i64>) -> int
    decreases s.len(),
{
    if s.len() == 0 {
        0
    } else {
        mag(s.drop_last()) + abs(s.last() as int)
    }
}

/// The inputs are small enough that every intermediate value of every strategy
/// fits in an `i64`, and the padded lengths fit in a `usize`.
pub open spec fn fits(x: Seq<i64>, h: Seq<i64>) -> bool {
    &&& mags_fit(x, h)
    &&& x.len() + h.len() <= len_max()
}

/// The magnitudes of `x` and `h`, and their product, fit in an `i64`.
pub open spec fn mags_fit(x: Seq<i64>, h: Seq<i64>) -> bool {
    &&& mag(x) <= sample_max()
    &&& mag(h) <= sample_max()
    &&& mag(x) * mag(h) <= sample_max()
}

/// The largest total length of the two inputs.
pub open spec fn len_max() -> int {
    (usize::MAX / 4) as int
}

pub proof fn lemma_mul_abs_le(a: int, b: int, ma: int, mb: int)
    requires
        abs(a) <= ma,
        abs(b) <= mb,
    ensures
        abs(a * b) <= ma * mb,
        abs(a * b) == abs(a) * abs(b),
{
    assert(abs(a * b) == abs(a) * abs(b)) by (nonlinear_arith);
    assert(abs(a) * abs(b) <= ma * mb) by (nonlinear_arith)
        requires
            0 <= abs(a) <= ma,
            0 <= abs(b) <= mb,
    ;
}

pub proof fn lemma_mag_nonneg(s: Seq<i64>)
    ensures
        mag(s) >= 0,
    decreases s.len(),
{
    if s.len() > 0 {
        lemma_mag_nonneg(s.drop_last());
    }
}

/// Taking one more entry of a prefix adds its magnitude.
pub proof fn lemma_mag_take_step(s: Seq<i64>, k: int)
    requires
        0 <= k < s.len(),
    ensures
        mag(s.take(k + 1)) == mag(s.take(k)) + abs(s[k] as int),
{
    assert(s.take(k + 1).drop_last() =~= s.take(k));
}

pub proof fn lemma_mag_take_le(s: Seq<i64>, k: int)
    requires
        0 <= k <= s.len(),
    ensures
        0 <= mag(s.take(k)) <= mag(s),
    decreases s.len() - k,
{
    if k == s.len() {
        assert(s.take(k) =~= s);
        lemma_mag_nonneg(s);
    } else {
        lemma_mag_take_le(s, k + 1);
        lemma_mag_take_step(s, k);
        lemma_mag_nonneg(s.take(k));
    }
}

pub proof fn lemma_at_le_mag(s: Seq<i64>, j: int)
    ensures
        abs(at(s, j)) <= mag(s),
    decreases s.len(),
{
    lemma_mag_nonneg(s);
    if 0 <= j < s.len() {
        if j == s.len() - 1 {
            lemma_mag_nonneg(s.drop_last());
        } else {
            lemma_at_le_mag(s.drop_last(), j);
        }
    }
}

/// A partial sum is bounded by the magnitudes of the terms it holds.
pub proof fn lemma_partial_bound(x: Seq<i64>, h: Seq<i64>, n: int, k: int)
    requires
        0 <= k <= h.len(),
    ensures
        abs(partial(x, h, n, k)) <= mag(h.take(k)) * mag(x),
    decreases k,
{
    if k == 0 {
        assert(h.take(0) =~= Seq::<i64>::empty());
    } else {
        lemma_partial_bound(x, h, n, k - 1);
        lemma_mag_take_step(h, k - 1);
        lemma_at_le_mag(x, n - (k - 1));
        lemma_mul_abs_le(at(h, k - 1), at(x, n - (k - 1)), abs(h[k - 1] as int), mag(x));
        let a = mag(h.take(k - 1));
        let b = abs(h[k - 1] as int);
        assert((a + b) * mag(x) == a * mag(x) + b * mag(x)) by (nonlinear_arith);
    }
}

/// Every coefficient of the convolution is bounded by the product of the magnitudes.
pub proof fn lemma_conv_bound(x: Seq<i64>, h: Seq<i64>, n: int)
    ensures
        abs(conv_at(x, h, n)) <= mag(x) * mag(h),
{
    lemma_partial_bound(x, h, n, h.len() as int);
    assert(h.take(h.len() as int) =~= h);
    assert(mag(h) * mag(x) == mag(x) * mag(h)) by (nonlinear_arith);
}

/// Partial sums beyond coefficient `n`'s reach of `x` are zero.
pub proof fn lemma_partial_zero(x: Seq<i64>, h: Seq<i64>, n: int, k: int)
    requires
        forall|j: int| 0 <= j < k ==> #[trigger] at(x, n - j) == 0,
    ensures
        partial(x, h, n, k) == 0,
    decreases k,
{
    if k > 0 {
        lemma_partial_zero(x, h, n, k - 1);
        assert(at(x, n - (k - 1)) == 0);
    }
}

/// Terms with a zero factor of `x` add nothing to a partial sum.
pub proof fn lemma_partial_flat(x: Seq<i64>, h: Seq<i64>, n: int, a: int, b: int)
    requires
        0 <= a <= b,
        forall|j: int| a <= j < b ==> #[trigger] at(x, n - j) == 0,
    ensures
        partial(x, h, n, b) == partial(x, h, n, a),
    decreases b - a,
{
    if b > a {
        lemma_partial_flat(x, h, n, a, b - 1);
        assert(at(x, n - (b - 1)) == 0);
    }
}

/// The convolution is zero outside `0..conv_len`.
pub proof fn lemma_conv_outside(x: Seq<i64>, h: Seq<i64>, n: int)
    requires
        n < 0 || n >= conv_len(x.len() as int, h.len() as int),
    ensures
        conv_at(x, h, n) == 0,
{
    assert forall|j: int| 0 <= j < h.len() implies #[trigger] at(x, n - j) == 0 by {}
    lemma_partial_zero(x, h, n, h.len() as int);
}

/// `n` is a power of two.
pub open spec fn is_pow2(n: int) -> bool
    decreases n,
{
    if n <= 0 {
        false
    } else if n == 1 {
        true
    } else {
        n % 2 == 0 && is_pow2(n / 2)
    }
}

pub proof fn lemma_mag_concat(a: Seq<i64>, b: Seq<i64>)
    ensures
        mag(a + b) == mag(a) + mag(b),
    decreases b.len(),
{
    if b.len() == 0 {
        assert(a + b =~= a);
    } else {
        assert((a + b).drop_last() =~= a + b.drop_last());
        lemma_mag_concat(a, b.drop_last());
    }
}

/// The magnitude of an entrywise sum is at most the sum of the magnitudes.
pub proof fn lemma_mag_sum(s: Seq<i64>, a: Seq<i64>, b: Seq<i64>)
    requires
        s.len() == a.len(),
        s.len() == b.len(),
        forall|i: int| 0 <= i < s.len() ==> #[trigger] s[i] as int == a[i] + b[i],
    ensures
        mag(s) <= mag(a) + mag(b),
    decreases s.len(),
{
    if s.len() > 0 {
        lemma_mag_sum(s.drop_last(), a.drop_last(), b.drop_last());
        assert(s.last() as int == a.last() + b.last());
    }
}

/// `len` zeros.
pub open spec fn zero_seq(len: nat) -> Seq<i64> {
    Seq::new(len, |i: int| 0i64)
}

pub proof fn lemma_mag_zero_seq(len: nat)
    ensures
        mag(zero_seq(len)) == 0,
    decreases len,
{
    if len > 0 {
        assert(zero_seq(len).drop_last() =~= zero_seq((len - 1) as nat));
        lemma_mag_zero_seq((len - 1) as nat);
    }
}

/// The `len` entries of `x` from `start` on, zero past its end.
pub open spec fn window(x: Seq<i64>, start: int, len: nat) -> Seq<i64> {
    Seq::new(len, |j: int| at(x, start + j) as i64)
}

/// A window of `x` is no larger in magnitude than `x`.
pub proof fn lemma_mag_window(x: Seq<i64>, start: nat, len: nat)
    ensures
        mag(window(x, start as int, len)) <= mag(x),
        mag(window(x, 0, start)) <= mag(x),
{
    let whole = window(x, 0, start + len);
    assert(whole =~= window(x, 0, start) + window(x, start as int, len));
    lemma_mag_concat(window(x, 0, start), window(x, start as int, len));
    lemma_mag_nonneg(window(x, 0, start));
    lemma_mag_nonneg(window(x, start as int, len));
    lemma_mag_prefix_window(x, start + len);
}

/// A window of `x` from its start is a prefix of `x`, or `x` followed by zeros.
pub proof fn lemma_mag_prefix_window(x: Seq<i64>, len: nat)
    ensures
        mag(window(x, 0, len)) <= mag(x),
{
    if len <= x.len() {
        assert(window(x, 0, len) =~= x.take(len as int));
        lemma_mag_take_le(x, len as int);
    } else {
        let z = zero_seq((len - x.len()) as nat);
        assert(window(x, 0, len) =~= x + z);
        lemma_mag_concat(x, z);
        lemma_mag_zero_seq((len - x.len()) as nat);
    }
}

} // verus!
