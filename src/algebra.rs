//! Algebraic laws of the convolution model: linearity, splitting and symmetry.
use vstd::prelude::*;
use crate::model::{at, conv_at, lemma_partial_zero, partial, zero_seq};

verus! {

/// `x` is `a` plus `b` shifted right by `s`, entry by entry.
pub open spec fn is_shift_sum(x: Seq<i64>, a: Seq<i64>, b: Seq<i64>, s: int) -> bool {
    forall|j: int| #[trigger] at(x, j) == at(a, j) + at(b, j - s)
}

pub proof fn lemma_concat_shift_sum(a: Seq<i64>, b: Seq<i64>)
    ensures
        is_shift_sum(a + b, a, b, a.len() as int),
{
    assert forall|j: int| #[trigger] at(a + b, j) == at(a, j) + at(b, j - a.len()) by {
        if 0 <= j < a.len() {
            assert((a + b)[j] == a[j]);
        } else if a.len() <= j < a.len() + b.len() {
            assert((a + b)[j] == b[j - a.len()]);
        }
    }
}

/// A partial sum is linear in its first argument.
pub proof fn lemma_partial_shift(x: Seq<i64>, a: Seq<i64>, b: Seq<i64>, s: int, h: Seq<i64>, n: int, k: int)
    requires
        is_shift_sum(x, a, b, s),
    ensures
        partial(x, h, n, k) == partial(a, h, n, k) + partial(b, h, n - s, k),
    decreases k,
{
    if k > 0 {
        lemma_partial_shift(x, a, b, s, h, n, k - 1);
        let c = at(h, k - 1);
        let u = at(a, n - (k - 1));
        let v = at(b, n - s - (k - 1));
        assert(at(x, n - (k - 1)) == u + v);
        assert(c * (u + v) == c * u + c * v) by (nonlinear_arith);
    }
}

/// The convolution is linear in its first argument, with a shift.
pub proof fn lemma_conv_shift(x: Seq<i64>, a: Seq<i64>, b: Seq<i64>, s: int, h: Seq<i64>, n: int)
    requires
        is_shift_sum(x, a, b, s),
    ensures
        conv_at(x, h, n) == conv_at(a, h, n) + conv_at(b, h, n - s),
{
    lemma_partial_shift(x, a, b, s, h, n, h.len() as int);
}

/// A partial sum is linear in its second argument.
pub proof fn lemma_partial_kernel_sum(x: Seq<i64>, h: Seq<i64>, h1: Seq<i64>, h2: Seq<i64>, n: int, k: int)
    requires
        is_shift_sum(h, h1, h2, 0),
    ensures
        partial(x, h, n, k) == partial(x, h1, n, k) + partial(x, h2, n, k),
    decreases k,
{
    if k > 0 {
        lemma_partial_kernel_sum(x, h, h1, h2, n, k - 1);
        let u = at(h1, k - 1);
        let v = at(h2, k - 1);
        let c = at(x, n - (k - 1));
        assert(at(h, k - 1) == u + v);
        assert((u + v) * c == u * c + v * c) by (nonlinear_arith);
    }
}

/// A partial sum reads only the first `k` entries of the kernel.
pub proof fn lemma_partial_prefix(x: Seq<i64>, h1: Seq<i64>, h2: Seq<i64>, n: int, k: int)
    requires
        forall|j: int| 0 <= j < k ==> #[trigger] at(h1, j) == at(h2, j),
    ensures
        partial(x, h1, n, k) == partial(x, h2, n, k),
    decreases k,
{
    if k > 0 {
        lemma_partial_prefix(x, h1, h2, n, k - 1);
        assert(at(h1, k - 1) == at(h2, k - 1));
    }
}

/// Convolving with a single sample scales and reads one entry.
pub proof fn lemma_partial_single(c: i64, x: Seq<i64>, j: int, k: int)
    requires
        k >= 0,
    ensures
        partial(seq![c], x, j, k) == if j < k { at(x, j) * c } else { 0 },
    decreases k,
{
    if k > 0 {
        lemma_partial_single(c, x, j, k - 1);
    }
}

/// The convolution is symmetric in its two arguments.
pub proof fn lemma_conv_commutes(x: Seq<i64>, h: Seq<i64>, n: int)
    ensures
        conv_at(x, h, n) == conv_at(h, x, n),
    decreases h.len(),
{
    if h.len() == 0 {
        assert forall|j: int| 0 <= j < x.len() implies #[trigger] at(h, n - j) == 0 by {}
        lemma_partial_zero(h, x, n, x.len() as int);
    } else {
        let hp = h.drop_last();
        let c = h.last();
        let t = hp.len() as int;
        lemma_conv_commutes(x, hp, n);
        assert forall|j: int| 0 <= j < t implies #[trigger] at(h, j) == at(hp, j) by {}
        lemma_partial_prefix(x, h, hp, n, t);
        assert(hp + seq![c] =~= h);
        lemma_concat_shift_sum(hp, seq![c]);
        lemma_conv_shift(h, hp, seq![c], t, x, n);
        lemma_partial_single(c, x, n - t, x.len() as int);
        assert(at(h, t) == c);
    }
}

/// Splitting the kernel splits the convolution.
pub proof fn lemma_conv_kernel_split(x: Seq<i64>, a: Seq<i64>, b: Seq<i64>, n: int)
    ensures
        conv_at(x, a + b, n) == conv_at(x, a, n) + conv_at(x, b, n - a.len()),
{
    lemma_conv_commutes(x, a + b, n);
    lemma_conv_commutes(x, a, n);
    lemma_conv_commutes(x, b, n - a.len());
    lemma_concat_shift_sum(a, b);
    lemma_conv_shift(a + b, a, b, a.len() as int, x, n);
}

/// The convolution is linear in its kernel.
pub proof fn lemma_conv_kernel_sum(x: Seq<i64>, h: Seq<i64>, h1: Seq<i64>, h2: Seq<i64>, n: int)
    requires
        is_shift_sum(h, h1, h2, 0),
        h.len() == h1.len(),
        h.len() == h2.len(),
    ensures
        conv_at(x, h, n) == conv_at(x, h1, n) + conv_at(x, h2, n),
{
    lemma_partial_kernel_sum(x, h, h1, h2, n, h.len() as int);
}

/// Convolving with an all-zero sequence gives zero.
pub proof fn lemma_conv_zero_signal(len: nat, h: Seq<i64>, n: int)
    ensures
        conv_at(zero_seq(len), h, n) == 0,
{
    assert forall|j: int| 0 <= j < h.len() implies #[trigger] at(zero_seq(len), n - j) == 0 by {}
    lemma_partial_zero(zero_seq(len), h, n, h.len() as int);
}

/// Zeros appended to either operand leave the convolution unchanged.
pub proof fn lemma_conv_zero_pad(x: Seq<i64>, h: Seq<i64>, a: nat, b: nat, n: int)
    ensures
        conv_at(x + zero_seq(a), h + zero_seq(b), n) == conv_at(x, h, n),
{
    let hp = h + zero_seq(b);
    lemma_concat_shift_sum(x, zero_seq(a));
    lemma_conv_shift(x + zero_seq(a), x, zero_seq(a), x.len() as int, hp, n);
    lemma_conv_zero_signal(a, hp, n - x.len());
    lemma_conv_kernel_split(x, h, zero_seq(b), n);
    lemma_conv_commutes(x, zero_seq(b), n - h.len());
    lemma_conv_zero_signal(b, x, n - h.len());
}

} // verus!
