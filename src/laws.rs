//! Laws that relate the strategies and the shapes of their inputs.
use vstd::prelude::*;
use crate::algebra::{lemma_conv_commutes, lemma_conv_zero_pad, lemma_conv_zero_signal};
use crate::model::{
    at, conv_at, conv_len, fits, is_conv, lemma_conv_outside, mag, partial,
    zero_seq,
};

verus! {

/// Any two results that are the convolution of one signal and one kernel are
/// equal, whichever strategy (and whichever frame size) computed them.
pub proof fn lemma_methods_agree(x: Seq<i64>, h: Seq<i64>, y1: Seq<i64>, y2: Seq<i64>)
    requires
        is_conv(y1, x, h),
        is_conv(y2, x, h),
    ensures
        y1 == y2,
{
    assert forall|n: int| 0 <= n < y1.len() implies y1[n] == y2[n] by {
        assert(y1[n] as int == conv_at(x, h, n));
        assert(y2[n] as int == conv_at(x, h, n));
    }
    assert(y1 =~= y2);
}

/// Swapping the signal and the kernel changes neither whether the inputs fit
/// nor the result.
pub proof fn lemma_commutative(x: Seq<i64>, h: Seq<i64>, y1: Seq<i64>, y2: Seq<i64>)
    requires
        is_conv(y1, x, h),
        is_conv(y2, h, x),
    ensures
        y1 == y2,
        fits(x, h) == fits(h, x),
{
    assert forall|n: int| 0 <= n < y1.len() implies y1[n] == y2[n] by {
        lemma_conv_commutes(x, h, n);
        assert(y1[n] as int == conv_at(x, h, n));
        assert(y2[n] as int == conv_at(h, x, n));
    }
    assert(y1 =~= y2);
    assert(mag(x) * mag(h) == mag(h) * mag(x)) by (nonlinear_arith);
}

/// Convolving with the one-sample kernel `[1]` gives the signal back.
pub proof fn lemma_identity_kernel(x: Seq<i64>, y: Seq<i64>)
    requires
        is_conv(y, x, seq![1i64]),
    ensures
        y == x,
{
    assert forall|n: int| 0 <= n < y.len() implies y[n] == x[n] by {
        assert(y[n] as int == conv_at(x, seq![1i64], n));
        assert(partial(x, seq![1i64], n, 0) == 0);
        assert(seq![1i64][0] == 1);
        assert(at(seq![1i64], 0) == 1);
        assert(at(x, n) == x[n] as int);
        let one = seq![1i64];
        assert(one.len() == 1);
        assert(conv_at(x, one, n) == partial(x, one, n, 1));
        assert(partial(x, one, n, 1) == partial(x, one, n, 0) + at(one, 0) * at(x, n));
    }
    assert(y =~= x);
}

/// Convolving with an all-zero kernel gives all zeros.
pub proof fn lemma_zero_kernel(x: Seq<i64>, m: nat, y: Seq<i64>)
    requires
        m >= 1,
        is_conv(y, x, zero_seq(m)),
    ensures
        y == zero_seq(conv_len(x.len() as int, m as int) as nat),
{
    assert forall|n: int| 0 <= n < y.len() implies y[n] == 0 by {
        assert(y[n] as int == conv_at(x, zero_seq(m), n));
        lemma_conv_commutes(x, zero_seq(m), n);
        lemma_conv_zero_signal(m, x, n);
    }
    assert(y =~= zero_seq(conv_len(x.len() as int, m as int) as nat));
}

/// Zero padding both operands and cutting the product back to `N + M - 1`
/// reproduces the unpadded convolution, the product is zero past that length,
/// and cutting a padded buffer back to its length gives the buffer.
pub proof fn lemma_padding(x: Seq<i64>, h: Seq<i64>, a: nat, b: nat, n: int)
    requires
        x.len() >= 1,
        h.len() >= 1,
    ensures
        conv_at(x + zero_seq(a), h + zero_seq(b), n) == conv_at(x, h, n),
        n >= conv_len(x.len() as int, h.len() as int) ==> conv_at(
            x + zero_seq(a),
            h + zero_seq(b),
            n,
        ) == 0,
        (x + zero_seq(a)).take(x.len() as int) == x,
{
    lemma_conv_zero_pad(x, h, a, b, n);
    if n >= conv_len(x.len() as int, h.len() as int) {
        lemma_conv_outside(x, h, n);
    }
    assert((x + zero_seq(a)).take(x.len() as int) =~= x);
}

} // verus!
