//! Divide-and-conquer fast multiplication (Karatsuba) of coefficient vectors.
use vstd::prelude::*;
use crate::algebra::{
    is_shift_sum, lemma_concat_shift_sum, lemma_conv_kernel_split, lemma_conv_kernel_sum,
    lemma_conv_shift, lemma_conv_zero_pad,
};
use crate::model::{
    at, conv_at, fits, is_conv, is_pow2, lemma_at_le_mag, lemma_conv_bound, lemma_conv_outside,
    lemma_mag_concat, lemma_mag_nonneg, lemma_mag_sum, lemma_mag_zero_seq, lemma_mul_abs_le, mag,
    mags_fit, partial, zero_seq,
};
use crate::padding::{transform_len, truncate, zero_pad};

verus! {

/// The entries `start .. start + len` of `v`.
pub fn segment(v: &Vec<i64>, start: usize, len: usize) -> (r: Vec<i64>)
    requires
        start + len <= v.len(),
    ensures
        r@ == v@.subrange(start as int, start + len),
{
    let mut r: Vec<i64> = Vec::new();
    let mut i: usize = 0;
    while i < len
        invariant
            i <= len,
            start + len <= v.len(),
            r@ == v@.subrange(start as int, start + i),
        decreases len - i,
    {
        r.push(v[start + i]);
        i = i + 1;
    }
    r
}

/// The entrywise sum of two vectors of one length.
fn add_entries(a: &Vec<i64>, b: &Vec<i64>) -> (r: Vec<i64>)
    requires
        a.len() == b.len(),
        mag(a@) + mag(b@) <= i64::MAX,
    ensures
        r.len() == a.len(),
        forall|i: int| 0 <= i < r.len() ==> #[trigger] r@[i] as int == a@[i] + b@[i],
{
    let mut r: Vec<i64> = Vec::new();
    let mut i: usize = 0;
    while i < a.len()
        invariant
            i <= a.len(),
            a.len() == b.len(),
            mag(a@) + mag(b@) <= i64::MAX,
            r.len() == i,
            forall|j: int| 0 <= j < i ==> #[trigger] r@[j] as int == a@[j] + b@[j],
        decreases a.len() - i,
    {
        proof {
            lemma_at_le_mag(a@, i as int);
            lemma_at_le_mag(b@, i as int);
            lemma_mag_nonneg(a@);
            lemma_mag_nonneg(b@);
        }
        r.push(a[i] + b[i]);
        i = i + 1;
    }
    r
}

/// Entry `j` of `z`, or zero outside it.
fn entry(z: &Vec<i64>, j: usize, shift: usize) -> (r: i64)
    ensures
        r as int == at(z@, j - shift),
{
    if j >= shift && j - shift < z.len() {
        z[j - shift]
    } else {
        0
    }
}

/// Fast multiplication of two coefficient vectors of one power-of-two length:
/// the full linear convolution, of length `2n - 1`.
pub fn karatsuba(x: &Vec<i64>, h: &Vec<i64>) -> (r: Vec<i64>)
    requires
        x.len() == h.len(),
        is_pow2(x.len() as int),
        x.len() + h.len() <= usize::MAX,
        mags_fit(x@, h@),
    ensures
        is_conv(r@, x@, h@),
    decreases x.len(),
{
    let n = x.len();
    if n == 1 {
        proof {
            lemma_at_le_mag(x@, 0);
            lemma_at_le_mag(h@, 0);
            lemma_mul_abs_le(at(h@, 0), at(x@, 0), mag(h@), mag(x@));
            assert(mag(h@) * mag(x@) == mag(x@) * mag(h@)) by (nonlinear_arith);
        }
        let mut r: Vec<i64> = Vec::new();
        r.push(h[0] * x[0]);
        proof {
            assert(partial(x@, h@, 0, 0) == 0);
            assert(r@[0] as int == conv_at(x@, h@, 0));
        }
        return r;
    }
    let m = n / 2;
    let x0 = segment(x, 0, m);
    let x1 = segment(x, m, m);
    let h0 = segment(h, 0, m);
    let h1 = segment(h, m, m);
    let ghost gx = x@;
    let ghost gh = h@;
    proof {
        assert(x0@ + x1@ =~= x@);
        assert(h0@ + h1@ =~= h@);
        lemma_mag_concat(x0@, x1@);
        lemma_mag_concat(h0@, h1@);
        lemma_mag_nonneg(x0@);
        lemma_mag_nonneg(x1@);
        lemma_mag_nonneg(h0@);
        lemma_mag_nonneg(h1@);
        let (a0, a1, b0, b1) = (mag(x0@), mag(x1@), mag(h0@), mag(h1@));
        assert((a0 + a1) * (b0 + b1) == a0 * b0 + a0 * b1 + a1 * b0 + a1 * b1) by (nonlinear_arith);
        assert(a0 * b0 >= 0 && a0 * b1 >= 0 && a1 * b0 >= 0 && a1 * b1 >= 0) by (nonlinear_arith)
            requires
                a0 >= 0 && a1 >= 0 && b0 >= 0 && b1 >= 0,
        ;
    }
    let z0 = karatsuba(&x0, &h0);
    let z2 = karatsuba(&x1, &h1);
    let xs = add_entries(&x0, &x1);
    let hs = add_entries(&h0, &h1);
    proof {
        lemma_mag_sum(xs@, x0@, x1@);
        lemma_mag_sum(hs@, h0@, h1@);
        lemma_mag_nonneg(xs@);
        lemma_mag_nonneg(hs@);
        assert(mag(xs@) * mag(hs@) <= mag(x@) * mag(h@)) by (nonlinear_arith)
            requires
                0 <= mag(xs@) <= mag(x@),
                0 <= mag(hs@) <= mag(h@),
        ;
    }
    let z1 = karatsuba(&xs, &hs);
    let ghost x0s = x0@;
    let ghost x1s = x1@;
    let ghost h0s = h0@;
    let ghost h1s = h1@;
    proof {
        assert forall|j: int| #[trigger] at(xs@, j) == at(x0s, j) + at(x1s, j - 0) by {}
        assert forall|j: int| #[trigger] at(hs@, j) == at(h0s, j) + at(h1s, j - 0) by {}
        lemma_concat_shift_sum(x0s, x1s);
    }
    let len = 2 * n - 1;
    let mut r: Vec<i64> = Vec::new();
    let mut i: usize = 0;
    while i < len
        invariant
            len == 2 * n - 1,
            n == 2 * m,
            m >= 1,
            x.len() == n,
            h.len() == n,
            gx == x@,
            gh == h@,
            x0s + x1s == gx,
            h0s + h1s == gh,
            x0s.len() == m,
            x1s.len() == m,
            h0s.len() == m,
            h1s.len() == m,
            is_shift_sum(xs@, x0s, x1s, 0),
            is_shift_sum(hs@, h0s, h1s, 0),
            is_shift_sum(gx, x0s, x1s, m as int),
            xs.len() == m,
            hs.len() == m,
            is_conv(z0@, x0s, h0s),
            is_conv(z1@, xs@, hs@),
            is_conv(z2@, x1s, h1s),
            mag(gx) == mag(x0s) + mag(x1s),
            mag(gh) == mag(h0s) + mag(h1s),
            mag(x0s) >= 0,
            mag(x1s) >= 0,
            mag(h0s) >= 0,
            mag(h1s) >= 0,
            mags_fit(gx, gh),
            i <= len,
            r.len() == i,
            forall|j: int| 0 <= j < i ==> #[trigger] r@[j] as int == conv_at(gx, gh, j),
        decreases len - i,
    {
        let a = entry(&z0, i, 0);
        let p = entry(&z1, i, m);
        let q = entry(&z0, i, m);
        let c = entry(&z2, i, 2 * m);
        let ghost j = i as int;
        let ghost (a00, a01, a10, a11) = (
            conv_at(x0s, h0s, j - m),
            conv_at(x0s, h1s, j - m),
            conv_at(x1s, h0s, j - m),
            conv_at(x1s, h1s, j - m),
        );
        proof {
            // the three products as functions of the index
            if j - m < 0 || j - m >= 2 * m - 1 {
                lemma_conv_outside(xs@, hs@, j - m);
                lemma_conv_outside(x0s, h0s, j - m);
                lemma_conv_outside(x1s, h1s, j - m);
            }
            if j >= 2 * m - 1 {
                lemma_conv_outside(x0s, h0s, j);
            }
            if j - 2 * m < 0 {
                lemma_conv_outside(x1s, h1s, j - 2 * m);
            }
            lemma_conv_shift(xs@, x0s, x1s, 0, hs@, j - m);
            lemma_conv_kernel_sum(x0s, hs@, h0s, h1s, j - m);
            lemma_conv_kernel_sum(x1s, hs@, h0s, h1s, j - m);
            // the whole product, split on both operands
            lemma_conv_shift(gx, x0s, x1s, m as int, gh, j);
            lemma_conv_kernel_split(x0s, h0s, h1s, j);
            lemma_conv_kernel_split(x1s, h0s, h1s, j - m);
            // bounds on the intermediate sums
            lemma_conv_bound(x0s, h0s, j);
            lemma_conv_bound(x0s, h1s, j - m);
            lemma_conv_bound(x1s, h0s, j - m);
            lemma_conv_bound(x1s, h1s, j - m);
            lemma_conv_bound(gx, gh, j);
            let (ma0, ma1, mb0, mb1) = (mag(x0s), mag(x1s), mag(h0s), mag(h1s));
            assert((ma0 + ma1) * (mb0 + mb1) == ma0 * mb0 + ma0 * mb1 + ma1 * mb0 + ma1 * mb1)
                by (nonlinear_arith);
            assert(ma0 * mb0 >= 0 && ma0 * mb1 >= 0 && ma1 * mb0 >= 0 && ma1 * mb1 >= 0)
                by (nonlinear_arith)
                requires
                    ma0 >= 0 && ma1 >= 0 && mb0 >= 0 && mb1 >= 0,
            ;
        }
        let q2 = entry(&z2, i, m);
        let mid = p - q - q2;
        let v = a + mid + c;
        r.push(v);
        i = i + 1;
    }
    r
}

/// Convolution by fast multiplication: both operands are zero-padded to the
/// transform length, multiplied, and the product is cut back to `N + M - 1`.
pub fn fast_multiply(x: &Vec<i64>, h: &Vec<i64>) -> (y: Vec<i64>)
    requires
        x.len() >= 1,
        h.len() >= 1,
        fits(x@, h@),
    ensures
        is_conv(y@, x@, h@),
{
    let ylen = x.len() + h.len() - 1;
    let len = transform_len(ylen);
    let xp = zero_pad(x, len, 0);
    let hp = zero_pad(h, len, 0);
    let ghost xz = zero_seq((len - x.len()) as nat);
    let ghost hz = zero_seq((len - h.len()) as nat);
    proof {
        assert(xp@ =~= x@ + xz);
        assert(hp@ =~= h@ + hz);
        lemma_mag_concat(x@, xz);
        lemma_mag_concat(h@, hz);
        lemma_mag_zero_seq((len - x.len()) as nat);
        lemma_mag_zero_seq((len - h.len()) as nat);
    }
    let z = karatsuba(&xp, &hp);
    let y = truncate(&z, ylen);
    proof {
        assert forall|n: int| 0 <= n < y.len() implies #[trigger] y@[n] as int == conv_at(x@, h@, n) by {
            lemma_conv_zero_pad(x@, h@, (len - x.len()) as nat, (len - h.len()) as nat, n);
        }
    }
    y
}

} // verus!
