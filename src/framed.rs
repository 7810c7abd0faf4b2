//! Framed convolution by overlap-add: the signal is cut into frames of a fixed
//! size, each frame is convolved with the kernel padded once to the transform
//! length, and the per-frame results are summed at their offsets.
use vstd::prelude::*;
use crate::algebra::{is_shift_sum, lemma_conv_zero_signal, lemma_concat_shift_sum, lemma_conv_shift, lemma_conv_zero_pad};
use crate::direct::zeros;
use crate::fast::karatsuba;
use crate::model::{
    conv_at, fits, is_conv, is_pow2, lemma_conv_bound, lemma_conv_outside,
    lemma_mag_concat, lemma_mag_nonneg, lemma_mag_prefix_window, lemma_mag_window,
    lemma_mag_zero_seq, mag, window, zero_seq,
};
use crate::padding::{transform_len, truncate, zero_pad};

verus! {

/// The frame of `frame_size` samples of `x` that starts at `start`, zero past the end of `x`.
pub fn frame_at(x: &Vec<i64>, start: usize, frame_size: usize) -> (r: Vec<i64>)
    requires
        start + frame_size <= usize::MAX,
    ensures
        r@ == window(x@, start as int, frame_size as nat),
{
    let mut r: Vec<i64> = Vec::new();
    let mut j: usize = 0;
    while j < frame_size
        invariant
            j <= frame_size,
            start + frame_size <= usize::MAX,
            r@ == window(x@, start as int, j as nat),
        decreases frame_size - j,
    {
        if start + j < x.len() {
            r.push(x[start + j]);
        } else {
            r.push(0);
        }
        proof {
            assert(r@ =~= window(x@, start as int, (j + 1) as nat));
        }
        j = j + 1;
    }
    r
}

/// The number of frames of `frame_size` samples that cover `len` samples.
pub fn frame_count(len: usize, frame_size: usize) -> (r: usize)
    requires
        len >= 1,
        frame_size >= 1,
    ensures
        r >= 1,
        r * frame_size >= len,
        (r - 1) * frame_size < len,
{
    let q = (len - 1) / frame_size;
    proof {
        let (a, d) = ((len - 1) as int, frame_size as int);
        assert(q * d <= a < (q + 1) * d) by (nonlinear_arith)
            requires
                q == a / d,
                d > 0,
                a >= 0,
        ;
    }
    q + 1
}

/// Overlap-add convolution with frames of `frame_size` samples; a frame size of
/// at least `N` makes a single frame.
pub fn overlap_add(x: &Vec<i64>, h: &Vec<i64>, frame_size: usize) -> (y: Vec<i64>)
    requires
        x.len() >= 1,
        h.len() >= 1,
        frame_size >= 1,
        fits(x@, h@),
    ensures
        is_conv(y@, x@, h@),
{
    let xlen = x.len();
    let hlen = h.len();
    let fs = if frame_size < xlen { frame_size } else { xlen };
    let nframes = frame_count(xlen, fs);
    proof {
        assert(nframes * fs <= xlen + fs) by (nonlinear_arith)
            requires
                (nframes - 1) * fs < xlen,
                fs >= 1,
        ;
    }
    let flen = fs + hlen - 1;
    let tlen = transform_len(flen);
    let hp = zero_pad(h, tlen, 0);
    let ghost hz = zero_seq((tlen - hlen) as nat);
    proof {
        assert(hp@ =~= h@ + hz);
        lemma_mag_concat(h@, hz);
        lemma_mag_zero_seq((tlen - hlen) as nat);
    }
    let full_len = nframes * fs + hlen - 1;
    let mut y = zeros(full_len);
    let mut i: usize = 0;
    proof {
        assert forall|n: int| 0 <= n < full_len implies #[trigger] y@[n] as int == conv_at(
            window(x@, 0, 0),
            h@,
            n,
        ) by {
            assert(window(x@, 0, 0) =~= zero_seq(0));
            lemma_conv_zero_signal(0, h@, n);
        }
    }
    while i < nframes
        invariant
            xlen == x.len(),
            hlen == h.len(),
            xlen >= 1,
            hlen >= 1,
            1 <= fs <= xlen,
            fits(x@, h@),
            (nframes - 1) * fs < xlen,
            nframes * fs <= xlen + fs,
            flen == fs + hlen - 1,
            tlen >= flen,
            tlen == 1 || tlen / 2 < flen,
            is_pow2(tlen as int),
            hp@ == h@ + hz,
            hz == zero_seq((tlen - hlen) as nat),
            mag(hp@) == mag(h@),
            full_len == nframes * fs + hlen - 1,
            y.len() == full_len,
            i <= nframes,
            forall|n: int|
                0 <= n < full_len ==> #[trigger] y@[n] as int == conv_at(
                    window(x@, 0, (i * fs) as nat),
                    h@,
                    n,
                ),
        decreases nframes - i,
    {
        proof {
            assert(i * fs <= (nframes - 1) * fs) by (nonlinear_arith)
                requires
                    i < nframes,
                    fs >= 1,
            ;
            assert((i + 1) * fs == i * fs + fs) by (nonlinear_arith);
            assert((i + 1) * fs <= nframes * fs) by (nonlinear_arith)
                requires
                    i < nframes,
                    fs >= 1,
            ;
        }
        let start = i * fs;
        let frame = frame_at(x, start, fs);
        let fp = zero_pad(&frame, tlen, 0);
        let ghost fz = zero_seq((tlen - fs) as nat);
        let ghost pre = window(x@, 0, start as nat);
        let ghost next = window(x@, 0, (start + fs) as nat);
        proof {
            assert(fp@ =~= frame@ + fz);
            lemma_mag_concat(frame@, fz);
            lemma_mag_zero_seq((tlen - fs) as nat);
            lemma_mag_window(x@, start as nat, fs as nat);
            lemma_mag_nonneg(frame@);
            lemma_mag_nonneg(h@);
            assert(mag(frame@) * mag(h@) <= mag(x@) * mag(h@)) by (nonlinear_arith)
                requires
                    0 <= mag(frame@) <= mag(x@),
                    0 <= mag(h@),
            ;
            assert(next =~= pre + frame@);
            lemma_concat_shift_sum(pre, frame@);
            lemma_mag_prefix_window(x@, (start + fs) as nat);
            lemma_mag_nonneg(next);
            assert(mag(next) * mag(h@) <= mag(x@) * mag(h@)) by (nonlinear_arith)
                requires
                    0 <= mag(next) <= mag(x@),
                    0 <= mag(h@),
            ;
        }
        let z = karatsuba(&fp, &hp);
        let mut j: usize = 0;
        while j < flen
            invariant
                flen == fs + hlen - 1,
                fs >= 1,
                hlen >= 1,
                tlen >= flen,
                z.len() == 2 * tlen - 1,
                is_conv(z@, fp@, hp@),
                fp@ == frame@ + fz,
                hp@ == h@ + hz,
                fz == zero_seq((tlen - fs) as nat),
                hz == zero_seq((tlen - hlen) as nat),
                frame@.len() == fs,
                start + fs <= xlen + fs,
                nframes * fs <= xlen + fs,
                start + fs <= nframes * fs,
                full_len == nframes * fs + hlen - 1,
                y.len() == full_len,
                is_shift_sum(next, pre, frame@, start as int),
                mag(next) * mag(h@) <= i64::MAX,
                j <= flen,
                forall|n: int|
                    0 <= n < full_len ==> #[trigger] y@[n] as int == conv_at(pre, h@, n) + (
                    if start <= n < start + j {
                        conv_at(frame@, h@, n - start)
                    } else {
                        0
                    }),
            decreases flen - j,
        {
            proof {
                let n = (start + j) as int;
                lemma_conv_zero_pad(frame@, h@, (tlen - fs) as nat, (tlen - hlen) as nat, j as int);
                lemma_conv_shift(next, pre, frame@, start as int, h@, n);
                lemma_conv_bound(next, h@, n);
            }
            y.set(start + j, y[start + j] + z[j]);
            j = j + 1;
        }
        proof {
            assert forall|n: int| 0 <= n < full_len implies #[trigger] y@[n] as int == conv_at(next, h@, n) by {
                lemma_conv_shift(next, pre, frame@, start as int, h@, n);
                if !(start <= n < start + flen) {
                    lemma_conv_outside(frame@, h@, n - start);
                }
            }
        }
        i = i + 1;
    }
    let ylen = xlen + hlen - 1;
    let y = truncate(&y, ylen);
    proof {
        let xz = zero_seq((nframes * fs - xlen) as nat);
        assert(window(x@, 0, (nframes * fs) as nat) =~= x@ + xz);
        assert(h@ + zero_seq(0) =~= h@);
        assert forall|n: int| 0 <= n < y.len() implies #[trigger] y@[n] as int == conv_at(x@, h@, n) by {
            lemma_conv_zero_pad(x@, h@, (nframes * fs - xlen) as nat, 0, n);
        }
    }
    y
}

} // verus!
