//! The convolution engine: a signal and a kernel, and one call that runs the
//! selected strategy on them.
use vstd::prelude::*;
use crate::direct::{input_side, output_side};
use crate::fast::fast_multiply;
use crate::framed::overlap_add;
use crate::model::{fits, is_conv, lemma_mag_take_le, lemma_mag_take_step, mag};

verus! {

/// The strategy that computes a convolution.
#[derive(Debug, Clone, Copy, PartialEq, Eq)]
pub enum ConvolutionMethod {
    /// Direct summation by output index.
    OutputSide,
    /// Direct summation by kernel tap, adding into the output.
    InputSide,
    /// Divide-and-conquer fast multiplication on power-of-two padded operands.
    Karatsuba,
    /// Overlap-add over frames of the given size.
    OverlapAdd(usize),
}

/// Why a convolution was refused.
#[derive(Debug, Clone, Copy, PartialEq, Eq)]
pub enum ConvolveError {
    /// The signal or the kernel is empty.
    InvalidInput,
    /// The frame size of an overlap-add is zero.
    InvalidParameter,
    /// The samples are too large for every intermediate sum to fit in an `i64`,
    /// or the sequences too long for the padded buffers.
    OutOfRange,
}

/// The sum of the magnitudes of `v`, where it fits in an `i64`.
pub fn magnitude(v: &Vec<i64>) -> (r: Option<u64>)
    ensures
        match r {
            Some(m) => m == mag(v@) && mag(v@) <= i64::MAX,
            None => mag(v@) > i64::MAX,
        },
{
    let mut acc: u64 = 0;
    let mut i: usize = 0;
    while i < v.len()
        invariant
            i <= v.len(),
            acc as int == mag(v@.take(i as int)),
            acc <= i64::MAX,
        decreases v.len() - i,
    {
        proof {
            lemma_mag_take_step(v@, i as int);
            lemma_mag_take_le(v@, i as int + 1);
        }
        let s = v[i];
        if s == i64::MIN {
            return None;
        }
        let a: u64 = if s < 0 { (-s) as u64 } else { s as u64 };
        if acc > (i64::MAX as u64) - a {
            return None;
        }
        acc = acc + a;
        i = i + 1;
    }
    proof {
        assert(v@.take(v.len() as int) =~= v@);
    }
    Some(acc)
}

/// Whether `x` and `h` are within the limits that every strategy needs.
pub fn within_limits(x: &Vec<i64>, h: &Vec<i64>) -> (r: bool)
    ensures
        r == fits(x@, h@),
{
    let quarter = usize::MAX / 4;
    if x.len() > quarter || h.len() > quarter - x.len() {
        return false;
    }
    match (magnitude(x), magnitude(h)) {
        (Some(mx), Some(mh)) => {
            assert((mx as int) * (mh as int) <= (i64::MAX as int) * (i64::MAX as int)) by (nonlinear_arith)
                requires
                    0 <= mx <= i64::MAX,
                    0 <= mh <= i64::MAX,
            ;
            let p: u128 = (mx as u128) * (mh as u128);
            p <= i64::MAX as u128
        },
        _ => false,
    }
}

/// A signal and a kernel, read-only for the engine's lifetime.
pub struct Convolve<'a> {
    x: &'a Vec<i64>,
    h: &'a Vec<i64>,
}

impl<'a> Convolve<'a> {
    /// The signal.
    pub closed spec fn signal(&self) -> Seq<i64> {
        self.x@
    }

    /// The kernel.
    pub closed spec fn kernel(&self) -> Seq<i64> {
        self.h@
    }

    pub fn new(x: &'a Vec<i64>, h: &'a Vec<i64>) -> (r: Self)
        ensures
            r.signal() == x@,
            r.kernel() == h@,
    {
        Convolve { x, h }
    }

    /// The linear convolution of the signal and the kernel, `N + M - 1` samples,
    /// computed by `mode`.
    pub fn convolve(&self, mode: ConvolutionMethod) -> (r: Result<Vec<i64>, ConvolveError>)
        ensures
            (self.signal().len() == 0 || self.kernel().len() == 0) <==> r == Err::<
                Vec<i64>,
                ConvolveError,
            >(ConvolveError::InvalidInput),
            r == Err::<Vec<i64>, ConvolveError>(ConvolveError::InvalidParameter) <==> (
            self.signal().len() > 0 && self.kernel().len() > 0 && mode
                == ConvolutionMethod::OverlapAdd(0)),
            r == Err::<Vec<i64>, ConvolveError>(ConvolveError::OutOfRange) <==> (
            self.signal().len() > 0 && self.kernel().len() > 0 && mode
                != ConvolutionMethod::OverlapAdd(0) && !fits(self.signal(), self.kernel())),
            r is Ok <==> (self.signal().len() > 0 && self.kernel().len() > 0 && mode
                != ConvolutionMethod::OverlapAdd(0) && fits(self.signal(), self.kernel())),
            r matches Ok(y) ==> is_conv(y@, self.signal(), self.kernel()),
    {
        if self.x.len() == 0 || self.h.len() == 0 {
            return Err(ConvolveError::InvalidInput);
        }
        if let ConvolutionMethod::OverlapAdd(frame_size) = mode {
            if frame_size == 0 {
                return Err(ConvolveError::InvalidParameter);
            }
        }
        if !within_limits(self.x, self.h) {
            return Err(ConvolveError::OutOfRange);
        }
        let y = match mode {
            ConvolutionMethod::InputSide => input_side(self.x, self.h),
            ConvolutionMethod::OutputSide => output_side(self.x, self.h),
            ConvolutionMethod::Karatsuba => fast_multiply(self.x, self.h),
            ConvolutionMethod::OverlapAdd(frame_size) => overlap_add(self.x, self.h, frame_size),
        };
        Ok(y)
    }
}

} // verus!
