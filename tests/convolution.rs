use convalgs::direct::{input_side, output_side, zeros};
use convalgs::engine::{magnitude, within_limits, ConvolutionMethod, ConvolveError, Convolve};
use convalgs::fast::{fast_multiply, karatsuba, segment};
use convalgs::framed::{frame_at, frame_count, overlap_add};
use convalgs::padding::{transform_len, truncate, zero_pad};

const ALL: [ConvolutionMethod; 4] = [
    ConvolutionMethod::InputSide,
    ConvolutionMethod::OutputSide,
    ConvolutionMethod::Karatsuba,
    ConvolutionMethod::OverlapAdd(2),
];

fn reference(x: &[i64], h: &[i64]) -> Vec<i64> {
    let mut y = vec![0i64; x.len() + h.len() - 1];
    for n in 0..y.len() {
        for k in 0..h.len() {
            if n >= k && n - k < x.len() {
                y[n] += h[k] * x[n - k];
            }
        }
    }
    y
}

fn pseudo_random(seed: u64, len: usize, range: i64) -> Vec<i64> {
    let mut state = seed.wrapping_mul(6364136223846793005).wrapping_add(1442695040888963407);
    let mut v = Vec::new();
    for _ in 0..len {
        state = state.wrapping_mul(6364136223846793005).wrapping_add(1442695040888963407);
        v.push(((state >> 33) as i64) % (2 * range + 1) - range);
    }
    v
}

fn run(x: &Vec<i64>, h: &Vec<i64>, m: ConvolutionMethod) -> Result<Vec<i64>, ConvolveError> {
    Convolve::new(x, h).convolve(m)
}

#[test]
fn scenario_fixed_point() {
    // tenths: x = [0.1, -3.2, 1.5, 7.0, 5.7], h = [0.7, -3.4, 1.0]; the result is in hundredths
    let x = vec![1, -32, 15, 70, 57];
    let h = vec![7, -34, 10];
    let expected = vec![7, -258, 1203, -340, -1831, -1238, 570];
    for m in ALL {
        let y = run(&x, &h, m).unwrap();
        assert_eq!(y.len(), 7);
        assert_eq!(y, expected);
    }
    assert_eq!(input_side(&x, &h), output_side(&x, &h));
}

#[test]
fn length_law() {
    for n in 1..9 {
        for m in 1..9 {
            let x = pseudo_random(n as u64, n, 100);
            let h = pseudo_random(100 + m as u64, m, 100);
            for meth in ALL {
                assert_eq!(run(&x, &h, meth).unwrap().len(), n + m - 1);
            }
        }
    }
}

#[test]
fn methods_agree() {
    for n in 1..20 {
        for m in 1..12 {
            let x = pseudo_random(7 * n as u64, n, 1000);
            let h = pseudo_random(3 * m as u64 + 1, m, 1000);
            let want = reference(&x, &h);
            assert_eq!(run(&x, &h, ConvolutionMethod::InputSide).unwrap(), want);
            assert_eq!(run(&x, &h, ConvolutionMethod::OutputSide).unwrap(), want);
            assert_eq!(run(&x, &h, ConvolutionMethod::Karatsuba).unwrap(), want);
            for f in 1..n + 3 {
                assert_eq!(run(&x, &h, ConvolutionMethod::OverlapAdd(f)).unwrap(), want);
            }
        }
    }
}

#[test]
fn commutative() {
    let x = pseudo_random(11, 13, 500);
    let h = pseudo_random(12, 6, 500);
    for m in ALL {
        assert_eq!(run(&x, &h, m).unwrap(), run(&h, &x, m).unwrap());
    }
}

#[test]
fn identity_kernel() {
    let x = vec![1, -32, 15, 70, 57];
    let h = vec![1];
    for m in ALL {
        assert_eq!(run(&x, &h, m).unwrap(), x);
    }
}

#[test]
fn zero_kernel() {
    let x = vec![1, -32, 15, 70, 57];
    let h = vec![0, 0, 0];
    for m in ALL {
        assert_eq!(run(&x, &h, m).unwrap(), vec![0; 7]);
    }
}

#[test]
fn frame_size_invariance() {
    let x = pseudo_random(5, 37, 300);
    let h = pseudo_random(6, 9, 300);
    let whole = run(&x, &h, ConvolutionMethod::Karatsuba).unwrap();
    for f in [1, 2, 3, 7, 36, 37, 38, 1000, usize::MAX] {
        assert_eq!(overlap_add(&x, &h, f), whole);
    }
}

#[test]
fn fast_multiply_matches_output_side() {
    for (seed, n, m) in [(1u64, 1usize, 1usize), (2, 2, 7), (3, 16, 16), (4, 33, 5), (5, 100, 64)] {
        let x = pseudo_random(seed, n, 10_000);
        let h = pseudo_random(seed + 50, m, 10_000);
        assert_eq!(fast_multiply(&x, &h), output_side(&x, &h));
    }
}

#[test]
fn karatsuba_power_of_two() {
    let x = vec![1, 2, 3, 4];
    let h = vec![5, 6, 7, 8];
    assert_eq!(karatsuba(&x, &h), vec![5, 16, 34, 60, 61, 52, 32]);
    assert_eq!(karatsuba(&vec![-3], &vec![4]), vec![-12]);
}

#[test]
fn padding_round_trip() {
    let x = vec![4, -1, 9];
    let padded = zero_pad(&x, 8, 0);
    assert_eq!(padded, vec![4, -1, 9, 0, 0, 0, 0, 0]);
    assert_eq!(truncate(&padded, 3), x);
    let h = vec![2, 5];
    let full = karatsuba(&padded, &zero_pad(&h, 8, 0));
    assert_eq!(truncate(&full, 4), input_side(&x, &h));
    assert!(full[4..].iter().all(|&v| v == 0));
}

#[test]
fn transform_lengths() {
    assert_eq!(transform_len(0), 1);
    assert_eq!(transform_len(1), 1);
    assert_eq!(transform_len(2), 2);
    assert_eq!(transform_len(5), 8);
    assert_eq!(transform_len(8), 8);
    assert_eq!(transform_len(9), 16);
    assert_eq!(transform_len(4097), 8192);
}

#[test]
fn frames() {
    assert_eq!(frame_count(10, 3), 4);
    assert_eq!(frame_count(9, 3), 3);
    assert_eq!(frame_count(1, 5), 1);
    let x = vec![1, 2, 3, 4, 5];
    assert_eq!(frame_at(&x, 0, 2), vec![1, 2]);
    assert_eq!(frame_at(&x, 4, 3), vec![5, 0, 0]);
    assert_eq!(segment(&x, 1, 3), vec![2, 3, 4]);
    assert_eq!(zeros(3), vec![0, 0, 0]);
}

#[test]
fn empty_input_rejected() {
    let e: Vec<i64> = vec![];
    let x = vec![1, 2];
    for m in ALL {
        assert_eq!(run(&e, &x, m), Err(ConvolveError::InvalidInput));
        assert_eq!(run(&x, &e, m), Err(ConvolveError::InvalidInput));
    }
    assert_eq!(run(&e, &e, ConvolutionMethod::OverlapAdd(0)), Err(ConvolveError::InvalidInput));
}

#[test]
fn zero_frame_size_rejected() {
    let x = vec![1, 2];
    assert_eq!(run(&x, &x, ConvolutionMethod::OverlapAdd(0)), Err(ConvolveError::InvalidParameter));
}

#[test]
fn out_of_range_rejected() {
    let big = vec![i64::MIN];
    let one = vec![1];
    assert_eq!(run(&big, &one, ConvolutionMethod::InputSide), Err(ConvolveError::OutOfRange));
    let x = vec![1i64 << 32, 1];
    assert_eq!(run(&x, &x, ConvolutionMethod::Karatsuba), Err(ConvolveError::OutOfRange));
    let y = vec![(1i64 << 31) - 1, 0];
    assert!(run(&y, &y, ConvolutionMethod::Karatsuba).is_ok());
    assert_eq!(run(&vec![i64::MAX], &one, ConvolutionMethod::OutputSide).unwrap(), vec![i64::MAX]);
}

#[test]
fn limits() {
    assert_eq!(magnitude(&vec![3, -4, 0]), Some(7));
    assert_eq!(magnitude(&vec![i64::MIN]), None);
    assert_eq!(magnitude(&vec![i64::MAX, 1]), None);
    assert_eq!(magnitude(&vec![i64::MAX]), Some(i64::MAX as u64));
    assert!(within_limits(&vec![1, 2], &vec![3]));
    assert!(!within_limits(&vec![1 << 40], &vec![1 << 30]));
    assert!(within_limits(&vec![], &vec![]));
}
