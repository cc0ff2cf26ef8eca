//! Linear-algebra and spectral behavior, on real IEEE-754 doubles supplied
//! to the kernel as bit patterns.

#![allow(dead_code)]

use tsnum::KernelError;

fn b(x: f64) -> u64 {
    x.to_bits()
}

fn f(x: u64) -> f64 {
    f64::from_bits(x)
}

fn vb(xs: &[f64]) -> Vec<u64> {
    xs.iter().map(|x| x.to_bits()).collect()
}

fn vf(xs: &[u64]) -> Vec<f64> {
    xs.iter().map(|x| f64::from_bits(*x)).collect()
}

fn fadd(x: u64, y: u64) -> u64 {
    (f64::from_bits(x) + f64::from_bits(y)).to_bits()
}

fn fsub(x: u64, y: u64) -> u64 {
    (f64::from_bits(x) - f64::from_bits(y)).to_bits()
}

fn fmul(x: u64, y: u64) -> u64 {
    (f64::from_bits(x) * f64::from_bits(y)).to_bits()
}

fn fdiv(x: u64, y: u64) -> u64 {
    (f64::from_bits(x) / f64::from_bits(y)).to_bits()
}

fn fcast(n: usize) -> u64 {
    (n as f64).to_bits()
}

/// The twiddle oracle: (cos, sin) of -2*pi*k/n.
fn ftw(k: usize, n: usize) -> (u64, u64) {
    let angle = -2.0 * std::f64::consts::PI * (k as f64) / (n as f64);
    let (s, c) = angle.sin_cos();
    (c.to_bits(), s.to_bits())
}

fn fft_f64(input: &[f64]) -> Vec<f64> {
    vf(&tsnum::fft(&vb(input), &fadd, &fsub, &fmul, &ftw).unwrap())
}

#[test]
fn test_matmul_2x2() {
    let a = vb(&[1.0, 2.0, 3.0, 4.0]);
    let bb = vb(&[5.0, 6.0, 7.0, 8.0]);
    let result = tsnum::matmul(&a, &bb, 2, 2, 2, &fadd, &fmul).unwrap();
    assert_eq!(vf(&result), vec![19.0, 22.0, 43.0, 50.0]);
}

#[test]
fn test_dot_product() {
    let a = vb(&[1.0, 2.0, 3.0]);
    let bb = vb(&[4.0, 5.0, 6.0]);
    let result = tsnum::dot(&a, &bb, &fadd, &fmul).unwrap();
    assert_eq!(f(result), 32.0);
}

#[test]
fn test_fft_basic() {
    let input = [1.0, 0.0, 0.0, 0.0];
    let result = fft_f64(&input);
    assert_eq!(result.len(), 8);
    assert!((result[0] - 1.0).abs() < 1e-10);
    assert!((result[2] - 1.0).abs() < 1e-10);
    assert!((result[4] - 1.0).abs() < 1e-10);
    assert!((result[6] - 1.0).abs() < 1e-10);
    assert!(result[1].abs() < 1e-10);
    assert!(result[3].abs() < 1e-10);
    assert!(result[5].abs() < 1e-10);
    assert!(result[7].abs() < 1e-10);
}

#[test]
fn test_ifft_roundtrip() {
    let input = [1.0, 2.0, 3.0, 4.0];
    let fft_result = tsnum::fft(&vb(&input), &fadd, &fsub, &fmul, &ftw).unwrap();
    let ifft_result = vf(
        &tsnum::ifft(&fft_result, 4, &fadd, &fsub, &fmul, &fdiv, &fcast, &ftw).unwrap(),
    );
    for i in 0..4 {
        assert!(
            (ifft_result[i * 2] - input[i]).abs() < 1e-10,
            "Mismatch at index {}: {} vs {}",
            i,
            ifft_result[i * 2],
            input[i]
        );
    }
    for i in 0..4 {
        assert!(ifft_result[i * 2 + 1].abs() < 1e-10);
    }
}

#[test]
fn matmul_dimension_mismatch() {
    let a = vb(&[1.0, 2.0, 3.0]);
    let bb = vb(&[1.0, 2.0, 3.0, 4.0]);
    assert_eq!(tsnum::matmul(&a, &bb, 2, 2, 2, &fadd, &fmul), Err(KernelError::DimensionMismatch));
    let a2 = vb(&[1.0, 2.0, 3.0, 4.0]);
    let b2 = vb(&[1.0, 2.0, 3.0]);
    assert_eq!(tsnum::matmul(&a2, &b2, 2, 2, 2, &fadd, &fmul), Err(KernelError::DimensionMismatch));
}

#[test]
fn matmul_rectangular() {
    // 1x3 times 3x2.
    let a = vb(&[1.0, 2.0, 3.0]);
    let bb = vb(&[1.0, 4.0, 2.0, 5.0, 3.0, 6.0]);
    let r = tsnum::matmul(&a, &bb, 1, 3, 2, &fadd, &fmul).unwrap();
    assert_eq!(vf(&r), vec![14.0, 32.0]);
}

#[test]
fn dot_length_mismatch() {
    let a = vb(&[1.0, 2.0]);
    let bb = vb(&[1.0]);
    assert_eq!(tsnum::dot(&a, &bb, &fadd, &fmul), Err(KernelError::LengthMismatch));
}

#[test]
fn transpose_values_and_involution() {
    let a = vb(&[1.0, 2.0, 3.0, 4.0, 5.0, 6.0]);
    let t = tsnum::transpose_matrix(&a, 2, 3).unwrap();
    assert_eq!(vf(&t), vec![1.0, 4.0, 2.0, 5.0, 3.0, 6.0]);
    let back = tsnum::transpose_matrix(&t, 3, 2).unwrap();
    assert_eq!(back, a);
    assert_eq!(tsnum::transpose_matrix(&a, 2, 2), Err(KernelError::DimensionMismatch));
}

#[test]
fn determinant_values() {
    let a2 = vb(&[1.0, 2.0, 3.0, 4.0]);
    assert_eq!(f(tsnum::det_matrix(&a2, 2, &fadd, &fsub, &fmul).unwrap()), -2.0);
    let a3 = vb(&[2.0, 0.0, 0.0, 0.0, 3.0, 0.0, 0.0, 0.0, 4.0]);
    assert_eq!(f(tsnum::det_matrix(&a3, 3, &fadd, &fsub, &fmul).unwrap()), 24.0);
    assert_eq!(
        tsnum::det_matrix(&a2, 4, &fadd, &fsub, &fmul),
        Err(KernelError::UnsupportedMatrixSize)
    );
    assert_eq!(
        tsnum::det_matrix(&a2, 3, &fadd, &fsub, &fmul),
        Err(KernelError::DimensionMismatch)
    );
}

#[test]
fn inverse_singular_2x2() {
    let a = vb(&[1.0, 2.0, 2.0, 4.0]);
    assert_eq!(
        tsnum::inv_matrix(&a, 2, &fadd, &fsub, &fmul, &fdiv),
        Err(KernelError::SingularMatrix)
    );
}

#[test]
fn inverse_2x2_values() {
    let a = vb(&[4.0, 7.0, 2.0, 6.0]);
    let v = vf(&tsnum::inv_matrix(&a, 2, &fadd, &fsub, &fmul, &fdiv).unwrap());
    let expect = [0.6, -0.7, -0.2, 0.4];
    for i in 0..4 {
        assert!((v[i] - expect[i]).abs() < 1e-12, "entry {}: {} vs {}", i, v[i], expect[i]);
    }
}

#[test]
fn inverse_3x3_values() {
    let a = vb(&[2.0, 0.0, 0.0, 0.0, 4.0, 0.0, 0.0, 0.0, 8.0]);
    let v = vf(&tsnum::inv_matrix(&a, 3, &fadd, &fsub, &fmul, &fdiv).unwrap());
    assert_eq!(v, vec![0.5, 0.0, 0.0, 0.0, 0.25, 0.0, 0.0, 0.0, 0.125]);
    assert_eq!(
        tsnum::inv_matrix(&a, 1, &fadd, &fsub, &fmul, &fdiv),
        Err(KernelError::UnsupportedMatrixSize)
    );
}

#[test]
fn fft_rejects_bad_lengths() {
    let a = vb(&[1.0, 2.0, 3.0]);
    assert_eq!(tsnum::fft(&a, &fadd, &fsub, &fmul, &ftw), Err(KernelError::InvalidFFTLength));
    let empty: Vec<u64> = vec![];
    assert_eq!(tsnum::fft(&empty, &fadd, &fsub, &fmul, &ftw), Err(KernelError::InvalidFFTLength));
}

#[test]
fn ifft_rejects_bad_lengths() {
    let a = vb(&[1.0, 2.0, 3.0, 4.0]);
    assert_eq!(
        tsnum::ifft(&a, 4, &fadd, &fsub, &fmul, &fdiv, &fcast, &ftw),
        Err(KernelError::LengthMismatch)
    );
    let six = vb(&[1.0, 2.0, 3.0, 4.0, 5.0, 6.0]);
    assert_eq!(
        tsnum::ifft(&six, 3, &fadd, &fsub, &fmul, &fdiv, &fcast, &ftw),
        Err(KernelError::InvalidFFTLength)
    );
}

#[test]
fn fft_is_linear() {
    let a = [1.0, -2.0, 0.5, 3.0, -1.0, 0.0, 2.5, -0.75];
    let bb = [0.25, 1.0, -1.5, 2.0, 0.0, -3.0, 1.0, 0.5];
    let sum: Vec<f64> = a.iter().zip(bb.iter()).map(|(x, y)| x + y).collect();
    let fa = fft_f64(&a);
    let fb = fft_f64(&bb);
    let fsum = fft_f64(&sum);
    for i in 0..fsum.len() {
        assert!((fsum[i] - (fa[i] + fb[i])).abs() < 1e-10);
    }
}

#[test]
fn fft_length_one() {
    let r = fft_f64(&[5.0]);
    assert_eq!(r, vec![5.0, 0.0]);
}

#[test]
fn ifft_roundtrip_longer() {
    let input = [0.5, -1.25, 3.0, 2.0, -0.5, 1.0, 0.0, -2.0];
    let fwd = tsnum::fft(&vb(&input), &fadd, &fsub, &fmul, &ftw).unwrap();
    let back = vf(&tsnum::ifft(&fwd, 8, &fadd, &fsub, &fmul, &fdiv, &fcast, &ftw).unwrap());
    for i in 0..8 {
        assert!((back[2 * i] - input[i]).abs() < 1e-10);
        assert!(back[2 * i + 1].abs() < 1e-10);
    }
}
