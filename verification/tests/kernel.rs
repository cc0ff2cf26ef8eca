//! Elementwise and reduction behavior, on real IEEE-754 doubles supplied to
//! the kernel as bit patterns.

#![allow(dead_code)]

use tsnum::KernelError;

fn b(x: f64) -> u64 {
    x.to_bits()
}

fn f(x: u64) -> f64 {
    f64::from_bits(x)
}

fn vb(xs: &[f64]) -> Vec<u64> {
    xs.iter().map(|x| x.to_bits()).collect()
}

fn vf(xs: &[u64]) -> Vec<f64> {
    xs.iter().map(|x| f64::from_bits(*x)).collect()
}

fn fadd(x: u64, y: u64) -> u64 {
    (f64::from_bits(x) + f64::from_bits(y)).to_bits()
}

fn fsub(x: u64, y: u64) -> u64 {
    (f64::from_bits(x) - f64::from_bits(y)).to_bits()
}

fn fmul(x: u64, y: u64) -> u64 {
    (f64::from_bits(x) * f64::from_bits(y)).to_bits()
}

fn fdiv(x: u64, y: u64) -> u64 {
    (f64::from_bits(x) / f64::from_bits(y)).to_bits()
}

fn frem(x: u64, y: u64) -> u64 {
    (f64::from_bits(x) % f64::from_bits(y)).to_bits()
}

fn fpow(x: u64, y: u64) -> u64 {
    f64::from_bits(x).powf(f64::from_bits(y)).to_bits()
}

fn fsqrt(x: u64) -> u64 {
    f64::from_bits(x).sqrt().to_bits()
}

fn fcast(n: usize) -> u64 {
    (n as f64).to_bits()
}

#[test]
fn test_add_arrays() {
    let a = vb(&[1.0, 2.0, 3.0]);
    let bb = vb(&[4.0, 5.0, 6.0]);
    let result = tsnum::add_arrays(&a, &bb, &fadd).unwrap();
    assert_eq!(vf(&result), vec![5.0, 7.0, 9.0]);
}

#[test]
fn test_add_scalar() {
    let a = vb(&[1.0, 2.0, 3.0]);
    let result = tsnum::add_scalar(&a, b(10.0), &fadd);
    assert_eq!(vf(&result), vec![11.0, 12.0, 13.0]);
}

#[test]
fn test_sum() {
    let a = vb(&[1.0, 2.0, 3.0, 4.0]);
    assert_eq!(f(tsnum::sum(&a, &fadd)), 10.0);
}

#[test]
fn test_mean() {
    let a = vb(&[2.0, 4.0, 6.0, 8.0]);
    assert_eq!(f(tsnum::mean(&a, &fadd, &fdiv, &fcast)), 5.0);
}

#[test]
fn test_variance() {
    let a = vb(&[2.0, 4.0, 6.0, 8.0]);
    assert_eq!(f(tsnum::variance(&a, &fadd, &fsub, &fmul, &fdiv, &fcast)), 5.0);
}

#[test]
fn add_scalar_zero_is_identity() {
    let a = vb(&[1.5, -2.25, 0.0, 1e300, -7.125]);
    let result = tsnum::add_scalar(&a, b(0.0), &fadd);
    assert_eq!(vf(&result), vec![1.5, -2.25, 0.0, 1e300, -7.125]);
}

#[test]
fn add_arrays_commutes() {
    let a = vb(&[0.1, -2.0, 1e-12, 3.75]);
    let bb = vb(&[7.25, 0.3, -1e12, -0.5]);
    let r1 = tsnum::add_arrays(&a, &bb, &fadd).unwrap();
    let r2 = tsnum::add_arrays(&bb, &a, &fadd).unwrap();
    assert_eq!(vf(&r1), vf(&r2));
}

#[test]
fn binary_length_mismatch() {
    let a = vb(&[1.0, 2.0]);
    let bb = vb(&[1.0]);
    assert_eq!(tsnum::add_arrays(&a, &bb, &fadd), Err(KernelError::LengthMismatch));
    assert_eq!(tsnum::sub_arrays(&a, &bb, &fsub), Err(KernelError::LengthMismatch));
    assert_eq!(tsnum::mul_arrays(&a, &bb, &fmul), Err(KernelError::LengthMismatch));
    assert_eq!(tsnum::div_arrays(&a, &bb, &fdiv), Err(KernelError::LengthMismatch));
    assert_eq!(tsnum::mod_arrays(&a, &bb, &frem), Err(KernelError::LengthMismatch));
    assert_eq!(tsnum::fmod_arrays(&a, &bb, &frem), Err(KernelError::LengthMismatch));
    assert_eq!(tsnum::maximum_arrays(&a, &bb), Err(KernelError::LengthMismatch));
    assert_eq!(tsnum::minimum_arrays(&a, &bb), Err(KernelError::LengthMismatch));
}

#[test]
fn elementwise_binary_values() {
    let a = vb(&[6.0, -3.5, 8.0]);
    let bb = vb(&[2.0, 0.5, -4.0]);
    assert_eq!(vf(&tsnum::sub_arrays(&a, &bb, &fsub).unwrap()), vec![4.0, -4.0, 12.0]);
    assert_eq!(vf(&tsnum::mul_arrays(&a, &bb, &fmul).unwrap()), vec![12.0, -1.75, -32.0]);
    assert_eq!(vf(&tsnum::div_arrays(&a, &bb, &fdiv).unwrap()), vec![3.0, -7.0, -2.0]);
    assert_eq!(vf(&tsnum::maximum_arrays(&a, &bb).unwrap()), vec![6.0, 0.5, 8.0]);
    assert_eq!(vf(&tsnum::minimum_arrays(&a, &bb).unwrap()), vec![2.0, -3.5, -4.0]);
}

#[test]
fn elementwise_scalar_values() {
    let a = vb(&[6.0, -3.0]);
    assert_eq!(vf(&tsnum::sub_scalar(&a, b(1.0), &fsub)), vec![5.0, -4.0]);
    assert_eq!(vf(&tsnum::mul_scalar(&a, b(2.0), &fmul)), vec![12.0, -6.0]);
    assert_eq!(vf(&tsnum::div_scalar(&a, b(3.0), &fdiv)), vec![2.0, -1.0]);
    assert_eq!(vf(&tsnum::pow_scalar(&vb(&[2.0, 3.0]), b(3.0), &fpow)), vec![8.0, 27.0]);
    assert_eq!(vf(&tsnum::mod_scalar(&vb(&[5.5, -5.5]), b(2.0), &frem)), vec![1.5, -1.5]);
    assert_eq!(vf(&tsnum::fmod_scalar(&vb(&[5.5]), b(2.0), &frem)), vec![1.5]);
}

#[test]
fn abs_and_sign() {
    let a = vb(&[-1.5, 2.0, -0.0, 0.0, -3.0]);
    assert_eq!(vf(&tsnum::abs_array(&a)), vec![1.5, 2.0, 0.0, 0.0, 3.0]);
    let s = vf(&tsnum::sign_array(&a));
    assert_eq!(s, vec![-1.0, 1.0, 0.0, 0.0, -1.0]);
    let nan_sign = tsnum::sign_array(&vec![f64::NAN.to_bits()]);
    assert_eq!(f(nan_sign[0]), 0.0);
}

#[test]
fn clip_values() {
    let a = vb(&[-5.0, 0.5, 9.0, 1.0]);
    assert_eq!(vf(&tsnum::clip_array(&a, b(0.0), b(2.0))), vec![0.0, 0.5, 2.0, 1.0]);
}

#[test]
fn unary_math_values() {
    let fexp = |x: u64| f64::from_bits(x).exp().to_bits();
    let flog = |x: u64| f64::from_bits(x).ln().to_bits();
    let fcbrt = |x: u64| f64::from_bits(x).cbrt().to_bits();
    assert_eq!(vf(&tsnum::sqrt_array(&vb(&[4.0, 9.0]), &fsqrt)), vec![2.0, 3.0]);
    assert_eq!(vf(&tsnum::exp_array(&vb(&[0.0]), &fexp)), vec![1.0]);
    assert_eq!(vf(&tsnum::log_array(&vb(&[1.0]), &flog)), vec![0.0]);
    assert_eq!(vf(&tsnum::cbrt_array(&vb(&[27.0]), &fcbrt)), vec![3.0]);
    assert_eq!(vf(&tsnum::square_array(&vb(&[3.0, -4.0]), &fmul)), vec![9.0, 16.0]);
    assert_eq!(vf(&tsnum::reciprocal_array(&vb(&[2.0, 4.0]), &fdiv)), vec![0.5, 0.25]);
}

#[test]
fn rounding_family() {
    let fround = |x: u64| f64::from_bits(x).round().to_bits();
    let ffloor = |x: u64| f64::from_bits(x).floor().to_bits();
    let fceil = |x: u64| f64::from_bits(x).ceil().to_bits();
    let ftrunc = |x: u64| f64::from_bits(x).trunc().to_bits();
    let a = vb(&[1.5, -1.5, 2.25]);
    assert_eq!(vf(&tsnum::round_array(&a, &fround)), vec![2.0, -2.0, 2.0]);
    assert_eq!(vf(&tsnum::floor_array(&a, &ffloor)), vec![1.0, -2.0, 2.0]);
    assert_eq!(vf(&tsnum::ceil_array(&a, &fceil)), vec![2.0, -1.0, 3.0]);
    assert_eq!(vf(&tsnum::trunc_array(&a, &ftrunc)), vec![1.0, -1.0, 2.0]);
}

#[test]
fn angle_conversions() {
    let pi = std::f64::consts::PI;
    let r = vf(&tsnum::deg2rad_array(&vb(&[180.0, 90.0]), &fmul, &fdiv));
    assert!((r[0] - pi).abs() < 1e-12);
    assert!((r[1] - pi / 2.0).abs() < 1e-12);
    let d = vf(&tsnum::rad2deg_array(&vb(&[pi]), &fmul, &fdiv));
    assert!((d[0] - 180.0).abs() < 1e-12);
}

#[test]
fn two_argument_functions() {
    let fatan2 = |y: u64, x: u64| f64::from_bits(y).atan2(f64::from_bits(x)).to_bits();
    let fhypot = |x: u64, y: u64| f64::from_bits(x).hypot(f64::from_bits(y)).to_bits();
    let r = vf(&tsnum::arctan2_arrays(&vb(&[1.0]), &vb(&[1.0]), &fatan2).unwrap());
    assert!((r[0] - std::f64::consts::PI / 4.0).abs() < 1e-12);
    let h = vf(&tsnum::hypot_arrays(&vb(&[3.0]), &vb(&[4.0]), &fhypot).unwrap());
    assert_eq!(h, vec![5.0]);
    assert_eq!(
        tsnum::arctan2_arrays(&vb(&[1.0, 2.0]), &vb(&[1.0]), &fatan2),
        Err(KernelError::LengthMismatch)
    );
    assert_eq!(
        tsnum::hypot_arrays(&vb(&[1.0, 2.0]), &vb(&[1.0]), &fhypot),
        Err(KernelError::LengthMismatch)
    );
}

#[test]
fn empty_reductions() {
    let a: Vec<u64> = vec![];
    assert_eq!(f(tsnum::mean(&a, &fadd, &fdiv, &fcast)), 0.0);
    assert_eq!(f(tsnum::variance(&a, &fadd, &fsub, &fmul, &fdiv, &fcast)), 0.0);
    assert_eq!(f(tsnum::max(&a)), f64::NEG_INFINITY);
    assert_eq!(f(tsnum::min(&a)), f64::INFINITY);
    assert_eq!(f(tsnum::sum(&a, &fadd)), 0.0);
}

#[test]
fn max_min_values() {
    let a = vb(&[3.0, -7.0, 12.5, 0.0]);
    assert_eq!(f(tsnum::max(&a)), 12.5);
    assert_eq!(f(tsnum::min(&a)), -7.0);
    let with_nan = vec![b(2.0), f64::NAN.to_bits(), b(5.0)];
    assert_eq!(f(tsnum::max(&with_nan)), 5.0);
    assert_eq!(f(tsnum::min(&with_nan)), 2.0);
}

#[test]
fn std_dev_value() {
    let a = vb(&[2.0, 4.0, 6.0, 8.0]);
    let s = f(tsnum::std_dev(&a, &fadd, &fsub, &fmul, &fdiv, &fcast, &fsqrt));
    assert!((s - 5.0f64.sqrt()).abs() < 1e-15);
}

#[test]
fn maximum_handles_nan() {
    let a = vec![f64::NAN.to_bits(), b(1.0)];
    let bb = vec![b(3.0), f64::NAN.to_bits()];
    let r = tsnum::maximum_arrays(&a, &bb).unwrap();
    assert_eq!(vf(&r), vec![3.0, 1.0]);
}

#[test]
fn ordering_matches_native_floats() {
    let tricky = [
        0.0f64,
        -0.0,
        1.0,
        -1.0,
        f64::MIN_POSITIVE,
        5e-324,
        -5e-324,
        f64::MAX,
        -f64::MAX,
        f64::INFINITY,
        f64::NEG_INFINITY,
        f64::NAN,
        1e300,
        -1e300,
        0.5,
        -2.75,
    ];
    for &x in tricky.iter() {
        for &y in tricky.iter() {
            let r = f(tsnum::maximum_arrays(&vec![b(x)], &vec![b(y)]).unwrap()[0]);
            let expect = x.max(y);
            if expect.is_nan() {
                assert!(r.is_nan(), "max({x}, {y}) gave {r}");
            } else {
                assert_eq!(r, expect, "max({x}, {y})");
            }
            let r = f(tsnum::minimum_arrays(&vec![b(x)], &vec![b(y)]).unwrap()[0]);
            let expect = x.min(y);
            if expect.is_nan() {
                assert!(r.is_nan(), "min({x}, {y}) gave {r}");
            } else {
                assert_eq!(r, expect, "min({x}, {y})");
            }
        }
    }
    // Clipping agrees with the native clamp wherever clamp is defined.
    for &x in tricky.iter() {
        let r = f(tsnum::clip_array(&vec![b(x)], b(-1.0), b(2.0))[0]);
        let expect = x.clamp(-1.0, 2.0);
        if expect.is_nan() {
            assert!(r.is_nan());
        } else {
            assert_eq!(r, expect, "clip({x})");
        }
    }
}

#[test]
fn transcendental_families() {
    let one = |g: fn(f64) -> f64, x: f64| -> f64 {
        let fg = |v: u64| g(f64::from_bits(v)).to_bits();
        f(tsnum::map_unary(&vec![b(x)], &fg)[0])
    };
    assert_eq!(f(tsnum::exp2_array(&vb(&[3.0]), &|x: u64| f64::from_bits(x).exp2().to_bits())[0]), 8.0);
    assert_eq!(f(tsnum::expm1_array(&vb(&[0.0]), &|x: u64| f64::from_bits(x).exp_m1().to_bits())[0]), 0.0);
    assert_eq!(f(tsnum::log2_array(&vb(&[8.0]), &|x: u64| f64::from_bits(x).log2().to_bits())[0]), 3.0);
    assert_eq!(f(tsnum::log10_array(&vb(&[100.0]), &|x: u64| f64::from_bits(x).log10().to_bits())[0]), 2.0);
    assert_eq!(f(tsnum::log1p_array(&vb(&[0.0]), &|x: u64| f64::from_bits(x).ln_1p().to_bits())[0]), 0.0);
    assert_eq!(f(tsnum::sin_array(&vb(&[0.0]), &|x: u64| f64::from_bits(x).sin().to_bits())[0]), 0.0);
    assert_eq!(f(tsnum::cos_array(&vb(&[0.0]), &|x: u64| f64::from_bits(x).cos().to_bits())[0]), 1.0);
    assert_eq!(f(tsnum::tan_array(&vb(&[0.0]), &|x: u64| f64::from_bits(x).tan().to_bits())[0]), 0.0);
    assert_eq!(f(tsnum::sinh_array(&vb(&[0.0]), &|x: u64| f64::from_bits(x).sinh().to_bits())[0]), 0.0);
    assert_eq!(f(tsnum::cosh_array(&vb(&[0.0]), &|x: u64| f64::from_bits(x).cosh().to_bits())[0]), 1.0);
    assert_eq!(f(tsnum::tanh_array(&vb(&[0.0]), &|x: u64| f64::from_bits(x).tanh().to_bits())[0]), 0.0);
    let half_pi = std::f64::consts::PI / 2.0;
    assert_eq!(one(f64::asin, 1.0), half_pi);
    assert_eq!(f(tsnum::arcsin_array(&vb(&[1.0]), &|x: u64| f64::from_bits(x).asin().to_bits())[0]), half_pi);
    assert_eq!(f(tsnum::arccos_array(&vb(&[1.0]), &|x: u64| f64::from_bits(x).acos().to_bits())[0]), 0.0);
    assert_eq!(f(tsnum::arctan_array(&vb(&[0.0]), &|x: u64| f64::from_bits(x).atan().to_bits())[0]), 0.0);
    assert_eq!(f(tsnum::asinh_array(&vb(&[0.0]), &|x: u64| f64::from_bits(x).asinh().to_bits())[0]), 0.0);
    assert_eq!(f(tsnum::acosh_array(&vb(&[1.0]), &|x: u64| f64::from_bits(x).acosh().to_bits())[0]), 0.0);
    assert_eq!(f(tsnum::atanh_array(&vb(&[0.0]), &|x: u64| f64::from_bits(x).atanh().to_bits())[0]), 0.0);
}
