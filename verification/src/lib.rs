//! A numeric compute kernel for flat buffers of IEEE-754 double-precision
//! values, intended to sit behind an array-programming front end.
//!
//! Every value is carried as its 64-bit IEEE-754 bit pattern (`u64`): the
//! kernel's logic — validation, error reporting, loop and index structure —
//! is verified exactly over those bit patterns. Pure bit-level operations
//! (absolute value, negation, ordering, the permutations of transpose and of
//! the transform) are implemented and verified here; the caller supplies the
//! remaining scalar arithmetic as total functions on bit patterns, and every
//! contract ties each output to those functions applied at the right places.

use vstd::prelude::*;

pub mod fp;
pub mod elementwise;
pub mod spectral;
pub mod linalg;
pub mod reduce;

pub use elementwise::{
    abs_array, add_arrays, add_scalar, arccos_array, arcsin_array, arctan2_arrays, arctan_array,
    asinh_array, acosh_array, atanh_array, cbrt_array, ceil_array, clip_array, cos_array,
    cosh_array, deg2rad_array, div_arrays, div_scalar, exp2_array, exp_array, expm1_array,
    floor_array, fmod_arrays, fmod_scalar, hypot_arrays, log10_array, log1p_array, log2_array,
    log_array, map_binary, map_scalar, map_unary, maximum_arrays, minimum_arrays, mod_arrays,
    mod_scalar, mul_arrays, mul_scalar, pow_scalar, rad2deg_array, reciprocal_array, round_array,
    sign_array, sin_array, sinh_array, sqrt_array, square_array, sub_arrays, sub_scalar, tan_array,
    tanh_array, trunc_array,
};
pub use linalg::{det_matrix, dot, inv_matrix, matmul, transpose_matrix};
pub use reduce::{max, mean, min, std_dev, sum, variance};
pub use spectral::{fft, ifft, is_power_of_two};

verus! {

/// A typed, recoverable failure of a kernel operation.
///
/// Every failure is deterministic in the inputs; no kernel call ever panics.
#[derive(Clone, Copy, Debug, PartialEq, Eq, Structural)]
pub enum KernelError {
    /// Two buffers that must have equal lengths do not.
    LengthMismatch,
    /// A matrix buffer's length does not match the dimensions given for it.
    DimensionMismatch,
    /// A matrix inverse was requested but the determinant is below threshold.
    SingularMatrix,
    /// A determinant or inverse was requested for a size other than 2 or 3.
    UnsupportedMatrixSize,
    /// A transform length is not a power of two, or does not match the buffer.
    InvalidFFTLength,
}

} // verus!
