//! The elementwise kernel: unary and binary maps over flat buffers.
//!
//! The kernel owns the loop structure, the length validation and the error
//! reporting. Operations that are pure bit manipulation or pure IEEE-754
//! ordering — absolute value, sign, clipping, elementwise max/min — are
//! verified exactly. For the remaining scalar arithmetic the caller supplies
//! a total function on bit patterns, and each contract ties every output
//! element to that function applied to the input element(s) at the same
//! position — the kernel guarantees the wiring; the scalar semantics are the
//! caller's.

use vstd::prelude::*;

use crate::KernelError;
use crate::spectral::ens2;
use crate::fp::ABS_MASK;
use crate::fp::D180_BITS;
use crate::fp::NEG_ONE_BITS;
use crate::fp::ONE_BITS;
use crate::fp::PI_BITS;
use crate::fp::ZERO_BITS;
use crate::fp::f64_lt;
use crate::fp::float_lt;
use crate::fp::float_max;
use crate::fp::float_min;
use crate::fp::fmax_bits;
use crate::fp::fmin_bits;

verus! {

/// Whether a unary scalar function may be called on every bit pattern.
pub open spec fn total1<F: Fn(u64) -> u64>(f: F) -> bool {
    forall|x: u64| #[trigger] f.requires((x,))
}

/// Whether a binary scalar function may be called on every pair of patterns.
pub open spec fn total2<F: Fn(u64, u64) -> u64>(f: F) -> bool {
    forall|x: u64, y: u64| #[trigger] f.requires((x, y))
}

/// Applies a unary scalar function to every element of `a`.
pub fn map_unary<F: Fn(u64) -> u64>(a: &Vec<u64>, f: &F) -> (r: Vec<u64>)
    requires
        total1(*f),
    ensures
        r@.len() == a@.len(),
        forall|i: int| 0 <= i < a@.len() ==> f.ensures((a@[i],), #[trigger] r@[i]),
{
    let mut r: Vec<u64> = Vec::new();
    let mut i: usize = 0;
    while i < a.len()
        invariant
            i <= a@.len(),
            r@.len() == i,
            total1(*f),
            forall|j: int| 0 <= j < i ==> f.ensures((a@[j],), #[trigger] r@[j]),
        decreases a@.len() - i,
    {
        let v = f(a[i]);
        r.push(v);
        i = i + 1;
    }
    r
}

/// Combines every element of `a` with the fixed scalar `s`.
pub fn map_scalar<F: Fn(u64, u64) -> u64>(a: &Vec<u64>, s: u64, f: &F) -> (r: Vec<u64>)
    requires
        total2(*f),
    ensures
        r@.len() == a@.len(),
        forall|i: int| 0 <= i < a@.len() ==> f.ensures((a@[i], s), #[trigger] r@[i]),
{
    let mut r: Vec<u64> = Vec::new();
    let mut i: usize = 0;
    while i < a.len()
        invariant
            i <= a@.len(),
            r@.len() == i,
            total2(*f),
            forall|j: int| 0 <= j < i ==> f.ensures((a@[j], s), #[trigger] r@[j]),
        decreases a@.len() - i,
    {
        let v = f(a[i], s);
        r.push(v);
        i = i + 1;
    }
    r
}

/// Combines `a` and `b` position by position. The two buffers must have the
/// same length; otherwise the call fails with `LengthMismatch` and no output
/// is produced.
pub fn map_binary<F: Fn(u64, u64) -> u64>(a: &Vec<u64>, b: &Vec<u64>, f: &F) -> (r: Result<
    Vec<u64>,
    KernelError,
>)
    requires
        total2(*f),
    ensures
        r is Ok <==> a@.len() == b@.len(),
        a@.len() != b@.len() ==> r == Err::<Vec<u64>, KernelError>(KernelError::LengthMismatch),
        r matches Ok(v) ==> v@.len() == a@.len() && forall|i: int|
            0 <= i < a@.len() ==> f.ensures((a@[i], b@[i]), #[trigger] v@[i]),
{
    if a.len() != b.len() {
        return Err(KernelError::LengthMismatch);
    }
    let mut r: Vec<u64> = Vec::new();
    let mut i: usize = 0;
    while i < a.len()
        invariant
            i <= a@.len(),
            a@.len() == b@.len(),
            r@.len() == i,
            total2(*f),
            forall|j: int| 0 <= j < i ==> f.ensures((a@[j], b@[j]), #[trigger] r@[j]),
        decreases a@.len() - i,
    {
        let v = f(a[i], b[i]);
        r.push(v);
        i = i + 1;
    }
    Ok(r)
}

/// Adds two buffers element-wise through the caller's scalar addition.
pub fn add_arrays<F: Fn(u64, u64) -> u64>(a: &Vec<u64>, b: &Vec<u64>, fadd: &F) -> (r: Result<
    Vec<u64>,
    KernelError,
>)
    requires
        total2(*fadd),
    ensures
        r is Ok <==> a@.len() == b@.len(),
        a@.len() != b@.len() ==> r == Err::<Vec<u64>, KernelError>(KernelError::LengthMismatch),
        r matches Ok(v) ==> v@.len() == a@.len() && forall|i: int|
            0 <= i < a@.len() ==> fadd.ensures((a@[i], b@[i]), #[trigger] v@[i]),
{
    map_binary(a, b, fadd)
}

/// Subtracts `b` from `a` element-wise through the caller's subtraction.
pub fn sub_arrays<F: Fn(u64, u64) -> u64>(a: &Vec<u64>, b: &Vec<u64>, fsub: &F) -> (r: Result<
    Vec<u64>,
    KernelError,
>)
    requires
        total2(*fsub),
    ensures
        r is Ok <==> a@.len() == b@.len(),
        a@.len() != b@.len() ==> r == Err::<Vec<u64>, KernelError>(KernelError::LengthMismatch),
        r matches Ok(v) ==> v@.len() == a@.len() && forall|i: int|
            0 <= i < a@.len() ==> fsub.ensures((a@[i], b@[i]), #[trigger] v@[i]),
{
    map_binary(a, b, fsub)
}

/// Multiplies two buffers element-wise through the caller's multiplication.
pub fn mul_arrays<F: Fn(u64, u64) -> u64>(a: &Vec<u64>, b: &Vec<u64>, fmul: &F) -> (r: Result<
    Vec<u64>,
    KernelError,
>)
    requires
        total2(*fmul),
    ensures
        r is Ok <==> a@.len() == b@.len(),
        a@.len() != b@.len() ==> r == Err::<Vec<u64>, KernelError>(KernelError::LengthMismatch),
        r matches Ok(v) ==> v@.len() == a@.len() && forall|i: int|
            0 <= i < a@.len() ==> fmul.ensures((a@[i], b@[i]), #[trigger] v@[i]),
{
    map_binary(a, b, fmul)
}

/// Divides `a` by `b` element-wise through the caller's division; division
/// by zero follows the caller's (IEEE-754) semantics rather than failing.
pub fn div_arrays<F: Fn(u64, u64) -> u64>(a: &Vec<u64>, b: &Vec<u64>, fdiv: &F) -> (r: Result<
    Vec<u64>,
    KernelError,
>)
    requires
        total2(*fdiv),
    ensures
        r is Ok <==> a@.len() == b@.len(),
        a@.len() != b@.len() ==> r == Err::<Vec<u64>, KernelError>(KernelError::LengthMismatch),
        r matches Ok(v) ==> v@.len() == a@.len() && forall|i: int|
            0 <= i < a@.len() ==> fdiv.ensures((a@[i], b@[i]), #[trigger] v@[i]),
{
    map_binary(a, b, fdiv)
}

/// Element-wise remainder of `a` by `b`, matching the sign of the dividend,
/// through the caller's remainder function.
pub fn mod_arrays<F: Fn(u64, u64) -> u64>(a: &Vec<u64>, b: &Vec<u64>, frem: &F) -> (r: Result<
    Vec<u64>,
    KernelError,
>)
    requires
        total2(*frem),
    ensures
        r is Ok <==> a@.len() == b@.len(),
        a@.len() != b@.len() ==> r == Err::<Vec<u64>, KernelError>(KernelError::LengthMismatch),
        r matches Ok(v) ==> v@.len() == a@.len() && forall|i: int|
            0 <= i < a@.len() ==> frem.ensures((a@[i], b@[i]), #[trigger] v@[i]),
{
    map_binary(a, b, frem)
}

/// Element-wise remainder of `a` by `b`; the same operation as `mod_arrays`,
/// kept as its own entry point.
pub fn fmod_arrays<F: Fn(u64, u64) -> u64>(a: &Vec<u64>, b: &Vec<u64>, frem: &F) -> (r: Result<
    Vec<u64>,
    KernelError,
>)
    requires
        total2(*frem),
    ensures
        r is Ok <==> a@.len() == b@.len(),
        a@.len() != b@.len() ==> r == Err::<Vec<u64>, KernelError>(KernelError::LengthMismatch),
        r matches Ok(v) ==> v@.len() == a@.len() && forall|i: int|
            0 <= i < a@.len() ==> frem.ensures((a@[i], b@[i]), #[trigger] v@[i]),
{
    map_binary(a, b, frem)
}

/// Element-wise two-argument arctangent atan2(y, x) through the caller's
/// function.
pub fn arctan2_arrays<F: Fn(u64, u64) -> u64>(y: &Vec<u64>, x: &Vec<u64>, fatan2: &F) -> (r: Result<
    Vec<u64>,
    KernelError,
>)
    requires
        total2(*fatan2),
    ensures
        r is Ok <==> y@.len() == x@.len(),
        y@.len() != x@.len() ==> r == Err::<Vec<u64>, KernelError>(KernelError::LengthMismatch),
        r matches Ok(v) ==> v@.len() == y@.len() && forall|i: int|
            0 <= i < y@.len() ==> fatan2.ensures((y@[i], x@[i]), #[trigger] v@[i]),
{
    map_binary(y, x, fatan2)
}

/// Element-wise hypotenuse sqrt(a^2 + b^2) through the caller's function.
pub fn hypot_arrays<F: Fn(u64, u64) -> u64>(a: &Vec<u64>, b: &Vec<u64>, fhypot: &F) -> (r: Result<
    Vec<u64>,
    KernelError,
>)
    requires
        total2(*fhypot),
    ensures
        r is Ok <==> a@.len() == b@.len(),
        a@.len() != b@.len() ==> r == Err::<Vec<u64>, KernelError>(KernelError::LengthMismatch),
        r matches Ok(v) ==> v@.len() == a@.len() && forall|i: int|
            0 <= i < a@.len() ==> fhypot.ensures((a@[i], b@[i]), #[trigger] v@[i]),
{
    map_binary(a, b, fhypot)
}

/// Adds a fixed scalar to every element through the caller's addition.
pub fn add_scalar<F: Fn(u64, u64) -> u64>(a: &Vec<u64>, scalar: u64, fadd: &F) -> (r: Vec<u64>)
    requires
        total2(*fadd),
    ensures
        r@.len() == a@.len(),
        forall|i: int| 0 <= i < a@.len() ==> fadd.ensures((a@[i], scalar), #[trigger] r@[i]),
{
    map_scalar(a, scalar, fadd)
}

/// Subtracts a fixed scalar from every element through the caller's
/// subtraction.
pub fn sub_scalar<F: Fn(u64, u64) -> u64>(a: &Vec<u64>, scalar: u64, fsub: &F) -> (r: Vec<u64>)
    requires
        total2(*fsub),
    ensures
        r@.len() == a@.len(),
        forall|i: int| 0 <= i < a@.len() ==> fsub.ensures((a@[i], scalar), #[trigger] r@[i]),
{
    map_scalar(a, scalar, fsub)
}

/// Multiplies every element by a fixed scalar through the caller's
/// multiplication.
pub fn mul_scalar<F: Fn(u64, u64) -> u64>(a: &Vec<u64>, scalar: u64, fmul: &F) -> (r: Vec<u64>)
    requires
        total2(*fmul),
    ensures
        r@.len() == a@.len(),
        forall|i: int| 0 <= i < a@.len() ==> fmul.ensures((a@[i], scalar), #[trigger] r@[i]),
{
    map_scalar(a, scalar, fmul)
}

/// Divides every element by a fixed scalar through the caller's division.
pub fn div_scalar<F: Fn(u64, u64) -> u64>(a: &Vec<u64>, scalar: u64, fdiv: &F) -> (r: Vec<u64>)
    requires
        total2(*fdiv),
    ensures
        r@.len() == a@.len(),
        forall|i: int| 0 <= i < a@.len() ==> fdiv.ensures((a@[i], scalar), #[trigger] r@[i]),
{
    map_scalar(a, scalar, fdiv)
}

/// Raises every element to a fixed exponent through the caller's power
/// function.
pub fn pow_scalar<F: Fn(u64, u64) -> u64>(a: &Vec<u64>, exponent: u64, fpow: &F) -> (r: Vec<u64>)
    requires
        total2(*fpow),
    ensures
        r@.len() == a@.len(),
        forall|i: int| 0 <= i < a@.len() ==> fpow.ensures((a@[i], exponent), #[trigger] r@[i]),
{
    map_scalar(a, exponent, fpow)
}

/// Remainder of every element by a fixed scalar through the caller's
/// remainder function.
pub fn mod_scalar<F: Fn(u64, u64) -> u64>(a: &Vec<u64>, b: u64, frem: &F) -> (r: Vec<u64>)
    requires
        total2(*frem),
    ensures
        r@.len() == a@.len(),
        forall|i: int| 0 <= i < a@.len() ==> frem.ensures((a@[i], b), #[trigger] r@[i]),
{
    map_scalar(a, b, frem)
}

/// Remainder of every element by a fixed scalar; the same operation as
/// `mod_scalar`, kept as its own entry point.
pub fn fmod_scalar<F: Fn(u64, u64) -> u64>(a: &Vec<u64>, b: u64, frem: &F) -> (r: Vec<u64>)
    requires
        total2(*frem),
    ensures
        r@.len() == a@.len(),
        forall|i: int| 0 <= i < a@.len() ==> frem.ensures((a@[i], b), #[trigger] r@[i]),
{
    map_scalar(a, b, frem)
}

/// Element-wise absolute value: the IEEE-754 sign bit is cleared, exactly.
pub fn abs_array(a: &Vec<u64>) -> (r: Vec<u64>)
    ensures
        r@.len() == a@.len(),
        forall|i: int| 0 <= i < a@.len() ==> #[trigger] r@[i] == a@[i] & ABS_MASK,
{
    let mut r: Vec<u64> = Vec::new();
    let mut i: usize = 0;
    while i < a.len()
        invariant
            i <= a@.len(),
            r@.len() == i,
            forall|j: int| 0 <= j < i ==> #[trigger] r@[j] == a@[j] & ABS_MASK,
        decreases a@.len() - i,
    {
        r.push(a[i] & ABS_MASK);
        i = i + 1;
    }
    r
}

/// The sign of one bit pattern: 1.0 for positive, -1.0 for negative, 0.0
/// for zeros and NaN, under exact IEEE-754 ordering.
pub open spec fn sign_bits(x: u64) -> u64 {
    if f64_lt(ZERO_BITS, x) {
        ONE_BITS
    } else if f64_lt(x, ZERO_BITS) {
        NEG_ONE_BITS
    } else {
        ZERO_BITS
    }
}

/// Element-wise sign, verified exactly over IEEE-754 ordering.
pub fn sign_array(a: &Vec<u64>) -> (r: Vec<u64>)
    ensures
        r@.len() == a@.len(),
        forall|i: int| 0 <= i < a@.len() ==> #[trigger] r@[i] == sign_bits(a@[i]),
{
    let mut r: Vec<u64> = Vec::new();
    let mut i: usize = 0;
    while i < a.len()
        invariant
            i <= a@.len(),
            r@.len() == i,
            forall|j: int| 0 <= j < i ==> #[trigger] r@[j] == sign_bits(a@[j]),
        decreases a@.len() - i,
    {
        let x = a[i];
        let v = if float_lt(ZERO_BITS, x) {
            ONE_BITS
        } else if float_lt(x, ZERO_BITS) {
            NEG_ONE_BITS
        } else {
            ZERO_BITS
        };
        r.push(v);
        i = i + 1;
    }
    r
}

/// One value clipped to [lo, hi] under exact IEEE-754 ordering: values below
/// `lo` become `lo`, values above `hi` become `hi`, NaN passes through.
pub open spec fn clip_bits(x: u64, lo: u64, hi: u64) -> u64 {
    if f64_lt(x, lo) {
        lo
    } else if f64_lt(hi, x) {
        hi
    } else {
        x
    }
}

/// Element-wise clipping to [min, max], verified exactly over IEEE-754
/// ordering.
pub fn clip_array(a: &Vec<u64>, min: u64, max: u64) -> (r: Vec<u64>)
    ensures
        r@.len() == a@.len(),
        forall|i: int| 0 <= i < a@.len() ==> #[trigger] r@[i] == clip_bits(a@[i], min, max),
{
    let mut r: Vec<u64> = Vec::new();
    let mut i: usize = 0;
    while i < a.len()
        invariant
            i <= a@.len(),
            r@.len() == i,
            forall|j: int| 0 <= j < i ==> #[trigger] r@[j] == clip_bits(a@[j], min, max),
        decreases a@.len() - i,
    {
        let x = a[i];
        let v = if float_lt(x, min) {
            min
        } else if float_lt(max, x) {
            max
        } else {
            x
        };
        r.push(v);
        i = i + 1;
    }
    r
}

/// Clipping earns its name: whenever the bounds are ordered (`lo` not above
/// `hi`), a clipped value is never below `lo` nor above `hi` under IEEE-754
/// ordering (a NaN input passes through and compares below nothing).
pub proof fn lemma_clip_within_bounds(x: u64, lo: u64, hi: u64)
    requires
        !f64_lt(hi, lo),
    ensures
        !f64_lt(clip_bits(x, lo, hi), lo),
        !f64_lt(hi, clip_bits(x, lo, hi)),
{
}

/// Element-wise IEEE-754 maximum of two buffers, verified exactly; a NaN on
/// either side yields the other value.
pub fn maximum_arrays(a: &Vec<u64>, b: &Vec<u64>) -> (r: Result<Vec<u64>, KernelError>)
    ensures
        r is Ok <==> a@.len() == b@.len(),
        a@.len() != b@.len() ==> r == Err::<Vec<u64>, KernelError>(KernelError::LengthMismatch),
        r matches Ok(v) ==> v@.len() == a@.len() && forall|i: int|
            0 <= i < a@.len() ==> #[trigger] v@[i] == fmax_bits(a@[i], b@[i]),
{
    if a.len() != b.len() {
        return Err(KernelError::LengthMismatch);
    }
    let mut r: Vec<u64> = Vec::new();
    let mut i: usize = 0;
    while i < a.len()
        invariant
            i <= a@.len(),
            a@.len() == b@.len(),
            r@.len() == i,
            forall|j: int| 0 <= j < i ==> #[trigger] r@[j] == fmax_bits(a@[j], b@[j]),
        decreases a@.len() - i,
    {
        r.push(float_max(a[i], b[i]));
        i = i + 1;
    }
    Ok(r)
}

/// Element-wise IEEE-754 minimum of two buffers, verified exactly; a NaN on
/// either side yields the other value.
pub fn minimum_arrays(a: &Vec<u64>, b: &Vec<u64>) -> (r: Result<Vec<u64>, KernelError>)
    ensures
        r is Ok <==> a@.len() == b@.len(),
        a@.len() != b@.len() ==> r == Err::<Vec<u64>, KernelError>(KernelError::LengthMismatch),
        r matches Ok(v) ==> v@.len() == a@.len() && forall|i: int|
            0 <= i < a@.len() ==> #[trigger] v@[i] == fmin_bits(a@[i], b@[i]),
{
    if a.len() != b.len() {
        return Err(KernelError::LengthMismatch);
    }
    let mut r: Vec<u64> = Vec::new();
    let mut i: usize = 0;
    while i < a.len()
        invariant
            i <= a@.len(),
            a@.len() == b@.len(),
            r@.len() == i,
            forall|j: int| 0 <= j < i ==> #[trigger] r@[j] == fmin_bits(a@[j], b@[j]),
        decreases a@.len() - i,
    {
        r.push(float_min(a[i], b[i]));
        i = i + 1;
    }
    Ok(r)
}

/// Element-wise square x * x through the caller's multiplication.
pub fn square_array<F: Fn(u64, u64) -> u64>(a: &Vec<u64>, fmul: &F) -> (r: Vec<u64>)
    requires
        total2(*fmul),
    ensures
        r@.len() == a@.len(),
        forall|i: int| 0 <= i < a@.len() ==> fmul.ensures((a@[i], a@[i]), #[trigger] r@[i]),
{
    let mut r: Vec<u64> = Vec::new();
    let mut i: usize = 0;
    while i < a.len()
        invariant
            i <= a@.len(),
            r@.len() == i,
            total2(*fmul),
            forall|j: int| 0 <= j < i ==> fmul.ensures((a@[j], a@[j]), #[trigger] r@[j]),
        decreases a@.len() - i,
    {
        let v = fmul(a[i], a[i]);
        r.push(v);
        i = i + 1;
    }
    r
}

/// Element-wise reciprocal 1.0 / x through the caller's division; the
/// kernel supplies the constant one.
pub fn reciprocal_array<F: Fn(u64, u64) -> u64>(a: &Vec<u64>, fdiv: &F) -> (r: Vec<u64>)
    requires
        total2(*fdiv),
    ensures
        r@.len() == a@.len(),
        forall|i: int| 0 <= i < a@.len() ==> fdiv.ensures((ONE_BITS, a@[i]), #[trigger] r@[i]),
{
    let mut r: Vec<u64> = Vec::new();
    let mut i: usize = 0;
    while i < a.len()
        invariant
            i <= a@.len(),
            r@.len() == i,
            total2(*fdiv),
            forall|j: int| 0 <= j < i ==> fdiv.ensures((ONE_BITS, a@[j]), #[trigger] r@[j]),
        decreases a@.len() - i,
    {
        let v = fdiv(ONE_BITS, a[i]);
        r.push(v);
        i = i + 1;
    }
    r
}

/// `out` is (x * c1) / c2 for some intermediate value of the supplied
/// multiplication and division.
pub open spec fn mul_div_rel(
    mulp: spec_fn(u64, u64, u64) -> bool,
    divp: spec_fn(u64, u64, u64) -> bool,
    x: u64,
    c1: u64,
    c2: u64,
    out: u64,
) -> bool {
    exists|m: u64| #[trigger] mulp(x, c1, m) && divp(m, c2, out)
}

/// Element-wise degrees-to-radians: x * pi / 180, with the constants
/// supplied by the kernel and the arithmetic by the caller.
pub fn deg2rad_array<FM, FD>(a: &Vec<u64>, fmul: &FM, fdiv: &FD) -> (r: Vec<u64>) where
    FM: Fn(u64, u64) -> u64,
    FD: Fn(u64, u64) -> u64,

    requires
        total2(*fmul),
        total2(*fdiv),
    ensures
        r@.len() == a@.len(),
        forall|i: int|
            0 <= i < a@.len() ==> mul_div_rel(
                ens2(*fmul),
                ens2(*fdiv),
                a@[i],
                PI_BITS,
                D180_BITS,
                #[trigger] r@[i],
            ),
{
    let mut r: Vec<u64> = Vec::new();
    let ghost mut ms: Seq<u64> = Seq::empty();
    let mut i: usize = 0;
    while i < a.len()
        invariant
            i <= a@.len(),
            r@.len() == i,
            ms.len() == i,
            total2(*fmul),
            total2(*fdiv),
            forall|j: int|
                0 <= j < i ==> fmul.ensures((a@[j], PI_BITS), #[trigger] ms[j]) && fdiv.ensures(
                    (ms[j], D180_BITS),
                    r@[j],
                ),
        decreases a@.len() - i,
    {
        let m = fmul(a[i], PI_BITS);
        let v = fdiv(m, D180_BITS);
        proof {
            ms = ms.push(m);
        }
        r.push(v);
        i = i + 1;
    }
    proof {
        assert forall|i2: int|
            0 <= i2 < a@.len() implies mul_div_rel(
            ens2(*fmul),
            ens2(*fdiv),
            a@[i2],
            PI_BITS,
            D180_BITS,
            #[trigger] r@[i2],
        ) by {
            assert(ens2(*fmul)(a@[i2], PI_BITS, ms[i2]));
            assert(ens2(*fdiv)(ms[i2], D180_BITS, r@[i2]));
        }
    }
    r
}


/// Element-wise radians-to-degrees: x * 180 / pi, with the constants
/// supplied by the kernel and the arithmetic by the caller.
pub fn rad2deg_array<FM, FD>(a: &Vec<u64>, fmul: &FM, fdiv: &FD) -> (r: Vec<u64>) where
    FM: Fn(u64, u64) -> u64,
    FD: Fn(u64, u64) -> u64,

    requires
        total2(*fmul),
        total2(*fdiv),
    ensures
        r@.len() == a@.len(),
        forall|i: int|
            0 <= i < a@.len() ==> mul_div_rel(
                ens2(*fmul),
                ens2(*fdiv),
                a@[i],
                D180_BITS,
                PI_BITS,
                #[trigger] r@[i],
            ),
{
    let mut r: Vec<u64> = Vec::new();
    let ghost mut ms: Seq<u64> = Seq::empty();
    let mut i: usize = 0;
    while i < a.len()
        invariant
            i <= a@.len(),
            r@.len() == i,
            ms.len() == i,
            total2(*fmul),
            total2(*fdiv),
            forall|j: int|
                0 <= j < i ==> fmul.ensures((a@[j], D180_BITS), #[trigger] ms[j]) && fdiv.ensures(
                    (ms[j], PI_BITS),
                    r@[j],
                ),
        decreases a@.len() - i,
    {
        let m = fmul(a[i], D180_BITS);
        let v = fdiv(m, PI_BITS);
        proof {
            ms = ms.push(m);
        }
        r.push(v);
        i = i + 1;
    }
    proof {
        assert forall|i2: int|
            0 <= i2 < a@.len() implies mul_div_rel(
            ens2(*fmul),
            ens2(*fdiv),
            a@[i2],
            D180_BITS,
            PI_BITS,
            #[trigger] r@[i2],
        ) by {
            assert(ens2(*fmul)(a@[i2], D180_BITS, ms[i2]));
            assert(ens2(*fdiv)(ms[i2], PI_BITS, r@[i2]));
        }
    }
    r
}


/// Element-wise square root through the caller's scalar function.
pub fn sqrt_array<F: Fn(u64) -> u64>(a: &Vec<u64>, fsqrt: &F) -> (r: Vec<u64>)
    requires
        total1(*fsqrt),
    ensures
        r@.len() == a@.len(),
        forall|i: int| 0 <= i < a@.len() ==> fsqrt.ensures((a@[i],), #[trigger] r@[i]),
{
    map_unary(a, fsqrt)
}

/// Element-wise cube root through the caller's scalar function.
pub fn cbrt_array<F: Fn(u64) -> u64>(a: &Vec<u64>, fcbrt: &F) -> (r: Vec<u64>)
    requires
        total1(*fcbrt),
    ensures
        r@.len() == a@.len(),
        forall|i: int| 0 <= i < a@.len() ==> fcbrt.ensures((a@[i],), #[trigger] r@[i]),
{
    map_unary(a, fcbrt)
}

/// Element-wise exponential e^x through the caller's scalar function.
pub fn exp_array<F: Fn(u64) -> u64>(a: &Vec<u64>, fexp: &F) -> (r: Vec<u64>)
    requires
        total1(*fexp),
    ensures
        r@.len() == a@.len(),
        forall|i: int| 0 <= i < a@.len() ==> fexp.ensures((a@[i],), #[trigger] r@[i]),
{
    map_unary(a, fexp)
}

/// Element-wise base-2 exponential 2^x through the caller's scalar function.
pub fn exp2_array<F: Fn(u64) -> u64>(a: &Vec<u64>, fexp2: &F) -> (r: Vec<u64>)
    requires
        total1(*fexp2),
    ensures
        r@.len() == a@.len(),
        forall|i: int| 0 <= i < a@.len() ==> fexp2.ensures((a@[i],), #[trigger] r@[i]),
{
    map_unary(a, fexp2)
}

/// Element-wise e^x - 1 through the caller's scalar function.
pub fn expm1_array<F: Fn(u64) -> u64>(a: &Vec<u64>, fexpm1: &F) -> (r: Vec<u64>)
    requires
        total1(*fexpm1),
    ensures
        r@.len() == a@.len(),
        forall|i: int| 0 <= i < a@.len() ==> fexpm1.ensures((a@[i],), #[trigger] r@[i]),
{
    map_unary(a, fexpm1)
}

/// Element-wise natural logarithm through the caller's scalar function.
pub fn log_array<F: Fn(u64) -> u64>(a: &Vec<u64>, flog: &F) -> (r: Vec<u64>)
    requires
        total1(*flog),
    ensures
        r@.len() == a@.len(),
        forall|i: int| 0 <= i < a@.len() ==> flog.ensures((a@[i],), #[trigger] r@[i]),
{
    map_unary(a, flog)
}

/// Element-wise base-2 logarithm through the caller's scalar function.
pub fn log2_array<F: Fn(u64) -> u64>(a: &Vec<u64>, flog2: &F) -> (r: Vec<u64>)
    requires
        total1(*flog2),
    ensures
        r@.len() == a@.len(),
        forall|i: int| 0 <= i < a@.len() ==> flog2.ensures((a@[i],), #[trigger] r@[i]),
{
    map_unary(a, flog2)
}

/// Element-wise base-10 logarithm through the caller's scalar function.
pub fn log10_array<F: Fn(u64) -> u64>(a: &Vec<u64>, flog10: &F) -> (r: Vec<u64>)
    requires
        total1(*flog10),
    ensures
        r@.len() == a@.len(),
        forall|i: int| 0 <= i < a@.len() ==> flog10.ensures((a@[i],), #[trigger] r@[i]),
{
    map_unary(a, flog10)
}

/// Element-wise ln(1 + x) through the caller's scalar function.
pub fn log1p_array<F: Fn(u64) -> u64>(a: &Vec<u64>, flog1p: &F) -> (r: Vec<u64>)
    requires
        total1(*flog1p),
    ensures
        r@.len() == a@.len(),
        forall|i: int| 0 <= i < a@.len() ==> flog1p.ensures((a@[i],), #[trigger] r@[i]),
{
    map_unary(a, flog1p)
}

/// Element-wise sine through the caller's scalar function.
pub fn sin_array<F: Fn(u64) -> u64>(a: &Vec<u64>, fsin: &F) -> (r: Vec<u64>)
    requires
        total1(*fsin),
    ensures
        r@.len() == a@.len(),
        forall|i: int| 0 <= i < a@.len() ==> fsin.ensures((a@[i],), #[trigger] r@[i]),
{
    map_unary(a, fsin)
}

/// Element-wise cosine through the caller's scalar function.
pub fn cos_array<F: Fn(u64) -> u64>(a: &Vec<u64>, fcos: &F) -> (r: Vec<u64>)
    requires
        total1(*fcos),
    ensures
        r@.len() == a@.len(),
        forall|i: int| 0 <= i < a@.len() ==> fcos.ensures((a@[i],), #[trigger] r@[i]),
{
    map_unary(a, fcos)
}

/// Element-wise tangent through the caller's scalar function.
pub fn tan_array<F: Fn(u64) -> u64>(a: &Vec<u64>, ftan: &F) -> (r: Vec<u64>)
    requires
        total1(*ftan),
    ensures
        r@.len() == a@.len(),
        forall|i: int| 0 <= i < a@.len() ==> ftan.ensures((a@[i],), #[trigger] r@[i]),
{
    map_unary(a, ftan)
}

/// Element-wise hyperbolic sine through the caller's scalar function.
pub fn sinh_array<F: Fn(u64) -> u64>(a: &Vec<u64>, fsinh: &F) -> (r: Vec<u64>)
    requires
        total1(*fsinh),
    ensures
        r@.len() == a@.len(),
        forall|i: int| 0 <= i < a@.len() ==> fsinh.ensures((a@[i],), #[trigger] r@[i]),
{
    map_unary(a, fsinh)
}

/// Element-wise hyperbolic cosine through the caller's scalar function.
pub fn cosh_array<F: Fn(u64) -> u64>(a: &Vec<u64>, fcosh: &F) -> (r: Vec<u64>)
    requires
        total1(*fcosh),
    ensures
        r@.len() == a@.len(),
        forall|i: int| 0 <= i < a@.len() ==> fcosh.ensures((a@[i],), #[trigger] r@[i]),
{
    map_unary(a, fcosh)
}

/// Element-wise hyperbolic tangent through the caller's scalar function.
pub fn tanh_array<F: Fn(u64) -> u64>(a: &Vec<u64>, ftanh: &F) -> (r: Vec<u64>)
    requires
        total1(*ftanh),
    ensures
        r@.len() == a@.len(),
        forall|i: int| 0 <= i < a@.len() ==> ftanh.ensures((a@[i],), #[trigger] r@[i]),
{
    map_unary(a, ftanh)
}

/// Element-wise inverse sine through the caller's scalar function.
pub fn arcsin_array<F: Fn(u64) -> u64>(a: &Vec<u64>, fasin: &F) -> (r: Vec<u64>)
    requires
        total1(*fasin),
    ensures
        r@.len() == a@.len(),
        forall|i: int| 0 <= i < a@.len() ==> fasin.ensures((a@[i],), #[trigger] r@[i]),
{
    map_unary(a, fasin)
}

/// Element-wise inverse cosine through the caller's scalar function.
pub fn arccos_array<F: Fn(u64) -> u64>(a: &Vec<u64>, facos: &F) -> (r: Vec<u64>)
    requires
        total1(*facos),
    ensures
        r@.len() == a@.len(),
        forall|i: int| 0 <= i < a@.len() ==> facos.ensures((a@[i],), #[trigger] r@[i]),
{
    map_unary(a, facos)
}

/// Element-wise inverse tangent through the caller's scalar function.
pub fn arctan_array<F: Fn(u64) -> u64>(a: &Vec<u64>, fatan: &F) -> (r: Vec<u64>)
    requires
        total1(*fatan),
    ensures
        r@.len() == a@.len(),
        forall|i: int| 0 <= i < a@.len() ==> fatan.ensures((a@[i],), #[trigger] r@[i]),
{
    map_unary(a, fatan)
}

/// Element-wise inverse hyperbolic sine through the caller's scalar function.
pub fn asinh_array<F: Fn(u64) -> u64>(a: &Vec<u64>, fasinh: &F) -> (r: Vec<u64>)
    requires
        total1(*fasinh),
    ensures
        r@.len() == a@.len(),
        forall|i: int| 0 <= i < a@.len() ==> fasinh.ensures((a@[i],), #[trigger] r@[i]),
{
    map_unary(a, fasinh)
}

/// Element-wise inverse hyperbolic cosine through the caller's scalar function.
pub fn acosh_array<F: Fn(u64) -> u64>(a: &Vec<u64>, facosh: &F) -> (r: Vec<u64>)
    requires
        total1(*facosh),
    ensures
        r@.len() == a@.len(),
        forall|i: int| 0 <= i < a@.len() ==> facosh.ensures((a@[i],), #[trigger] r@[i]),
{
    map_unary(a, facosh)
}

/// Element-wise inverse hyperbolic tangent through the caller's scalar function.
pub fn atanh_array<F: Fn(u64) -> u64>(a: &Vec<u64>, fatanh: &F) -> (r: Vec<u64>)
    requires
        total1(*fatanh),
    ensures
        r@.len() == a@.len(),
        forall|i: int| 0 <= i < a@.len() ==> fatanh.ensures((a@[i],), #[trigger] r@[i]),
{
    map_unary(a, fatanh)
}

/// Element-wise rounding to the nearest integer through the caller's scalar function.
pub fn round_array<F: Fn(u64) -> u64>(a: &Vec<u64>, fround: &F) -> (r: Vec<u64>)
    requires
        total1(*fround),
    ensures
        r@.len() == a@.len(),
        forall|i: int| 0 <= i < a@.len() ==> fround.ensures((a@[i],), #[trigger] r@[i]),
{
    map_unary(a, fround)
}

/// Element-wise floor through the caller's scalar function.
pub fn floor_array<F: Fn(u64) -> u64>(a: &Vec<u64>, ffloor: &F) -> (r: Vec<u64>)
    requires
        total1(*ffloor),
    ensures
        r@.len() == a@.len(),
        forall|i: int| 0 <= i < a@.len() ==> ffloor.ensures((a@[i],), #[trigger] r@[i]),
{
    map_unary(a, ffloor)
}

/// Element-wise ceiling through the caller's scalar function.
pub fn ceil_array<F: Fn(u64) -> u64>(a: &Vec<u64>, fceil: &F) -> (r: Vec<u64>)
    requires
        total1(*fceil),
    ensures
        r@.len() == a@.len(),
        forall|i: int| 0 <= i < a@.len() ==> fceil.ensures((a@[i],), #[trigger] r@[i]),
{
    map_unary(a, fceil)
}

/// Element-wise truncation toward zero through the caller's scalar function.
pub fn trunc_array<F: Fn(u64) -> u64>(a: &Vec<u64>, ftrunc: &F) -> (r: Vec<u64>)
    requires
        total1(*ftrunc),
    ensures
        r@.len() == a@.len(),
        forall|i: int| 0 <= i < a@.len() ==> ftrunc.ensures((a@[i],), #[trigger] r@[i]),
{
    map_unary(a, ftrunc)
}

} // verus!
