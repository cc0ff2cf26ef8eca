//! The reduction kernel: folds of a flat buffer into one scalar.
//!
//! `max` and `min` are pure IEEE-754 ordering folds and are verified exactly,
//! including the seed conventions for an empty buffer (-inf and +inf). The
//! arithmetic reductions (`sum`, `mean`, `variance`, `std_dev`) accumulate
//! left to right from +0.0 through the caller-supplied arithmetic; their
//! contracts tie the result to an accumulation chain of that arithmetic, and
//! state the exact empty-buffer conventions (`mean` and `variance` of an
//! empty buffer are +0.0 — an explicit convention, distinct from max/min).

use vstd::prelude::*;

use crate::elementwise::total2;
use crate::fp::INF_BITS;
use crate::fp::NEG_INF_BITS;
use crate::fp::ZERO_BITS;
use crate::fp::float_max;
use crate::fp::is_nan_bits;
use crate::fp::f64_lt;
use crate::fp::lemma_f64_lt_transitive;
use crate::fp::float_min;
use crate::fp::fmax_bits;
use crate::fp::fmin_bits;
use crate::linalg::wit1;
use crate::linalg::wit2;
use crate::spectral::ens2;

verus! {

/// A trivially true marker naming one scalar witness; it serves as the
/// matching pattern for existential quantifiers over one intermediate value.
pub open spec fn wit1s(x: u64) -> bool {
    true
}

/// A trivially true marker naming two scalar witnesses.
pub open spec fn wit2s(x: u64, y: u64) -> bool {
    true
}

/// A trivially true marker naming three scalar witnesses.
pub open spec fn wit3s(x: u64, y: u64, z: u64) -> bool {
    true
}

/// The contract of a unary scalar function, as a relation on bit patterns.
pub open spec fn ens1<F: Fn(u64) -> u64>(f: F) -> spec_fn(u64, u64) -> bool {
    |x: u64, r: u64| f.ensures((x,), r)
}

/// The contract of a buffer-length conversion: relates a length to the bit
/// pattern the function returned for it.
pub open spec fn enscast<F: Fn(usize) -> u64>(f: F) -> spec_fn(usize, u64) -> bool {
    |n: usize, r: u64| f.ensures((n,), r)
}

/// Whether a length conversion may be called on every length.
pub open spec fn total_cast<F: Fn(usize) -> u64>(f: F) -> bool {
    forall|n: usize| #[trigger] f.requires((n,))
}

/// Whether a unary scalar function may be called on every bit pattern.
pub open spec fn total_1<F: Fn(u64) -> u64>(f: F) -> bool {
    forall|x: u64| #[trigger] f.requires((x,))
}

/// `p` is the chain of the running values of a left-to-right fold of the
/// first `t` elements of `s` under `fp_`, starting from `acc0`.
pub open spec fn fold_chain(
    fp_: spec_fn(u64, u64, u64) -> bool,
    s: Seq<u64>,
    acc0: u64,
    p: Seq<u64>,
    t: int,
) -> bool {
    &&& p.len() == t + 1
    &&& p[0] == acc0
    &&& forall|u: int| 0 <= u < t ==> fp_(p[u], s[u], #[trigger] p[u + 1])
}

/// `out` is the left-to-right fold of all of `s` under `fp_` from `acc0`,
/// for some chain of running values.
pub open spec fn fold_to(
    fp_: spec_fn(u64, u64, u64) -> bool,
    s: Seq<u64>,
    acc0: u64,
    out: u64,
) -> bool {
    exists|p: Seq<u64>|
        #[trigger] wit1(p) && fold_chain(fp_, s, acc0, p, s.len() as int) && p[s.len() as int]
            == out
}

/// The IEEE-754 maximum of the first `t` elements of `s`, folded from -inf.
pub open spec fn max_fold(s: Seq<u64>, t: int) -> u64
    decreases t,
{
    if t <= 0 {
        NEG_INF_BITS
    } else {
        fmax_bits(max_fold(s, t - 1), s[t - 1])
    }
}

/// The IEEE-754 minimum of the first `t` elements of `s`, folded from +inf.
pub open spec fn min_fold(s: Seq<u64>, t: int) -> u64
    decreases t,
{
    if t <= 0 {
        INF_BITS
    } else {
        fmin_bits(min_fold(s, t - 1), s[t - 1])
    }
}

/// `out` is the mean of `s`: the sum folded from +0.0, divided by the
/// length `n0` converted to a bit pattern by the supplied conversion.
pub open spec fn mean_rel(
    addp: spec_fn(u64, u64, u64) -> bool,
    divp: spec_fn(u64, u64, u64) -> bool,
    castp: spec_fn(usize, u64) -> bool,
    s: Seq<u64>,
    n0: usize,
    out: u64,
) -> bool {
    exists|sm: u64, nb: u64|
        #[trigger] wit2s(sm, nb) && fold_to(addp, s, ZERO_BITS, sm) && castp(n0, nb) && divp(
            sm,
            nb,
            out,
        )
}

/// `out` is (x - m) squared, for some difference of the supplied arithmetic.
pub open spec fn sq_diff(
    subp: spec_fn(u64, u64, u64) -> bool,
    mulp: spec_fn(u64, u64, u64) -> bool,
    x: u64,
    m: u64,
    out: u64,
) -> bool {
    exists|dd: u64| #[trigger] subp(x, m, dd) && mulp(dd, dd, out)
}

/// `out` is the sum of squared deviations of `s` from `m`, folded from +0.0.
pub open spec fn ssd_fold(
    addp: spec_fn(u64, u64, u64) -> bool,
    subp: spec_fn(u64, u64, u64) -> bool,
    mulp: spec_fn(u64, u64, u64) -> bool,
    s: Seq<u64>,
    m: u64,
    out: u64,
) -> bool {
    exists|q: Seq<u64>, p: Seq<u64>|
        {
            &&& #[trigger] wit2(q, p)
            &&& q.len() == s.len()
            &&& forall|u: int| 0 <= u < s.len() ==> sq_diff(subp, mulp, s[u], m, #[trigger] q[u])
            &&& fold_chain(addp, q, ZERO_BITS, p, s.len() as int)
            &&& p[s.len() as int] == out
        }
}

/// `out` is the variance of `s`: the mean of squared deviations from the
/// mean, or +0.0 for an empty buffer.
pub open spec fn var_rel(
    addp: spec_fn(u64, u64, u64) -> bool,
    subp: spec_fn(u64, u64, u64) -> bool,
    mulp: spec_fn(u64, u64, u64) -> bool,
    divp: spec_fn(u64, u64, u64) -> bool,
    castp: spec_fn(usize, u64) -> bool,
    s: Seq<u64>,
    n0: usize,
    out: u64,
) -> bool {
    if s.len() == 0 {
        out == ZERO_BITS
    } else {
        exists|mv: u64, sv: u64, nb: u64|
            #[trigger] wit3s(mv, sv, nb) && mean_rel(addp, divp, castp, s, n0, mv) && ssd_fold(
                addp,
                subp,
                mulp,
                s,
                mv,
                sv,
            ) && castp(n0, nb) && divp(sv, nb, out)
    }
}

/// Sum of all elements: a left-to-right fold of the supplied addition,
/// seeded with +0.0 (so an empty buffer sums to +0.0).
pub fn sum<FA: Fn(u64, u64) -> u64>(a: &Vec<u64>, fadd: &FA) -> (r: u64)
    requires
        total2(*fadd),
    ensures
        fold_to(ens2(*fadd), a@, ZERO_BITS, r),
        a@.len() == 0 ==> r == ZERO_BITS,
{
    let ghost addp = ens2(*fadd);
    let mut acc: u64 = ZERO_BITS;
    let ghost mut p: Seq<u64> = seq![ZERO_BITS];
    let mut i: usize = 0;
    while i < a.len()
        invariant
            i <= a@.len(),
            total2(*fadd),
            addp == ens2(*fadd),
            fold_chain(addp, a@, ZERO_BITS, p, i as int),
            p[i as int] == acc,
        decreases a@.len() - i,
    {
        let prev = acc;
        acc = fadd(prev, a[i]);
        proof {
            assert(addp(prev, a@[i as int], acc));
            p = p.push(acc);
        }
        i = i + 1;
    }
    proof {
        assert(wit1(p));
    }
    acc
}

/// Maximum element under IEEE-754 ordering, folded from -inf; an empty
/// buffer yields -inf, and NaN elements are passed over.
pub fn max(a: &Vec<u64>) -> (r: u64)
    ensures
        r == max_fold(a@, a@.len() as int),
        a@.len() == 0 ==> r == NEG_INF_BITS,
{
    let mut acc: u64 = NEG_INF_BITS;
    let mut i: usize = 0;
    while i < a.len()
        invariant
            i <= a@.len(),
            acc == max_fold(a@, i as int),
        decreases a@.len() - i,
    {
        acc = float_max(acc, a[i]);
        i = i + 1;
    }
    acc
}

/// Minimum element under IEEE-754 ordering, folded from +inf; an empty
/// buffer yields +inf, and NaN elements are passed over.
pub fn min(a: &Vec<u64>) -> (r: u64)
    ensures
        r == min_fold(a@, a@.len() as int),
        a@.len() == 0 ==> r == INF_BITS,
{
    let mut acc: u64 = INF_BITS;
    let mut i: usize = 0;
    while i < a.len()
        invariant
            i <= a@.len(),
            acc == min_fold(a@, i as int),
        decreases a@.len() - i,
    {
        acc = float_min(acc, a[i]);
        i = i + 1;
    }
    acc
}

/// Mean of all elements: the sum divided by the length; +0.0 for an empty
/// buffer, by explicit convention.
pub fn mean<FA, FD, FC>(a: &Vec<u64>, fadd: &FA, fdiv: &FD, fcast: &FC) -> (r: u64) where
    FA: Fn(u64, u64) -> u64,
    FD: Fn(u64, u64) -> u64,
    FC: Fn(usize) -> u64,

    requires
        total2(*fadd),
        total2(*fdiv),
        total_cast(*fcast),
    ensures
        a@.len() == 0 ==> r == ZERO_BITS,
        a@.len() > 0 ==> mean_rel(
            ens2(*fadd),
            ens2(*fdiv),
            enscast(*fcast),
            a@,
            a@.len() as usize,
            r,
        ),
{
    if a.len() == 0 {
        return ZERO_BITS;
    }
    let sm = sum(a, fadd);
    let nb = fcast(a.len());
    let r = fdiv(sm, nb);
    proof {
        assert(wit2s(sm, nb));
        assert(enscast(*fcast)((a@.len() as usize), nb));
        assert(ens2(*fdiv)(sm, nb, r));
    }
    r
}

/// Variance: the mean of squared deviations from the mean, accumulated left
/// to right; +0.0 for an empty buffer, by explicit convention.
pub fn variance<FA, FS, FM, FD, FC>(
    a: &Vec<u64>,
    fadd: &FA,
    fsub: &FS,
    fmul: &FM,
    fdiv: &FD,
    fcast: &FC,
) -> (r: u64) where
    FA: Fn(u64, u64) -> u64,
    FS: Fn(u64, u64) -> u64,
    FM: Fn(u64, u64) -> u64,
    FD: Fn(u64, u64) -> u64,
    FC: Fn(usize) -> u64,

    requires
        total2(*fadd),
        total2(*fsub),
        total2(*fmul),
        total2(*fdiv),
        total_cast(*fcast),
    ensures
        var_rel(
            ens2(*fadd),
            ens2(*fsub),
            ens2(*fmul),
            ens2(*fdiv),
            enscast(*fcast),
            a@,
            a@.len() as usize,
            r,
        ),
{
    let ghost addp = ens2(*fadd);
    let ghost subp = ens2(*fsub);
    let ghost mulp = ens2(*fmul);
    if a.len() == 0 {
        return ZERO_BITS;
    }
    let mv = mean(a, fadd, fdiv, fcast);
    let mut acc: u64 = ZERO_BITS;
    let ghost mut q: Seq<u64> = Seq::empty();
    let ghost mut p: Seq<u64> = seq![ZERO_BITS];
    let mut i: usize = 0;
    while i < a.len()
        invariant
            i <= a@.len(),
            total2(*fadd),
            total2(*fsub),
            total2(*fmul),
            addp == ens2(*fadd),
            subp == ens2(*fsub),
            mulp == ens2(*fmul),
            q.len() == i,
            forall|u: int| 0 <= u < i ==> sq_diff(subp, mulp, a@[u], mv, #[trigger] q[u]),
            fold_chain(addp, q, ZERO_BITS, p, i as int),
            p[i as int] == acc,
        decreases a@.len() - i,
    {
        let dd = fsub(a[i], mv);
        let sq = fmul(dd, dd);
        let prev = acc;
        acc = fadd(prev, sq);
        proof {
            assert(subp(a@[i as int], mv, dd));
            assert(mulp(dd, dd, sq));
            assert(sq_diff(subp, mulp, a@[i as int], mv, sq));
            assert(addp(prev, sq, acc));
            q = q.push(sq);
            p = p.push(acc);
        }
        i = i + 1;
    }
    let nb = fcast(a.len());
    let r = fdiv(acc, nb);
    proof {
        assert(wit2(q, p));
        assert(ssd_fold(addp, subp, mulp, a@, mv, acc));
        assert(enscast(*fcast)((a@.len() as usize), nb));
        assert(ens2(*fdiv)(acc, nb, r));
        assert(wit3s(mv, acc, nb));
    }
    r
}

/// Standard deviation: the square root of the variance, through the supplied
/// square-root function.
pub fn std_dev<FA, FS, FM, FD, FC, FQ>(
    a: &Vec<u64>,
    fadd: &FA,
    fsub: &FS,
    fmul: &FM,
    fdiv: &FD,
    fcast: &FC,
    fsqrt: &FQ,
) -> (r: u64) where
    FA: Fn(u64, u64) -> u64,
    FS: Fn(u64, u64) -> u64,
    FM: Fn(u64, u64) -> u64,
    FD: Fn(u64, u64) -> u64,
    FC: Fn(usize) -> u64,
    FQ: Fn(u64) -> u64,

    requires
        total2(*fadd),
        total2(*fsub),
        total2(*fmul),
        total2(*fdiv),
        total_cast(*fcast),
        total_1(*fsqrt),
    ensures
        exists|v: u64|
            #[trigger] wit1s(v) && var_rel(
                ens2(*fadd),
                ens2(*fsub),
                ens2(*fmul),
                ens2(*fdiv),
                enscast(*fcast),
                a@,
                a@.len() as usize,
                v,
            ) && ens1(*fsqrt)(v, r),
{
    let v = variance(a, fadd, fsub, fmul, fdiv, fcast);
    let r = fsqrt(v);
    proof {
        assert(wit1s(v));
        assert(ens1(*fsqrt)(v, r));
    }
    r
}

/// The maximum reduction earns its name: the fold over the first `t`
/// elements is never NaN, is either the -inf seed or one of those elements,
/// and no element among them is strictly greater under IEEE-754 ordering.
pub proof fn lemma_max_fold_bounds(s: Seq<u64>, t: int)
    requires
        0 <= t <= s.len(),
    ensures
        !is_nan_bits(max_fold(s, t)),
        max_fold(s, t) == NEG_INF_BITS || exists|i: int| 0 <= i < t && s[i] == #[trigger] max_fold(
            s,
            t,
        ),
        forall|i: int| 0 <= i < t ==> !f64_lt(max_fold(s, t), #[trigger] s[i]),
    decreases t,
{
    assert(!is_nan_bits(NEG_INF_BITS)) by (bit_vector);
    if t > 0 {
        lemma_max_fold_bounds(s, t - 1);
        let m = max_fold(s, t - 1);
        let m2 = max_fold(s, t);
        let x = s[t - 1];
        assert forall|i: int| 0 <= i < t implies !f64_lt(m2, #[trigger] s[i]) by {
            if m2 == x && i < t - 1 && f64_lt(m2, s[i]) {
                lemma_f64_lt_transitive(m, m2, s[i]);
            }
        }
    }
}

/// The minimum reduction earns its name: the fold over the first `t`
/// elements is never NaN, is either the +inf seed or one of those elements,
/// and no element among them is strictly smaller under IEEE-754 ordering.
pub proof fn lemma_min_fold_bounds(s: Seq<u64>, t: int)
    requires
        0 <= t <= s.len(),
    ensures
        !is_nan_bits(min_fold(s, t)),
        min_fold(s, t) == INF_BITS || exists|i: int| 0 <= i < t && s[i] == #[trigger] min_fold(
            s,
            t,
        ),
        forall|i: int| 0 <= i < t ==> !f64_lt(#[trigger] s[i], min_fold(s, t)),
    decreases t,
{
    assert(!is_nan_bits(INF_BITS)) by (bit_vector);
    if t > 0 {
        lemma_min_fold_bounds(s, t - 1);
        let m = min_fold(s, t - 1);
        let m2 = min_fold(s, t);
        let x = s[t - 1];
        assert forall|i: int| 0 <= i < t implies !f64_lt(#[trigger] s[i], m2) by {
            if m2 == x && i < t - 1 && f64_lt(s[i], m2) {
                lemma_f64_lt_transitive(s[i], m2, m);
            }
        }
    }
}

} // verus!
