//! The linear algebra kernel: matrix multiply, dot product, rectangular
//! transpose, and closed-form determinant/inverse for 2x2 and 3x3 matrices.
//!
//! Matrices are flat row-major buffers with explicit dimensions supplied per
//! call; the kernel validates the minimal size facts and fails with a typed
//! error rather than reading out of bounds. The transpose is a pure index
//! permutation, verified exactly; the arithmetic-bearing operations tie every
//! scalar step to the caller-supplied arithmetic through accumulation-chain
//! predicates.

use vstd::prelude::*;

use crate::KernelError;
use crate::elementwise::total2;
use crate::fp::ABS_MASK;
use crate::fp::SIGN_MASK;
use crate::fp::SINGULAR_EPS_BITS;
use crate::fp::ZERO_BITS;
use crate::fp::f64_lt;
use crate::fp::float_lt;
use crate::spectral::conj_bits;
use crate::spectral::ens2;

verus! {

/// A trivially true marker naming one witness sequence; it serves as the
/// matching pattern for existential quantifiers over a single chain.
pub open spec fn wit1(p: Seq<u64>) -> bool {
    true
}

/// A trivially true marker naming a pair of witness sequences; it serves as
/// the matching pattern for existential quantifiers over two chains.
pub open spec fn wit2(p: Seq<u64>, q: Seq<u64>) -> bool {
    true
}

/// Whether a flat buffer length equals `r0 * c0`, decided without overflow
/// by division.
pub(crate) fn dims_match(len: usize, r0: usize, c0: usize) -> (b: bool)
    ensures
        b == (len as int == r0 * c0),
{
    if r0 == 0 {
        proof {
            assert((r0 * c0) as int == 0) by (nonlinear_arith)
                requires
                    r0 == 0,
            ;
        }
        len == 0
    } else {
        let q = len / r0;
        let rem = len % r0;
        let b = rem == 0 && q == c0;
        proof {
            assert(b == (len as int == r0 * c0)) by (nonlinear_arith)
                requires
                    r0 > 0,
                    q == len as int / r0 as int,
                    rem == len as int % (r0 as int),
                    b == (rem == 0 && q == c0),
            ;
        }
        b
    }
}

/// A left-to-right multiply-accumulate chain for output cell (i, j) of a
/// matrix product: `q` holds the first `t` elementwise products of row `i`
/// of `a` with column `j` of `b`, and `p` the running sums starting from
/// the zero bit pattern.
pub open spec fn mac_chain(
    addp: spec_fn(u64, u64, u64) -> bool,
    mulp: spec_fn(u64, u64, u64) -> bool,
    a: Seq<u64>,
    b: Seq<u64>,
    k: int,
    n: int,
    i: int,
    j: int,
    p: Seq<u64>,
    q: Seq<u64>,
    t: int,
) -> bool {
    &&& p.len() == t + 1
    &&& q.len() == t
    &&& p[0] == ZERO_BITS
    &&& forall|u: int|
        0 <= u < t ==> mulp(a[i * k + u], b[u * n + j], #[trigger] q[u]) && addp(
            p[u],
            q[u],
            p[u + 1],
        )
}

/// Output cell (i, j) is the full multiply-accumulate over the contraction
/// index, for some chain of intermediate values of the supplied arithmetic.
pub open spec fn mac_cell(
    addp: spec_fn(u64, u64, u64) -> bool,
    mulp: spec_fn(u64, u64, u64) -> bool,
    a: Seq<u64>,
    b: Seq<u64>,
    k: int,
    n: int,
    i: int,
    j: int,
    out: u64,
) -> bool {
    exists|p: Seq<u64>, q: Seq<u64>|
        #[trigger] wit2(p, q) && mac_chain(addp, mulp, a, b, k, n, i, j, p, q, k) && p[k] == out
}

/// Matrix product C = A x B, with A of shape m x k and B of shape k x n,
/// all row-major. Fails with `DimensionMismatch` when a buffer length does
/// not match its dimensions. Each output cell is the multiply-accumulate of
/// the matching row and column, accumulated left to right from +0.0, with
/// the loop nest ordered (row, contraction index, output column) for
/// sequential access to B and C rows.
pub fn matmul<FA, FM>(
    a: &Vec<u64>,
    b: &Vec<u64>,
    m: usize,
    k: usize,
    n: usize,
    fadd: &FA,
    fmul: &FM,
) -> (r: Result<Vec<u64>, KernelError>) where FA: Fn(u64, u64) -> u64, FM: Fn(u64, u64) -> u64,
    requires
        total2(*fadd),
        total2(*fmul),
        m * n <= usize::MAX,
    ensures
        r is Ok <==> (a@.len() == m * k && b@.len() == k * n),
        !(a@.len() == m * k && b@.len() == k * n) ==> r == Err::<Vec<u64>, KernelError>(
            KernelError::DimensionMismatch,
        ),
        r matches Ok(v) ==> v@.len() == m * n && forall|i: int, j: int|
            0 <= i < m && 0 <= j < n ==> mac_cell(
                ens2(*fadd),
                ens2(*fmul),
                a@,
                b@,
                k as int,
                n as int,
                i,
                j,
                #[trigger] v@[i * n + j],
            ),
{
    let ghost addp = ens2(*fadd);
    let ghost mulp = ens2(*fmul);
    if !dims_match(a.len(), m, k) {
        return Err(KernelError::DimensionMismatch);
    }
    if !dims_match(b.len(), k, n) {
        return Err(KernelError::DimensionMismatch);
    }
    let mut result: Vec<u64> = Vec::new();
    let mut i: usize = 0;
    while i < m
        invariant
            i <= m,
            a@.len() == m * k,
            b@.len() == k * n,
            m * k <= usize::MAX,
            k * n <= usize::MAX,
            m * n <= usize::MAX,
            result@.len() == i * n,
            total2(*fadd),
            total2(*fmul),
            addp == ens2(*fadd),
            mulp == ens2(*fmul),
            forall|r0: int, c0: int|
                0 <= r0 < i && 0 <= c0 < n ==> mac_cell(
                    addp,
                    mulp,
                    a@,
                    b@,
                    k as int,
                    n as int,
                    r0,
                    c0,
                    #[trigger] result@[r0 * n + c0],
                ),
        decreases m - i,
    {
        proof {
            assert((i + 1) * n <= m * n && i * n + n == (i + 1) * n) by (nonlinear_arith)
                requires
                    0 <= i < m,
                    0 <= n,
            ;
        }
        let mut acc: Vec<u64> = Vec::new();
        let ghost mut pm: Seq<Seq<u64>> = Seq::new(n as nat, |j: int| seq![ZERO_BITS]);
        let ghost mut qm: Seq<Seq<u64>> = Seq::new(n as nat, |j: int| Seq::empty());
        let mut j: usize = 0;
        while j < n
            invariant
                j <= n,
                acc@.len() == j,
                forall|c0: int| 0 <= c0 < j ==> #[trigger] acc@[c0] == ZERO_BITS,
            decreases n - j,
        {
            acc.push(ZERO_BITS);
            j = j + 1;
        }
        let mut kk: usize = 0;
        while kk < k
            invariant
                kk <= k,
                0 <= i < m,
                a@.len() == m * k,
                b@.len() == k * n,
                m * k <= usize::MAX,
                k * n <= usize::MAX,
                acc@.len() == n,
                pm.len() == n,
                qm.len() == n,
                total2(*fadd),
                total2(*fmul),
                addp == ens2(*fadd),
                mulp == ens2(*fmul),
                forall|c0: int|
                    0 <= c0 < n ==> mac_chain(
                        addp,
                        mulp,
                        a@,
                        b@,
                        k as int,
                        n as int,
                        i as int,
                        c0,
                        #[trigger] pm[c0],
                        qm[c0],
                        kk as int,
                    ) && pm[c0][kk as int] == acc@[c0],
            decreases k - kk,
        {
            proof {
                assert(i * k + kk < m * k && kk * n + n <= k * n) by (nonlinear_arith)
                    requires
                        0 <= i < m,
                        0 <= kk < k,
                        0 <= n,
                ;
            }
            let a_val = a[i * k + kk];
            let mut j: usize = 0;
            while j < n
                invariant
                    j <= n,
                    kk < k,
                    0 <= i < m,
                    a@.len() == m * k,
                    b@.len() == k * n,
                    m * k <= usize::MAX,
                    k * n <= usize::MAX,
                    i * k + kk < m * k,
                    kk * n + n <= k * n,
                    a_val == a@[i * k + kk],
                    acc@.len() == n,
                    pm.len() == n,
                    qm.len() == n,
                    total2(*fadd),
                    total2(*fmul),
                    addp == ens2(*fadd),
                    mulp == ens2(*fmul),
                    forall|c0: int|
                        j <= c0 < n ==> mac_chain(
                            addp,
                            mulp,
                            a@,
                            b@,
                            k as int,
                            n as int,
                            i as int,
                            c0,
                            #[trigger] pm[c0],
                            qm[c0],
                            kk as int,
                        ) && pm[c0][kk as int] == acc@[c0],
                    forall|c0: int|
                        0 <= c0 < j ==> mac_chain(
                            addp,
                            mulp,
                            a@,
                            b@,
                            k as int,
                            n as int,
                            i as int,
                            c0,
                            #[trigger] pm[c0],
                            qm[c0],
                            kk as int + 1,
                        ) && pm[c0][kk as int + 1] == acc@[c0],
                decreases n - j,
            {
                let prod = fmul(a_val, b[kk * n + j]);
                let old_acc = acc[j];
                let newv = fadd(old_acc, prod);
                acc.set(j, newv);
                proof {
                    pm = pm.update(j as int, pm[j as int].push(newv));
                    qm = qm.update(j as int, qm[j as int].push(prod));
                }
                j = j + 1;
            }
            kk = kk + 1;
        }
        let ghost accv = acc@;
        let ghost resv = result@;
        let ghost old_len = result@.len();
        result.append(&mut acc);
        proof {
            assert forall|c0: int| 0 <= c0 < n implies mac_cell(
                addp,
                mulp,
                a@,
                b@,
                k as int,
                n as int,
                i as int,
                c0,
                #[trigger] result@[i * n + c0],
            ) by {
                assert(result@[old_len + c0] == accv[c0]);
                assert(old_len == i * n);
                assert(wit2(pm[c0], qm[c0]));
            }
            assert(result@.len() == i * n + n);
            assert forall|r0: int, c0: int|
                0 <= r0 < i && 0 <= c0 < n implies mac_cell(
                addp,
                mulp,
                a@,
                b@,
                k as int,
                n as int,
                r0,
                c0,
                #[trigger] result@[r0 * n + c0],
            ) by {
                assert(r0 * n + c0 < i * n && 0 <= r0 * n + c0) by (nonlinear_arith)
                    requires
                        0 <= r0 < i,
                        0 <= c0 < n,
                ;
                assert(result@[r0 * n + c0] == resv[r0 * n + c0]);
            }
        }
        i = i + 1;
    }
    proof {
        assert(result@.len() == m * n);
    }
    Ok(result)
}

/// The inner product of two equal-length buffers: the elementwise products
/// accumulated left to right from +0.0. Unequal lengths fail with
/// `LengthMismatch`.
pub fn dot<FA, FM>(a: &Vec<u64>, b: &Vec<u64>, fadd: &FA, fmul: &FM) -> (r: Result<
    u64,
    KernelError,
>) where FA: Fn(u64, u64) -> u64, FM: Fn(u64, u64) -> u64,
    requires
        total2(*fadd),
        total2(*fmul),
    ensures
        r is Ok <==> a@.len() == b@.len(),
        a@.len() != b@.len() ==> r == Err::<u64, KernelError>(KernelError::LengthMismatch),
        r matches Ok(d) ==> mac_cell(ens2(*fadd), ens2(*fmul), a@, b@, a@.len() as int, 1, 0, 0, d),
{
    let ghost addp = ens2(*fadd);
    let ghost mulp = ens2(*fmul);
    if a.len() != b.len() {
        return Err(KernelError::LengthMismatch);
    }
    let mut accum: u64 = ZERO_BITS;
    let ghost mut p: Seq<u64> = seq![ZERO_BITS];
    let ghost mut q: Seq<u64> = Seq::empty();
    let mut t: usize = 0;
    while t < a.len()
        invariant
            t <= a@.len(),
            a@.len() == b@.len(),
            total2(*fadd),
            total2(*fmul),
            addp == ens2(*fadd),
            mulp == ens2(*fmul),
            mac_chain(addp, mulp, a@, b@, a@.len() as int, 1, 0, 0, p, q, t as int),
            p[t as int] == accum,
        decreases a@.len() - t,
    {
        let prod = fmul(a[t], b[t]);
        let old_accum = accum;
        accum = fadd(old_accum, prod);
        proof {
            p = p.push(accum);
            q = q.push(prod);
        }
        t = t + 1;
    }
    proof {
        assert(wit2(p, q));
    }
    Ok(accum)
}

/// Rectangular transpose of a `rows x cols` row-major matrix: output cell
/// (j, i) — at index `j * rows + i` — is input cell (i, j). Fails with
/// `DimensionMismatch` when the buffer length is not `rows * cols`.
pub fn transpose_matrix(a: &Vec<u64>, rows: usize, cols: usize) -> (r: Result<
    Vec<u64>,
    KernelError,
>)
    ensures
        r is Ok <==> a@.len() == rows * cols,
        a@.len() != rows * cols ==> r == Err::<Vec<u64>, KernelError>(
            KernelError::DimensionMismatch,
        ),
        r matches Ok(v) ==> v@ == transpose_spec(a@, rows as int, cols as int),
{
    if !dims_match(a.len(), rows, cols) {
        return Err(KernelError::DimensionMismatch);
    }
    let mut out: Vec<u64> = Vec::new();
    let mut j: usize = 0;
    while j < cols
        invariant
            j <= cols,
            a@.len() == rows * cols,
            rows * cols <= usize::MAX,
            out@.len() == j * rows,
            forall|c0: int, r0: int|
                0 <= c0 < j && 0 <= r0 < rows ==> #[trigger] out@[c0 * rows + r0] == a@[r0 * cols
                    + c0],
        decreases cols - j,
    {
        proof {
            assert((j + 1) * rows <= cols * rows && j * rows + rows == (j + 1) * rows && cols * rows
                == rows * cols) by (nonlinear_arith)
                requires
                    0 <= j < cols,
                    0 <= rows,
            ;
        }
        let mut i: usize = 0;
        while i < rows
            invariant
                i <= rows,
                j < cols,
                a@.len() == rows * cols,
                rows * cols <= usize::MAX,
                j * rows + rows <= rows * cols,
                out@.len() == j * rows + i,
                forall|c0: int, r0: int|
                    0 <= c0 < j && 0 <= r0 < rows ==> #[trigger] out@[c0 * rows + r0] == a@[r0
                        * cols + c0],
                forall|r0: int|
                    0 <= r0 < i ==> #[trigger] out@[j * rows + r0] == a@[r0 * cols + j as int],
            decreases rows - i,
        {
            proof {
                assert(i * cols + j < rows * cols) by (nonlinear_arith)
                    requires
                        0 <= i < rows,
                        0 <= j < cols,
                ;
            }
            out.push(a[i * cols + j]);
            proof {
                assert forall|c0: int, r0: int|
                    0 <= c0 < j && 0 <= r0 < rows implies 0 <= #[trigger] (c0 * rows + r0) && c0
                    * rows + r0 < j * rows by {
                    assert(0 <= c0 * rows + r0 && c0 * rows + r0 < j * rows) by (nonlinear_arith)
                        requires
                            0 <= c0 < j,
                            0 <= r0 < rows,
                    ;
                }
            }
            i = i + 1;
        }
        proof {
            assert((j + 1) * rows == j * rows + rows) by (nonlinear_arith);
            assert forall|c0: int, r0: int|
                0 <= c0 < j + 1 && 0 <= r0 < rows implies #[trigger] out@[c0 * rows + r0] == a@[r0
                * cols + c0] by {
                if c0 == j as int {
                    assert(out@[j as int * rows + r0] == a@[r0 * cols + j as int]);
                }
            }
        }
        j = j + 1;
    }
    proof {
        assert(cols * rows == rows * cols) by (nonlinear_arith);
        assert forall|idx: int| 0 <= idx < rows * cols implies out@[idx] == a@[(idx % (rows as int))
            * cols + idx / (rows as int)] by {
            let r0 = idx % (rows as int);
            let c0 = idx / (rows as int);
            assert(0 <= r0 < rows && 0 <= c0 < cols && idx == c0 * rows + r0) by (nonlinear_arith)
                requires
                    rows > 0,
                    0 <= idx < rows * cols,
                    r0 == idx % (rows as int),
                    c0 == idx / (rows as int),
            ;
            assert(out@[c0 * rows + r0] == a@[r0 * cols + c0]);
        }
        assert(out@ =~= transpose_spec(a@, rows as int, cols as int));
    }
    Ok(out)
}

/// `t` is the product x * y * z, associated as (x * y) * z, for some
/// intermediate of the supplied multiplication.
pub open spec fn triple_rel(
    mulp: spec_fn(u64, u64, u64) -> bool,
    x: u64,
    y: u64,
    z: u64,
    t: u64,
) -> bool {
    exists|u: u64| #[trigger] mulp(x, y, u) && mulp(u, z, t)
}

/// `d` is the 2x2 determinant a[0]*a[3] - a[1]*a[2] for some intermediate
/// products of the supplied arithmetic.
pub open spec fn det2_rel(
    subp: spec_fn(u64, u64, u64) -> bool,
    mulp: spec_fn(u64, u64, u64) -> bool,
    a: Seq<u64>,
    d: u64,
) -> bool {
    exists|p1: u64, p2: u64|
        #![trigger mulp(a[0], a[3], p1), mulp(a[1], a[2], p2)]
        mulp(a[0], a[3], p1) && mulp(a[1], a[2], p2) && subp(p1, p2, d)
}

/// `d` is the 3x3 determinant by cofactor expansion,
/// a0*a4*a8 + a1*a5*a6 + a2*a3*a7 - a2*a4*a6 - a1*a3*a8 - a0*a5*a7,
/// accumulated left to right, for some intermediates of the supplied
/// arithmetic.
pub open spec fn det3_rel(
    addp: spec_fn(u64, u64, u64) -> bool,
    subp: spec_fn(u64, u64, u64) -> bool,
    mulp: spec_fn(u64, u64, u64) -> bool,
    a: Seq<u64>,
    d: u64,
) -> bool {
    exists|t0: u64, t1: u64, t2: u64, t3: u64, t4: u64, t5: u64, s1: u64, s2: u64, s3: u64, s4: u64|
        #![trigger triple_rel(mulp, a[0], a[4], a[8], t0), triple_rel(mulp, a[1], a[5], a[6], t1),
            triple_rel(mulp, a[2], a[3], a[7], t2), triple_rel(mulp, a[2], a[4], a[6], t3),
            triple_rel(mulp, a[1], a[3], a[8], t4), triple_rel(mulp, a[0], a[5], a[7], t5),
            addp(t0, t1, s1), addp(s1, t2, s2), subp(s2, t3, s3), subp(s3, t4, s4)]
        {
            &&& triple_rel(mulp, a[0], a[4], a[8], t0)
            &&& triple_rel(mulp, a[1], a[5], a[6], t1)
            &&& triple_rel(mulp, a[2], a[3], a[7], t2)
            &&& triple_rel(mulp, a[2], a[4], a[6], t3)
            &&& triple_rel(mulp, a[1], a[3], a[8], t4)
            &&& triple_rel(mulp, a[0], a[5], a[7], t5)
            &&& addp(t0, t1, s1)
            &&& addp(s1, t2, s2)
            &&& subp(s2, t3, s3)
            &&& subp(s3, t4, s4)
            &&& subp(s4, t5, d)
        }
}

/// `v` is the adjugate-over-determinant 2x2 inverse for determinant `d`:
/// [a3/d, -a1/d, -a2/d, a0/d], with each negation an exact sign-bit flip.
pub open spec fn inv2_rel(
    divp: spec_fn(u64, u64, u64) -> bool,
    a: Seq<u64>,
    d: u64,
    v: Seq<u64>,
) -> bool {
    &&& v.len() == 4
    &&& divp(a[3], d, v[0])
    &&& divp(conj_bits(a[1]), d, v[1])
    &&& divp(conj_bits(a[2]), d, v[2])
    &&& divp(a[0], d, v[3])
}

/// `out` is the cofactor (x1*x2 - y1*y2) divided by `d`, for some
/// intermediates of the supplied arithmetic.
pub open spec fn cofdiv_rel(
    subp: spec_fn(u64, u64, u64) -> bool,
    mulp: spec_fn(u64, u64, u64) -> bool,
    divp: spec_fn(u64, u64, u64) -> bool,
    x1: u64,
    x2: u64,
    y1: u64,
    y2: u64,
    d: u64,
    out: u64,
) -> bool {
    exists|p1: u64, p2: u64, c: u64|
        #![trigger mulp(x1, x2, p1), mulp(y1, y2, p2), subp(p1, p2, c)]
        mulp(x1, x2, p1) && mulp(y1, y2, p2) && subp(p1, p2, c) && divp(c, d, out)
}

/// `v` is the cofactor 3x3 inverse for determinant `d`: each entry the
/// matching 2x2 cofactor divided by `d`.
pub open spec fn inv3_rel(
    subp: spec_fn(u64, u64, u64) -> bool,
    mulp: spec_fn(u64, u64, u64) -> bool,
    divp: spec_fn(u64, u64, u64) -> bool,
    a: Seq<u64>,
    d: u64,
    v: Seq<u64>,
) -> bool {
    &&& v.len() == 9
    &&& cofdiv_rel(subp, mulp, divp, a[4], a[8], a[5], a[7], d, v[0])
    &&& cofdiv_rel(subp, mulp, divp, a[2], a[7], a[1], a[8], d, v[1])
    &&& cofdiv_rel(subp, mulp, divp, a[1], a[5], a[2], a[4], d, v[2])
    &&& cofdiv_rel(subp, mulp, divp, a[5], a[6], a[3], a[8], d, v[3])
    &&& cofdiv_rel(subp, mulp, divp, a[0], a[8], a[2], a[6], d, v[4])
    &&& cofdiv_rel(subp, mulp, divp, a[2], a[3], a[0], a[5], d, v[5])
    &&& cofdiv_rel(subp, mulp, divp, a[3], a[7], a[4], a[6], d, v[6])
    &&& cofdiv_rel(subp, mulp, divp, a[1], a[6], a[0], a[7], d, v[7])
    &&& cofdiv_rel(subp, mulp, divp, a[0], a[4], a[1], a[3], d, v[8])
}

/// Determinant of a 2x2 or 3x3 row-major matrix by the closed-form cofactor
/// expansion. Any other size fails with `UnsupportedMatrixSize`; a buffer
/// whose length is not n*n fails with `DimensionMismatch`.
pub fn det_matrix<FA, FS, FM>(a: &Vec<u64>, n: usize, fadd: &FA, fsub: &FS, fmul: &FM) -> (r:
    Result<u64, KernelError>) where
    FA: Fn(u64, u64) -> u64,
    FS: Fn(u64, u64) -> u64,
    FM: Fn(u64, u64) -> u64,

    requires
        total2(*fadd),
        total2(*fsub),
        total2(*fmul),
    ensures
        r is Ok <==> ((n == 2 || n == 3) && a@.len() == n * n),
        !(n == 2 || n == 3) ==> r == Err::<u64, KernelError>(KernelError::UnsupportedMatrixSize),
        (n == 2 || n == 3) && a@.len() != n * n ==> r == Err::<u64, KernelError>(
            KernelError::DimensionMismatch,
        ),
        n == 2 && a@.len() == 4 ==> (r matches Ok(d) && det2_rel(ens2(*fsub), ens2(*fmul), a@, d)),
        n == 3 && a@.len() == 9 ==> (r matches Ok(d) && det3_rel(
            ens2(*fadd),
            ens2(*fsub),
            ens2(*fmul),
            a@,
            d,
        )),
{
    if n != 2 && n != 3 {
        return Err(KernelError::UnsupportedMatrixSize);
    }
    if !dims_match(a.len(), n, n) {
        return Err(KernelError::DimensionMismatch);
    }
    if n == 2 {
        let p1 = fmul(a[0], a[3]);
        let p2 = fmul(a[1], a[2]);
        let d = fsub(p1, p2);
        proof {
            let mulp = ens2(*fmul);
            let subp = ens2(*fsub);
            assert(mulp(a@[0], a@[3], p1) && mulp(a@[1], a@[2], p2) && subp(p1, p2, d));
        }
        return Ok(d);
    }
    let d = det3(a, fadd, fsub, fmul);
    Ok(d)
}

/// The 3x3 cofactor determinant on a length-9 buffer.
fn det3<FA, FS, FM>(a: &Vec<u64>, fadd: &FA, fsub: &FS, fmul: &FM) -> (d: u64) where
    FA: Fn(u64, u64) -> u64,
    FS: Fn(u64, u64) -> u64,
    FM: Fn(u64, u64) -> u64,

    requires
        total2(*fadd),
        total2(*fsub),
        total2(*fmul),
        a@.len() == 9,
    ensures
        det3_rel(ens2(*fadd), ens2(*fsub), ens2(*fmul), a@, d),
{
    let u0 = fmul(a[0], a[4]);
    let t0 = fmul(u0, a[8]);
    let u1 = fmul(a[1], a[5]);
    let t1 = fmul(u1, a[6]);
    let u2 = fmul(a[2], a[3]);
    let t2 = fmul(u2, a[7]);
    let u3 = fmul(a[2], a[4]);
    let t3 = fmul(u3, a[6]);
    let u4 = fmul(a[1], a[3]);
    let t4 = fmul(u4, a[8]);
    let u5 = fmul(a[0], a[5]);
    let t5 = fmul(u5, a[7]);
    let s1 = fadd(t0, t1);
    let s2 = fadd(s1, t2);
    let s3 = fsub(s2, t3);
    let s4 = fsub(s3, t4);
    let d = fsub(s4, t5);
    proof {
        let mulp = ens2(*fmul);
        let addp = ens2(*fadd);
        let subp = ens2(*fsub);
        assert(mulp(a@[0], a@[4], u0) && mulp(u0, a@[8], t0));
        assert(mulp(a@[1], a@[5], u1) && mulp(u1, a@[6], t1));
        assert(mulp(a@[2], a@[3], u2) && mulp(u2, a@[7], t2));
        assert(mulp(a@[2], a@[4], u3) && mulp(u3, a@[6], t3));
        assert(mulp(a@[1], a@[3], u4) && mulp(u4, a@[8], t4));
        assert(mulp(a@[0], a@[5], u5) && mulp(u5, a@[7], t5));
        assert(addp(t0, t1, s1) && addp(s1, t2, s2));
        assert(subp(s2, t3, s3) && subp(s3, t4, s4) && subp(s4, t5, d));
        assert(triple_rel(mulp, a@[0], a@[4], a@[8], t0));
        assert(triple_rel(mulp, a@[1], a@[5], a@[6], t1));
        assert(triple_rel(mulp, a@[2], a@[3], a@[7], t2));
        assert(triple_rel(mulp, a@[2], a@[4], a@[6], t3));
        assert(triple_rel(mulp, a@[1], a@[3], a@[8], t4));
        assert(triple_rel(mulp, a@[0], a@[5], a@[7], t5));
    }
    d
}

/// Inverse of a 2x2 or 3x3 row-major matrix by the closed-form adjugate
/// formulas. Any other size fails with `UnsupportedMatrixSize`; a buffer
/// whose length is not n*n fails with `DimensionMismatch`; a determinant
/// whose absolute value is below 1e-10 fails with `SingularMatrix`.
pub fn inv_matrix<FA, FS, FM, FD>(
    a: &Vec<u64>,
    n: usize,
    fadd: &FA,
    fsub: &FS,
    fmul: &FM,
    fdiv: &FD,
) -> (r: Result<Vec<u64>, KernelError>) where
    FA: Fn(u64, u64) -> u64,
    FS: Fn(u64, u64) -> u64,
    FM: Fn(u64, u64) -> u64,
    FD: Fn(u64, u64) -> u64,

    requires
        total2(*fadd),
        total2(*fsub),
        total2(*fmul),
        total2(*fdiv),
    ensures
        !(n == 2 || n == 3) ==> r == Err::<Vec<u64>, KernelError>(
            KernelError::UnsupportedMatrixSize,
        ),
        (n == 2 || n == 3) && a@.len() != n * n ==> r == Err::<Vec<u64>, KernelError>(
            KernelError::DimensionMismatch,
        ),
        n == 2 && a@.len() == 4 ==> exists|d: u64|
            {
                &&& #[trigger] det2_rel(ens2(*fsub), ens2(*fmul), a@, d)
                &&& if f64_lt(d & ABS_MASK, SINGULAR_EPS_BITS) {
                    r == Err::<Vec<u64>, KernelError>(KernelError::SingularMatrix)
                } else {
                    r matches Ok(v) && inv2_rel(ens2(*fdiv), a@, d, v@)
                }
            },
        n == 3 && a@.len() == 9 ==> exists|d: u64|
            {
                &&& #[trigger] det3_rel(ens2(*fadd), ens2(*fsub), ens2(*fmul), a@, d)
                &&& if f64_lt(d & ABS_MASK, SINGULAR_EPS_BITS) {
                    r == Err::<Vec<u64>, KernelError>(KernelError::SingularMatrix)
                } else {
                    r matches Ok(v) && inv3_rel(ens2(*fsub), ens2(*fmul), ens2(*fdiv), a@, d, v@)
                }
            },
{
    if n != 2 && n != 3 {
        return Err(KernelError::UnsupportedMatrixSize);
    }
    if !dims_match(a.len(), n, n) {
        return Err(KernelError::DimensionMismatch);
    }
    if n == 2 {
        let p1 = fmul(a[0], a[3]);
        let p2 = fmul(a[1], a[2]);
        let d = fsub(p1, p2);
        proof {
            let mulp = ens2(*fmul);
            let subp = ens2(*fsub);
            assert(mulp(a@[0], a@[3], p1) && mulp(a@[1], a@[2], p2) && subp(p1, p2, d));
        }
        if float_lt(d & ABS_MASK, SINGULAR_EPS_BITS) {
            proof {
                assert(det2_rel(ens2(*fsub), ens2(*fmul), a@, d));
            }
            return Err(KernelError::SingularMatrix);
        }
        let mut v: Vec<u64> = Vec::new();
        let w0 = fdiv(a[3], d);
        let w1 = fdiv(a[1] ^ SIGN_MASK, d);
        let w2 = fdiv(a[2] ^ SIGN_MASK, d);
        let w3 = fdiv(a[0], d);
        v.push(w0);
        v.push(w1);
        v.push(w2);
        v.push(w3);
        proof {
            let divp = ens2(*fdiv);
            assert(divp(a@[3], d, w0) && divp(conj_bits(a@[1]), d, w1) && divp(
                conj_bits(a@[2]),
                d,
                w2,
            ) && divp(a@[0], d, w3));
            assert(det2_rel(ens2(*fsub), ens2(*fmul), a@, d));
            assert(inv2_rel(ens2(*fdiv), a@, d, v@));
        }
        return Ok(v);
    }
    let d = det3(a, fadd, fsub, fmul);
    if float_lt(d & ABS_MASK, SINGULAR_EPS_BITS) {
        return Err(KernelError::SingularMatrix);
    }
    let mut v: Vec<u64> = Vec::new();
    let e0 = cof_div(a[4], a[8], a[5], a[7], d, fsub, fmul, fdiv);
    let e1 = cof_div(a[2], a[7], a[1], a[8], d, fsub, fmul, fdiv);
    let e2 = cof_div(a[1], a[5], a[2], a[4], d, fsub, fmul, fdiv);
    let e3 = cof_div(a[5], a[6], a[3], a[8], d, fsub, fmul, fdiv);
    let e4 = cof_div(a[0], a[8], a[2], a[6], d, fsub, fmul, fdiv);
    let e5 = cof_div(a[2], a[3], a[0], a[5], d, fsub, fmul, fdiv);
    let e6 = cof_div(a[3], a[7], a[4], a[6], d, fsub, fmul, fdiv);
    let e7 = cof_div(a[1], a[6], a[0], a[7], d, fsub, fmul, fdiv);
    let e8 = cof_div(a[0], a[4], a[1], a[3], d, fsub, fmul, fdiv);
    v.push(e0);
    v.push(e1);
    v.push(e2);
    v.push(e3);
    v.push(e4);
    v.push(e5);
    v.push(e6);
    v.push(e7);
    v.push(e8);
    proof {
        assert(inv3_rel(ens2(*fsub), ens2(*fmul), ens2(*fdiv), a@, d, v@));
    }
    Ok(v)
}

/// One 3x3 inverse entry: the cofactor (x1*x2 - y1*y2) divided by the
/// determinant.
fn cof_div<FS, FM, FD>(
    x1: u64,
    x2: u64,
    y1: u64,
    y2: u64,
    d: u64,
    fsub: &FS,
    fmul: &FM,
    fdiv: &FD,
) -> (out: u64) where FS: Fn(u64, u64) -> u64, FM: Fn(u64, u64) -> u64, FD: Fn(u64, u64) -> u64,
    requires
        total2(*fsub),
        total2(*fmul),
        total2(*fdiv),
    ensures
        cofdiv_rel(ens2(*fsub), ens2(*fmul), ens2(*fdiv), x1, x2, y1, y2, d, out),
{
    let p1 = fmul(x1, x2);
    let p2 = fmul(y1, y2);
    let c = fsub(p1, p2);
    let out = fdiv(c, d);
    proof {
        let mulp = ens2(*fmul);
        let subp = ens2(*fsub);
        let divp = ens2(*fdiv);
        assert(mulp(x1, x2, p1) && mulp(y1, y2, p2) && subp(p1, p2, c) && divp(c, d, out));
    }
    out
}

/// The transpose of a `rows x cols` row-major sequence: index `j * rows + i`
/// of the result holds index `i * cols + j` of the input.
pub open spec fn transpose_spec(s: Seq<u64>, rows: int, cols: int) -> Seq<u64> {
    Seq::new((rows * cols) as nat, |idx: int| s[(idx % rows) * cols + idx / rows])
}

/// Transposing twice gives back the original matrix: the transpose is an
/// involution on every rectangular row-major buffer.
pub proof fn lemma_transpose_involutive(s: Seq<u64>, rows: int, cols: int)
    requires
        rows >= 0,
        cols >= 0,
        s.len() == rows * cols,
    ensures
        transpose_spec(transpose_spec(s, rows, cols), cols, rows) == s,
{
    let t = transpose_spec(s, rows, cols);
    let u = transpose_spec(t, cols, rows);
    assert(rows * cols == cols * rows) by (nonlinear_arith);
    assert forall|idx: int| 0 <= idx < s.len() implies u[idx] == s[idx] by {
        let i = idx % cols;
        let j = idx / cols;
        assert(0 <= i < cols && 0 <= j < rows && idx == j * cols + i) by (nonlinear_arith)
            requires
                idx >= 0,
                idx < rows * cols,
                cols > 0,
                i == idx % cols,
                j == idx / cols,
        ;
        let tdx = i * rows + j;
        assert(0 <= tdx < cols * rows && tdx % rows == j && tdx / rows == i) by (nonlinear_arith)
            requires
                0 <= i < cols,
                0 <= j < rows,
                tdx == i * rows + j,
        ;
        assert(u[idx] == t[(idx % cols) * rows + idx / cols]);
        assert(t[tdx] == s[(tdx % rows) * cols + tdx / rows]);
    }
    assert(u =~= s);
}

} // verus!