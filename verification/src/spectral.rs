//! The spectral kernel: radix-2 decimation-in-time Cooley–Tukey transform
//! and its inverse, on interleaved complex buffers.
//!
//! The kernel owns the whole transform structure — the power-of-two
//! validation, the even/odd decimation, the recursion, the butterfly wiring,
//! the conjugations (exact sign-bit flips) and the interleaved layout. The
//! caller supplies scalar addition, subtraction and multiplication on bit
//! patterns, plus the twiddle-factor oracle giving (cos, sin) of
//! -2*pi*k/n for a butterfly index `k` at transform size `n`.
//!
//! `is_dft` states, level by level, that an output pair of sequences is a
//! correct decimation-in-time combination of transforms of the even- and
//! odd-indexed halves of the input, with every scalar value tied to the
//! supplied arithmetic through its contract.

use vstd::prelude::*;

use crate::KernelError;
use crate::elementwise::total2;
use crate::fp::ONE_BITS;
use crate::fp::SIGN_MASK;

verus! {

/// Whether `n` is a power of two (1, 2, 4, ...). Zero is not.
pub open spec fn is_pow2(n: nat) -> bool
    decreases n,
{
    if n == 0 {
        false
    } else if n == 1 {
        true
    } else {
        n % 2 == 0 && is_pow2(n / 2)
    }
}

/// Executable power-of-two test, by repeated halving.
pub fn is_power_of_two(n: usize) -> (r: bool)
    ensures
        r == is_pow2(n as nat),
{
    if n == 0 {
        return false;
    }
    let mut m: usize = n;
    while m % 2 == 0
        invariant
            m >= 1,
            is_pow2(n as nat) == is_pow2(m as nat),
        decreases m,
    {
        m = m / 2;
    }
    m == 1
}

/// The even-indexed half of a sequence.
pub open spec fn evens_of(s: Seq<u64>) -> Seq<u64> {
    Seq::new(s.len() / 2, |i: int| s[2 * i])
}

/// The odd-indexed half of a sequence.
pub open spec fn odds_of(s: Seq<u64>) -> Seq<u64> {
    Seq::new(s.len() / 2, |i: int| s[2 * i + 1])
}

/// IEEE-754 negation of a bit pattern: the sign bit flips, nothing else.
pub open spec fn conj_bits(x: u64) -> u64 {
    x ^ SIGN_MASK
}

/// `conj_bits` applied to every element.
pub open spec fn conj_seq(s: Seq<u64>) -> Seq<u64> {
    Seq::new(s.len(), |i: int| conj_bits(s[i]))
}

/// An all-zero-bit sequence: `n` copies of +0.0.
pub open spec fn zero_seq(n: nat) -> Seq<u64> {
    Seq::new(n, |i: int| 0u64)
}

/// The contract of a binary scalar function, as a relation on bit patterns.
pub open spec fn ens2<F: Fn(u64, u64) -> u64>(f: F) -> spec_fn(u64, u64, u64) -> bool {
    |x: u64, y: u64, r: u64| f.ensures((x, y), r)
}

/// The contract of a twiddle oracle: relates a butterfly index `k` and a
/// transform size `n` to the (cos, sin) bit patterns the oracle returned.
pub open spec fn enstw<F: Fn(usize, usize) -> (u64, u64)>(f: F) -> spec_fn(
    int,
    int,
    u64,
    u64,
) -> bool {
    |k: int, n: int, c: u64, s: u64|
        0 <= k <= usize::MAX && 0 <= n <= usize::MAX && f.ensures((k as usize, n as usize), (c, s))
}

/// One butterfly at index `k` of a combine step of size `n = 2 * half`:
/// some twiddle pair (c, s) for (k, n) and some intermediate products exist
/// such that t = (c + i s) * odd[k], top = even[k] + t, bot = even[k] - t,
/// each scalar step tied to the supplied arithmetic.
pub open spec fn bf_at(
    addp: spec_fn(u64, u64, u64) -> bool,
    subp: spec_fn(u64, u64, u64) -> bool,
    mulp: spec_fn(u64, u64, u64) -> bool,
    twp: spec_fn(int, int, u64, u64) -> bool,
    n: int,
    k: int,
    e_re: u64,
    e_im: u64,
    o_re: u64,
    o_im: u64,
    top_re: u64,
    top_im: u64,
    bot_re: u64,
    bot_im: u64,
) -> bool {
    exists|c: u64, s: u64, m1: u64, m2: u64, m3: u64, m4: u64, tr: u64, ti: u64|
        #![trigger twp(k, n, c, s), mulp(c, o_re, m1), mulp(s, o_im, m2), subp(m1, m2, tr),
            mulp(c, o_im, m3), mulp(s, o_re, m4), addp(m3, m4, ti)]
        {
            &&& twp(k, n, c, s)
            &&& mulp(c, o_re, m1)
            &&& mulp(s, o_im, m2)
            &&& subp(m1, m2, tr)
            &&& mulp(c, o_im, m3)
            &&& mulp(s, o_re, m4)
            &&& addp(m3, m4, ti)
            &&& addp(e_re, tr, top_re)
            &&& addp(e_im, ti, top_im)
            &&& subp(e_re, tr, bot_re)
            &&& subp(e_im, ti, bot_im)
        }
}

/// A trivially true marker naming the four witness sequences of one
/// recursion level of `is_dft`; it serves as the matching pattern for the
/// existential quantifier there.
pub open spec fn dft_witness(er: Seq<u64>, ei: Seq<u64>, odr: Seq<u64>, odi: Seq<u64>) -> bool {
    true
}

/// Whether (out_re, out_im) is a radix-2 decimation-in-time transform of
/// (in_re, in_im) under the supplied scalar arithmetic: a length-1 (or empty)
/// input passes through unchanged, and a longer input is the butterfly
/// combination of transforms of its even- and odd-indexed halves.
pub open spec fn is_dft(
    addp: spec_fn(u64, u64, u64) -> bool,
    subp: spec_fn(u64, u64, u64) -> bool,
    mulp: spec_fn(u64, u64, u64) -> bool,
    twp: spec_fn(int, int, u64, u64) -> bool,
    in_re: Seq<u64>,
    in_im: Seq<u64>,
    out_re: Seq<u64>,
    out_im: Seq<u64>,
) -> bool
    decreases in_re.len(), 1int,
{
    if in_re.len() <= 1 {
        out_re == in_re && out_im == in_im
    } else {
        exists|er: Seq<u64>, ei: Seq<u64>, odr: Seq<u64>, odi: Seq<u64>|
            #[trigger] dft_witness(er, ei, odr, odi) && dft_combine(
                addp,
                subp,
                mulp,
                twp,
                in_re,
                in_im,
                out_re,
                out_im,
                er,
                ei,
                odr,
                odi,
            )
    }
}

/// The combine step of one recursion level: (er, ei) and (odr, odi) are
/// transforms of the even- and odd-indexed halves of the input, and the
/// output is their butterfly combination.
pub open spec fn dft_combine(
    addp: spec_fn(u64, u64, u64) -> bool,
    subp: spec_fn(u64, u64, u64) -> bool,
    mulp: spec_fn(u64, u64, u64) -> bool,
    twp: spec_fn(int, int, u64, u64) -> bool,
    in_re: Seq<u64>,
    in_im: Seq<u64>,
    out_re: Seq<u64>,
    out_im: Seq<u64>,
    er: Seq<u64>,
    ei: Seq<u64>,
    odr: Seq<u64>,
    odi: Seq<u64>,
) -> bool
    decreases in_re.len(), 0int,
{
    let h = in_re.len() as int / 2;
    &&& in_re.len() >= 2
    &&& er.len() == h
    &&& ei.len() == h
    &&& odr.len() == h
    &&& odi.len() == h
    &&& is_dft(addp, subp, mulp, twp, evens_of(in_re), evens_of(in_im), er, ei)
    &&& is_dft(addp, subp, mulp, twp, odds_of(in_re), odds_of(in_im), odr, odi)
    &&& out_re.len() == 2 * h
    &&& out_im.len() == 2 * h
    &&& forall|k: int|
        0 <= k < h ==> bf_at(
            addp,
            subp,
            mulp,
            twp,
            2 * h,
            k,
            er[k],
            ei[k],
            odr[k],
            odi[k],
            #[trigger] out_re[k],
            out_im[k],
            out_re[k + h],
            out_im[k + h],
        )
}

/// Whether a twiddle oracle may be called on every (index, size) pair.
pub open spec fn total_tw<F: Fn(usize, usize) -> (u64, u64)>(f: F) -> bool {
    forall|k: usize, n: usize| #[trigger] f.requires((k, n))
}

/// The recursive Cooley–Tukey step: split by index parity, transform both
/// halves, combine with butterflies.
fn fft_rec<FA, FS, FM, FT>(
    re: &Vec<u64>,
    im: &Vec<u64>,
    fadd: &FA,
    fsub: &FS,
    fmul: &FM,
    ftw: &FT,
) -> (out: (Vec<u64>, Vec<u64>)) where
    FA: Fn(u64, u64) -> u64,
    FS: Fn(u64, u64) -> u64,
    FM: Fn(u64, u64) -> u64,
    FT: Fn(usize, usize) -> (u64, u64),

    requires
        re@.len() == im@.len(),
        is_pow2(re@.len() as nat),
        total2(*fadd),
        total2(*fsub),
        total2(*fmul),
        total_tw(*ftw),
    ensures
        out.0@.len() == re@.len(),
        out.1@.len() == re@.len(),
        is_dft(ens2(*fadd), ens2(*fsub), ens2(*fmul), enstw(*ftw), re@, im@, out.0@, out.1@),
    decreases re@.len(),
{
    let ghost addp = ens2(*fadd);
    let ghost subp = ens2(*fsub);
    let ghost mulp = ens2(*fmul);
    let ghost twp = enstw(*ftw);
    let n = re.len();
    if n <= 1 {
        let mut o_re: Vec<u64> = Vec::new();
        let mut o_im: Vec<u64> = Vec::new();
        if n == 1 {
            o_re.push(re[0]);
            o_im.push(im[0]);
        }
        proof {
            assert(o_re@ =~= re@);
            assert(o_im@ =~= im@);
        }
        return (o_re, o_im);
    }
    let half = n / 2;
    let mut ev_re: Vec<u64> = Vec::new();
    let mut ev_im: Vec<u64> = Vec::new();
    let mut od_re: Vec<u64> = Vec::new();
    let mut od_im: Vec<u64> = Vec::new();
    let mut i: usize = 0;
    while i < half
        invariant
            half == n / 2,
            n == re@.len(),
            n == im@.len(),
            n >= 2,
            n % 2 == 0,
            i <= half,
            ev_re@.len() == i,
            ev_im@.len() == i,
            od_re@.len() == i,
            od_im@.len() == i,
            forall|j: int| 0 <= j < i ==> #[trigger] ev_re@[j] == re@[2 * j],
            forall|j: int| 0 <= j < i ==> #[trigger] ev_im@[j] == im@[2 * j],
            forall|j: int| 0 <= j < i ==> #[trigger] od_re@[j] == re@[2 * j + 1],
            forall|j: int| 0 <= j < i ==> #[trigger] od_im@[j] == im@[2 * j + 1],
        decreases half - i,
    {
        ev_re.push(re[2 * i]);
        ev_im.push(im[2 * i]);
        od_re.push(re[2 * i + 1]);
        od_im.push(im[2 * i + 1]);
        i = i + 1;
    }
    proof {
        assert(ev_re@ =~= evens_of(re@));
        assert(ev_im@ =~= evens_of(im@));
        assert(od_re@ =~= odds_of(re@));
        assert(od_im@ =~= odds_of(im@));
        assert(is_pow2((n / 2) as nat));
    }
    let (er, ei) = fft_rec(&ev_re, &ev_im, fadd, fsub, fmul, ftw);
    let (odr, odi) = fft_rec(&od_re, &od_im, fadd, fsub, fmul, ftw);
    let mut top_re: Vec<u64> = Vec::new();
    let mut top_im: Vec<u64> = Vec::new();
    let mut bot_re: Vec<u64> = Vec::new();
    let mut bot_im: Vec<u64> = Vec::new();
    let mut k: usize = 0;
    while k < half
        invariant
            half == n / 2,
            n >= 2,
            k <= half,
            er@.len() == half,
            ei@.len() == half,
            odr@.len() == half,
            odi@.len() == half,
            top_re@.len() == k,
            top_im@.len() == k,
            bot_re@.len() == k,
            bot_im@.len() == k,
            total2(*fadd),
            total2(*fsub),
            total2(*fmul),
            total_tw(*ftw),
            addp == ens2(*fadd),
            subp == ens2(*fsub),
            mulp == ens2(*fmul),
            twp == enstw(*ftw),
            forall|j: int|
                0 <= j < k ==> bf_at(
                    addp,
                    subp,
                    mulp,
                    twp,
                    n as int,
                    j,
                    er@[j],
                    ei@[j],
                    odr@[j],
                    odi@[j],
                    #[trigger] top_re@[j],
                    top_im@[j],
                    bot_re@[j],
                    bot_im@[j],
                ),
        decreases half - k,
    {
        let (c, s) = ftw(k, n);
        let m1 = fmul(c, odr[k]);
        let m2 = fmul(s, odi[k]);
        let tr = fsub(m1, m2);
        let m3 = fmul(c, odi[k]);
        let m4 = fmul(s, odr[k]);
        let ti = fadd(m3, m4);
        let t0 = fadd(er[k], tr);
        let t1 = fadd(ei[k], ti);
        let b0 = fsub(er[k], tr);
        let b1 = fsub(ei[k], ti);
        top_re.push(t0);
        top_im.push(t1);
        bot_re.push(b0);
        bot_im.push(b1);
        proof {
            assert(twp(k as int, n as int, c, s));
            assert(mulp(c, odr@[k as int], m1));
            assert(mulp(s, odi@[k as int], m2));
            assert(subp(m1, m2, tr));
            assert(mulp(c, odi@[k as int], m3));
            assert(mulp(s, odr@[k as int], m4));
            assert(addp(m3, m4, ti));
            assert(addp(er@[k as int], tr, t0));
            assert(addp(ei@[k as int], ti, t1));
            assert(subp(er@[k as int], tr, b0));
            assert(subp(ei@[k as int], ti, b1));
            assert(bf_at(
                addp,
                subp,
                mulp,
                twp,
                n as int,
                k as int,
                er@[k as int],
                ei@[k as int],
                odr@[k as int],
                odi@[k as int],
                t0,
                t1,
                b0,
                b1,
            ));
        }
        k = k + 1;
    }
    let ghost topv_re = top_re@;
    let ghost topv_im = top_im@;
    let ghost botv_re = bot_re@;
    let ghost botv_im = bot_im@;
    let mut out_re = top_re;
    let mut out_im = top_im;
    out_re.append(&mut bot_re);
    out_im.append(&mut bot_im);
    proof {
        assert(out_re@ == topv_re + botv_re);
        assert(out_im@ == topv_im + botv_im);
        let h = n as int / 2;
        assert forall|j: int| 0 <= j < h implies bf_at(
            addp,
            subp,
            mulp,
            twp,
            2 * h,
            j,
            er@[j],
            ei@[j],
            odr@[j],
            odi@[j],
            #[trigger] out_re@[j],
            out_im@[j],
            out_re@[j + h],
            out_im@[j + h],
        ) by {
            assert(out_re@[j] == topv_re[j]);
            assert(out_im@[j] == topv_im[j]);
            assert(out_re@[j + h] == botv_re[j]);
            assert(out_im@[j + h] == botv_im[j]);
            assert(2 * h == n as int);
        }
        assert(is_dft(addp, subp, mulp, twp, evens_of(re@), evens_of(im@), er@, ei@));
        assert(is_dft(addp, subp, mulp, twp, odds_of(re@), odds_of(im@), odr@, odi@));
        assert(dft_combine(
            addp,
            subp,
            mulp,
            twp,
            re@,
            im@,
            out_re@,
            out_im@,
            er@,
            ei@,
            odr@,
            odi@,
        ));
        assert(dft_witness(er@, ei@, odr@, odi@));
        assert(is_dft(addp, subp, mulp, twp, re@, im@, out_re@, out_im@));
    }
    (out_re, out_im)
}

/// Forward transform of a real-valued buffer.
///
/// The length must be a power of two (1 is allowed); otherwise the call
/// fails with `InvalidFFTLength`. The imaginary input is all zeros; the
/// output interleaves the transform as [re0, im0, re1, im1, ...], so its
/// even-indexed and odd-indexed halves are a decimation-in-time transform
/// of the input under the supplied arithmetic.
pub fn fft<FA, FS, FM, FT>(
    input: &Vec<u64>,
    fadd: &FA,
    fsub: &FS,
    fmul: &FM,
    ftw: &FT,
) -> (r: Result<Vec<u64>, KernelError>) where
    FA: Fn(u64, u64) -> u64,
    FS: Fn(u64, u64) -> u64,
    FM: Fn(u64, u64) -> u64,
    FT: Fn(usize, usize) -> (u64, u64),

    requires
        total2(*fadd),
        total2(*fsub),
        total2(*fmul),
        total_tw(*ftw),
    ensures
        r is Ok <==> is_pow2(input@.len() as nat),
        !is_pow2(input@.len() as nat) ==> r == Err::<Vec<u64>, KernelError>(
            KernelError::InvalidFFTLength,
        ),
        r matches Ok(v) ==> v@.len() == 2 * input@.len() && is_dft(
            ens2(*fadd),
            ens2(*fsub),
            ens2(*fmul),
            enstw(*ftw),
            input@,
            zero_seq(input@.len() as nat),
            evens_of(v@),
            odds_of(v@),
        ),
{
    if !is_power_of_two(input.len()) {
        return Err(KernelError::InvalidFFTLength);
    }
    let n = input.len();
    let mut im: Vec<u64> = Vec::new();
    let mut i: usize = 0;
    while i < n
        invariant
            i <= n,
            im@.len() == i,
            forall|j: int| 0 <= j < i ==> #[trigger] im@[j] == 0u64,
        decreases n - i,
    {
        im.push(0u64);
        i = i + 1;
    }
    proof {
        assert(im@ =~= zero_seq(input@.len() as nat));
    }
    let (o_re, o_im) = fft_rec(input, &im, fadd, fsub, fmul, ftw);
    let mut out: Vec<u64> = Vec::new();
    let mut i: usize = 0;
    while i < n
        invariant
            i <= n,
            o_re@.len() == n,
            o_im@.len() == n,
            out@.len() == 2 * i,
            forall|j: int| 0 <= j < i ==> #[trigger] out@[2 * j] == o_re@[j],
            forall|j: int| 0 <= j < i ==> #[trigger] out@[2 * j + 1] == o_im@[j],
        decreases n - i,
    {
        out.push(o_re[i]);
        out.push(o_im[i]);
        i = i + 1;
    }
    proof {
        assert(evens_of(out@) =~= o_re@);
        assert(odds_of(out@) =~= o_im@);
    }
    Ok(out)
}

/// Inverse transform of an interleaved complex buffer of `n` values.
///
/// The buffer must have length exactly `2 * n` (else `LengthMismatch`) and
/// `n` must be a power of two (else `InvalidFFTLength`). The kernel
/// conjugates the imaginary parts (an exact sign-bit flip), runs the forward
/// transform, conjugates again and scales every value by 1/n; the scale is
/// obtained from the supplied division and integer-conversion functions as
/// 1.0 / n.
pub fn ifft<FA, FS, FM, FD, FC, FT>(
    input: &Vec<u64>,
    n: usize,
    fadd: &FA,
    fsub: &FS,
    fmul: &FM,
    fdiv: &FD,
    fcast: &FC,
    ftw: &FT,
) -> (r: Result<Vec<u64>, KernelError>) where
    FA: Fn(u64, u64) -> u64,
    FS: Fn(u64, u64) -> u64,
    FM: Fn(u64, u64) -> u64,
    FD: Fn(u64, u64) -> u64,
    FC: Fn(usize) -> u64,
    FT: Fn(usize, usize) -> (u64, u64),

    requires
        total2(*fadd),
        total2(*fsub),
        total2(*fmul),
        total2(*fdiv),
        forall|m: usize| #[trigger] fcast.requires((m,)),
        total_tw(*ftw),
    ensures
        r is Ok <==> (input@.len() == 2 * n && is_pow2(n as nat)),
        input@.len() != 2 * n ==> r == Err::<Vec<u64>, KernelError>(KernelError::LengthMismatch),
        input@.len() == 2 * n && !is_pow2(n as nat) ==> r == Err::<Vec<u64>, KernelError>(
            KernelError::InvalidFFTLength,
        ),
        r matches Ok(v) ==> v@.len() == 2 * n && exists|mr: Seq<u64>, mi: Seq<u64>, nb: u64, sc: u64|
            {
                &&& #[trigger] ifft_mid(mr, mi, nb, sc)
                &&& mr.len() == n
                &&& mi.len() == n
                &&& is_dft(
                    ens2(*fadd),
                    ens2(*fsub),
                    ens2(*fmul),
                    enstw(*ftw),
                    evens_of(input@),
                    conj_seq(odds_of(input@)),
                    mr,
                    mi,
                )
                &&& fcast.ensures((n,), nb)
                &&& fdiv.ensures((ONE_BITS, nb), sc)
                &&& forall|i: int|
                    0 <= i < n ==> fmul.ensures((mr[i], sc), #[trigger] v@[2 * i])
                        && fmul.ensures((conj_bits(mi[i]), sc), v@[2 * i + 1])
            },
{
    if input.len() % 2 != 0 || input.len() / 2 != n {
        return Err(KernelError::LengthMismatch);
    }
    if !is_power_of_two(n) {
        return Err(KernelError::InvalidFFTLength);
    }
    let mut re: Vec<u64> = Vec::new();
    let mut imc: Vec<u64> = Vec::new();
    let mut i: usize = 0;
    while i < n
        invariant
            i <= n,
            n <= usize::MAX / 2,
            input@.len() == 2 * n,
            re@.len() == i,
            imc@.len() == i,
            forall|j: int| 0 <= j < i ==> #[trigger] re@[j] == input@[2 * j],
            forall|j: int| 0 <= j < i ==> #[trigger] imc@[j] == conj_bits(input@[2 * j + 1]),
        decreases n - i,
    {
        re.push(input[2 * i]);
        imc.push(input[2 * i + 1] ^ SIGN_MASK);
        i = i + 1;
    }
    proof {
        assert(re@ =~= evens_of(input@));
        assert(imc@ =~= conj_seq(odds_of(input@)));
    }
    let (m_re, m_im) = fft_rec(&re, &imc, fadd, fsub, fmul, ftw);
    let nb = fcast(n);
    let sc = fdiv(ONE_BITS, nb);
    let mut out: Vec<u64> = Vec::new();
    let mut i: usize = 0;
    while i < n
        invariant
            i <= n,
            m_re@.len() == n,
            m_im@.len() == n,
            out@.len() == 2 * i,
            total2(*fmul),
            fcast.ensures((n,), nb),
            fdiv.ensures((ONE_BITS, nb), sc),
            forall|j: int| 0 <= j < i ==> fmul.ensures((m_re@[j], sc), #[trigger] out@[2 * j]),
            forall|j: int|
                0 <= j < i ==> fmul.ensures((conj_bits(m_im@[j]), sc), #[trigger] out@[2 * j + 1]),
        decreases n - i,
    {
        let v_re = fmul(m_re[i], sc);
        let v_im = fmul(m_im[i] ^ SIGN_MASK, sc);
        out.push(v_re);
        out.push(v_im);
        i = i + 1;
    }
    proof {
        assert(ifft_mid(m_re@, m_im@, nb, sc));
    }
    Ok(out)
}

/// A trivially true marker naming the mid-transform witnesses of `ifft`'s
/// contract; it serves as the matching pattern for the existential there.
pub open spec fn ifft_mid(mr: Seq<u64>, mi: Seq<u64>, nb: u64, sc: u64) -> bool {
    true
}

} // verus!

