//! Arithmetic in the M31 base field (integers modulo `2^31 - 1`) and in its
//! degree-4 extension, represented as four reduced base-field coordinates.
use vstd::prelude::*;
use vstd::arithmetic::div_mod::{
    lemma_small_mod, lemma_mod_sub_multiples_vanish, lemma_mod_add_multiples_vanish,
    lemma_add_mod_noop_right, lemma_mod_division_less_than_divisor,
};

verus! {

/// The M31 prime, `2^31 - 1`.
pub const P: u32 = 0x7fff_ffff;

/// A base-field element is stored fully reduced.
pub open spec fn fe_wf(x: u32) -> bool {
    x < P
}

pub open spec fn fadd(x: int, y: int) -> int {
    (x + y) % (P as int)
}

pub open spec fn fneg(x: int) -> int {
    (0 - x) % (P as int)
}

pub open spec fn fsub(x: int, y: int) -> int {
    (x - y) % (P as int)
}

pub open spec fn fmul(x: int, y: int) -> int {
    (x * y) % (P as int)
}

pub fn m31_add(x: u32, y: u32) -> (r: u32)
    requires
        fe_wf(x),
        fe_wf(y),
    ensures
        fe_wf(r),
        r == fadd(x as int, y as int),
{
    let s: u32 = x + y;
    if s >= P {
        proof {
            lemma_mod_sub_multiples_vanish(s as int, P as int);
            lemma_small_mod((s - P) as nat, P as nat);
        }
        s - P
    } else {
        proof {
            lemma_small_mod(s as nat, P as nat);
        }
        s
    }
}

pub fn m31_neg(x: u32) -> (r: u32)
    requires
        fe_wf(x),
    ensures
        fe_wf(r),
        r == fneg(x as int),
{
    if x == 0 {
        proof {
            lemma_small_mod(0nat, P as nat);
        }
        0
    } else {
        proof {
            lemma_mod_add_multiples_vanish(0 - x as int, P as int);
            lemma_small_mod((P - x) as nat, P as nat);
        }
        P - x
    }
}

pub fn m31_sub(x: u32, y: u32) -> (r: u32)
    requires
        fe_wf(x),
        fe_wf(y),
    ensures
        fe_wf(r),
        r == fsub(x as int, y as int),
{
    if x >= y {
        proof {
            lemma_small_mod((x - y) as nat, P as nat);
        }
        x - y
    } else {
        proof {
            lemma_mod_add_multiples_vanish(x as int - y as int, P as int);
            lemma_small_mod((x + P - y) as nat, P as nat);
        }
        x + P - y
    }
}

pub fn m31_mul(x: u32, y: u32) -> (r: u32)
    requires
        fe_wf(x),
        fe_wf(y),
    ensures
        fe_wf(r),
        r == fmul(x as int, y as int),
{
    proof {
        assert(x as u64 * y as u64 <= 0x7fff_fffe_u64 * 0x7fff_fffe_u64) by (nonlinear_arith)
            requires x < 0x7fff_ffff && y < 0x7fff_ffff;
        lemma_mod_division_less_than_divisor(x as int * y as int, P as int);
    }
    let prod: u64 = (x as u64) * (y as u64);
    (prod % (P as u64)) as u32
}

/// An element of the degree-4 extension field: the pair of complex-extension
/// coordinates `(a + b*i) + (c + d*i)*u`, each coordinate a reduced
/// base-field element.
#[derive(Clone, Copy, PartialEq, Eq, Structural, Debug)]
pub struct Qm31 {
    pub a: u32,
    pub b: u32,
    pub c: u32,
    pub d: u32,
}

pub open spec fn qm31_wf(x: Qm31) -> bool {
    fe_wf(x.a) && fe_wf(x.b) && fe_wf(x.c) && fe_wf(x.d)
}

pub open spec fn spec_qm31_zero() -> Qm31 {
    Qm31 { a: 0, b: 0, c: 0, d: 0 }
}

pub open spec fn spec_qm31_one() -> Qm31 {
    Qm31 { a: 1, b: 0, c: 0, d: 0 }
}

pub open spec fn spec_qadd(x: Qm31, y: Qm31) -> Qm31 {
    Qm31 {
        a: fadd(x.a as int, y.a as int) as u32,
        b: fadd(x.b as int, y.b as int) as u32,
        c: fadd(x.c as int, y.c as int) as u32,
        d: fadd(x.d as int, y.d as int) as u32,
    }
}

pub open spec fn spec_qsub(x: Qm31, y: Qm31) -> Qm31 {
    Qm31 {
        a: fsub(x.a as int, y.a as int) as u32,
        b: fsub(x.b as int, y.b as int) as u32,
        c: fsub(x.c as int, y.c as int) as u32,
        d: fsub(x.d as int, y.d as int) as u32,
    }
}

/// The product in the extension tower: with `x = (x0 + x1*u)` and
/// `y = (y0 + y1*u)` over the complex extension, `x * y` is
/// `(x0*y0 + (2+i)*x1*y1) + (x0*y1 + x1*y0)*u`, where complex products
/// follow `(a+bi)(c+di) = (ac - bd) + (ad + bc)i`.
pub open spec fn spec_qmul(x: Qm31, y: Qm31) -> Qm31 {
    let p0_re = fsub(fmul(x.a as int, y.a as int), fmul(x.b as int, y.b as int));
    let p0_im = fadd(fmul(x.a as int, y.b as int), fmul(x.b as int, y.a as int));
    let p1_re = fsub(fmul(x.c as int, y.c as int), fmul(x.d as int, y.d as int));
    let p1_im = fadd(fmul(x.c as int, y.d as int), fmul(x.d as int, y.c as int));
    // (2 + i) * (p1_re + p1_im * i) = (2*p1_re - p1_im) + (p1_re + 2*p1_im)*i
    let r_re = fsub(fadd(p1_re, p1_re), p1_im);
    let r_im = fadd(p1_re, fadd(p1_im, p1_im));
    let u_re = fadd(fsub(fmul(x.a as int, y.c as int), fmul(x.b as int, y.d as int)),
                    fsub(fmul(x.c as int, y.a as int), fmul(x.d as int, y.b as int)));
    let u_im = fadd(fadd(fmul(x.a as int, y.d as int), fmul(x.b as int, y.c as int)),
                    fadd(fmul(x.c as int, y.b as int), fmul(x.d as int, y.a as int)));
    Qm31 {
        a: fadd(p0_re, r_re) as u32,
        b: fadd(p0_im, r_im) as u32,
        c: u_re as u32,
        d: u_im as u32,
    }
}

/// Scalar product with a base-field element: every coordinate is scaled.
pub open spec fn spec_qmul_base(x: Qm31, m: u32) -> Qm31 {
    Qm31 {
        a: fmul(x.a as int, m as int) as u32,
        b: fmul(x.b as int, m as int) as u32,
        c: fmul(x.c as int, m as int) as u32,
        d: fmul(x.d as int, m as int) as u32,
    }
}

pub fn qm31_zero() -> (r: Qm31)
    ensures
        r == spec_qm31_zero(),
        qm31_wf(r),
{
    Qm31 { a: 0, b: 0, c: 0, d: 0 }
}

pub fn qm31_one() -> (r: Qm31)
    ensures
        r == spec_qm31_one(),
        qm31_wf(r),
{
    Qm31 { a: 1, b: 0, c: 0, d: 0 }
}

pub fn qm31_add(x: Qm31, y: Qm31) -> (r: Qm31)
    requires
        qm31_wf(x),
        qm31_wf(y),
    ensures
        qm31_wf(r),
        r == spec_qadd(x, y),
{
    Qm31 {
        a: m31_add(x.a, y.a),
        b: m31_add(x.b, y.b),
        c: m31_add(x.c, y.c),
        d: m31_add(x.d, y.d),
    }
}

pub fn qm31_sub(x: Qm31, y: Qm31) -> (r: Qm31)
    requires
        qm31_wf(x),
        qm31_wf(y),
    ensures
        qm31_wf(r),
        r == spec_qsub(x, y),
{
    Qm31 {
        a: m31_sub(x.a, y.a),
        b: m31_sub(x.b, y.b),
        c: m31_sub(x.c, y.c),
        d: m31_sub(x.d, y.d),
    }
}

pub fn qm31_mul(x: Qm31, y: Qm31) -> (r: Qm31)
    requires
        qm31_wf(x),
        qm31_wf(y),
    ensures
        qm31_wf(r),
        r == spec_qmul(x, y),
{
    let p0_re: u32 = m31_sub(m31_mul(x.a, y.a), m31_mul(x.b, y.b));
    let p0_im: u32 = m31_add(m31_mul(x.a, y.b), m31_mul(x.b, y.a));
    let p1_re: u32 = m31_sub(m31_mul(x.c, y.c), m31_mul(x.d, y.d));
    let p1_im: u32 = m31_add(m31_mul(x.c, y.d), m31_mul(x.d, y.c));
    let r_re: u32 = m31_sub(m31_add(p1_re, p1_re), p1_im);
    let r_im: u32 = m31_add(p1_re, m31_add(p1_im, p1_im));
    let u_re: u32 = m31_add(
        m31_sub(m31_mul(x.a, y.c), m31_mul(x.b, y.d)),
        m31_sub(m31_mul(x.c, y.a), m31_mul(x.d, y.b)),
    );
    let u_im: u32 = m31_add(
        m31_add(m31_mul(x.a, y.d), m31_mul(x.b, y.c)),
        m31_add(m31_mul(x.c, y.b), m31_mul(x.d, y.a)),
    );
    Qm31 { a: m31_add(p0_re, r_re), b: m31_add(p0_im, r_im), c: u_re, d: u_im }
}

pub fn qm31_mul_base(x: Qm31, m: u32) -> (r: Qm31)
    requires
        qm31_wf(x),
        fe_wf(m),
    ensures
        qm31_wf(r),
        r == spec_qmul_base(x, m),
{
    Qm31 {
        a: m31_mul(x.a, m),
        b: m31_mul(x.b, m),
        c: m31_mul(x.c, m),
        d: m31_mul(x.d, m),
    }
}

/// Addition commutes past an accumulator: `x + (y + v) == y + (x + v)`,
/// with no bound on the coordinates since every sum is reduced.
pub proof fn lemma_qadd_swap(x: Qm31, y: Qm31, v: Qm31)
    ensures
        spec_qadd(x, spec_qadd(y, v)) == spec_qadd(y, spec_qadd(x, v)),
{
    lemma_fadd_swap(x.a as int, y.a as int, v.a as int);
    lemma_fadd_swap(x.b as int, y.b as int, v.b as int);
    lemma_fadd_swap(x.c as int, y.c as int, v.c as int);
    lemma_fadd_swap(x.d as int, y.d as int, v.d as int);
}

proof fn lemma_fadd_swap(x: int, y: int, v: int)
    ensures
        fadd(x, fadd(y, v)) == fadd(y, fadd(x, v)),
{
    lemma_add_mod_noop_right(x, y + v, P as int);
    lemma_add_mod_noop_right(y, x + v, P as int);
}

/// Subtracting any element from itself yields zero.
pub proof fn lemma_qsub_self(x: Qm31)
    ensures
        spec_qsub(x, x) == spec_qm31_zero(),
{
    lemma_small_mod(0nat, P as nat);
}

} // verus!
