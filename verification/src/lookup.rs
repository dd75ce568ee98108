//! The logarithmic-derivative lookup argument: random linear combination of
//! trace rows, per-row fractions for the interaction column, and the claimed
//! sum that is zero exactly when the two trace views hold the same multiset
//! of rows.
use vstd::prelude::*;
use vstd::seq_lib::{commutative_foldr, lemma_fold_right_permutation};
use crate::field::{
    Qm31, qm31_wf, spec_qm31_zero, spec_qm31_one, spec_qadd, spec_qsub, spec_qmul,
    spec_qmul_base, qm31_zero, qm31_one, qm31_add, qm31_sub, qm31_mul, qm31_mul_base,
    lemma_qadd_swap, lemma_qsub_self,
};
use crate::mem_ops::{MemoryOp, MemAirError, all_ops_wf};

verus! {

/// The pseudo-random linear-combination coefficients drawn from the channel
/// after both trace views are committed: a shift `z` and the first four
/// powers of `alpha`, one per trace column.
#[derive(Clone, Copy, PartialEq, Eq, Structural, Debug)]
pub struct LookupGens {
    pub z: Qm31,
    pub a0: Qm31,
    pub a1: Qm31,
    pub a2: Qm31,
    pub a3: Qm31,
}

pub open spec fn gens_wf(g: LookupGens) -> bool {
    qm31_wf(g.z) && qm31_wf(g.a0) && qm31_wf(g.a1) && qm31_wf(g.a2) && qm31_wf(g.a3)
}

/// The powers of `alpha` as the channel-drawing side computes them: start at
/// one and multiply once per column.
pub open spec fn spec_lookup_gens(z: Qm31, alpha: Qm31) -> LookupGens {
    let a0 = spec_qm31_one();
    let a1 = spec_qmul(alpha, a0);
    let a2 = spec_qmul(alpha, a1);
    let a3 = spec_qmul(alpha, a2);
    LookupGens { z, a0, a1, a2, a3 }
}

pub fn lookup_gens_from_draw(z: Qm31, alpha: Qm31) -> (r: LookupGens)
    requires
        qm31_wf(z),
        qm31_wf(alpha),
    ensures
        r == spec_lookup_gens(z, alpha),
        gens_wf(r),
{
    let a0 = qm31_one();
    let a1 = qm31_mul(alpha, a0);
    let a2 = qm31_mul(alpha, a1);
    let a3 = qm31_mul(alpha, a2);
    LookupGens { z, a0, a1, a2, a3 }
}

/// The random linear combination of one row's four fields:
/// `a0*rw_flag + a1*addr + a2*value + a3*counter - z`.
pub open spec fn spec_combine(g: LookupGens, op: MemoryOp) -> Qm31 {
    spec_qsub(
        spec_qadd(
            spec_qadd(
                spec_qadd(spec_qmul_base(g.a0, op.rw_flag), spec_qmul_base(g.a1, op.addr)),
                spec_qmul_base(g.a2, op.value),
            ),
            spec_qmul_base(g.a3, op.counter),
        ),
        g.z,
    )
}

pub fn combine_op(g: &LookupGens, op: &MemoryOp) -> (r: Qm31)
    requires
        gens_wf(*g),
        crate::mem_ops::op_wf(*op),
    ensures
        qm31_wf(r),
        r == spec_combine(*g, *op),
{
    let mut acc = qm31_mul_base(g.a0, op.rw_flag);
    acc = qm31_add(acc, qm31_mul_base(g.a1, op.addr));
    acc = qm31_add(acc, qm31_mul_base(g.a2, op.value));
    acc = qm31_add(acc, qm31_mul_base(g.a3, op.counter));
    qm31_sub(acc, g.z)
}

/// Whether some row of either view combines to the additive identity under
/// these lookup elements; such a collision makes the fractions undefined.
pub open spec fn has_zero_denom(g: LookupGens, e: Seq<MemoryOp>, s: Seq<MemoryOp>) -> bool {
    (exists|i: int| 0 <= i < e.len() && spec_combine(g, #[trigger] e[i]) == spec_qm31_zero())
    || (exists|i: int| 0 <= i < s.len() && spec_combine(g, #[trigger] s[i]) == spec_qm31_zero())
}

/// The per-row fraction written into the interaction column for rows `e[i]`
/// (execution view) and `s[i]` (sorted view): with `d0 = combine(e[i])` and
/// `d1 = combine(s[i])`, the fraction `1/d0 - 1/d1` as the single pair
/// `(d1 - d0, d1 * d0)`.
pub open spec fn spec_frac_num(g: LookupGens, eop: MemoryOp, sop: MemoryOp) -> Qm31 {
    spec_qsub(spec_combine(g, sop), spec_combine(g, eop))
}

pub open spec fn spec_frac_den(g: LookupGens, eop: MemoryOp, sop: MemoryOp) -> Qm31 {
    spec_qmul(spec_combine(g, sop), spec_combine(g, eop))
}

/// Computes the per-row numerators and denominators of the interaction
/// column, or reports the degenerate-randomness error when a combination
/// collides with the additive identity.
#[verifier::rlimit(80)]
#[verifier::spinoff_prover]
pub fn gen_fractions(g: &LookupGens, e: &Vec<MemoryOp>, s: &Vec<MemoryOp>) -> (r: Result<
    (Vec<Qm31>, Vec<Qm31>),
    MemAirError,
>)
    requires
        gens_wf(*g),
        e@.len() == s@.len(),
        all_ops_wf(e@),
        all_ops_wf(s@),
    ensures
        r is Err <==> has_zero_denom(*g, e@, s@),
        r is Err ==> r == Err::<(Vec<Qm31>, Vec<Qm31>), MemAirError>(MemAirError::DegenerateLookup),
        r is Ok ==> {
            let (nums, dens) = r.unwrap();
            &&& nums@.len() == e@.len()
            &&& dens@.len() == e@.len()
            &&& forall|i: int|
                0 <= i < e@.len() ==> #[trigger] nums@[i] == spec_frac_num(*g, e@[i], s@[i])
                    && dens@[i] == spec_frac_den(*g, e@[i], s@[i])
            &&& forall|i: int| 0 <= i < e@.len() ==> qm31_wf(#[trigger] nums@[i]) && qm31_wf(
                dens@[i],
            )
        },
{
    let mut nums: Vec<Qm31> = Vec::new();
    let mut dens: Vec<Qm31> = Vec::new();
    let zero = qm31_zero();
    let mut i: usize = 0;
    while i < e.len()
        invariant
            i <= e@.len(),
            e@.len() == s@.len(),
            gens_wf(*g),
            all_ops_wf(e@),
            all_ops_wf(s@),
            zero == spec_qm31_zero(),
            nums@.len() == i,
            dens@.len() == i,
            forall|k: int|
                0 <= k < i ==> #[trigger] nums@[k] == spec_frac_num(*g, e@[k], s@[k])
                    && dens@[k] == spec_frac_den(*g, e@[k], s@[k]),
            forall|k: int| 0 <= k < i ==> qm31_wf(#[trigger] nums@[k]),
            forall|k: int| 0 <= k < i ==> qm31_wf(#[trigger] dens@[k]),
            forall|k: int| 0 <= k < i ==> spec_combine(*g, #[trigger] e@[k]) != spec_qm31_zero(),
            forall|k: int| 0 <= k < i ==> spec_combine(*g, #[trigger] s@[k]) != spec_qm31_zero(),
        decreases e@.len() - i,
    {
        let ghost nu = nums@;
        let ghost de = dens@;
        let d0 = combine_op(g, &e[i]);
        let d1 = combine_op(g, &s[i]);
        if d0 == zero || d1 == zero {
            proof {
                assert(spec_combine(*g, e@[i as int]) == spec_qm31_zero() || spec_combine(
                    *g,
                    s@[i as int],
                ) == spec_qm31_zero());
            }
            return Err(MemAirError::DegenerateLookup);
        }
        proof {
            assert(spec_combine(*g, e@[i as int]) != spec_qm31_zero());
            assert(spec_combine(*g, s@[i as int]) != spec_qm31_zero());
        }
        nums.push(qm31_sub(d1, d0));
        dens.push(qm31_mul(d1, d0));
        proof {
            assert(nums@ =~= nu.push(spec_frac_num(*g, e@[i as int], s@[i as int])));
            assert(dens@ =~= de.push(spec_frac_den(*g, e@[i as int], s@[i as int])));
            assert forall|k: int| 0 <= k < i + 1 implies qm31_wf(#[trigger] nums@[k]) by {
                if k < i {
                    assert(nums@[k] == nu[k]);
                    assert(qm31_wf(nu[k]));
                }
            }
            assert forall|k: int| 0 <= k < i + 1 implies qm31_wf(#[trigger] dens@[k]) by {
                if k < i {
                    assert(dens@[k] == de[k]);
                    assert(qm31_wf(de[k]));
                }
            }
        }
        i += 1;
    }
    Ok((nums, dens))
}

/// The inverse of what an execution row combines to under the drawn lookup
/// elements; the claimed sum is a signed sum of such terms.
pub open spec fn spec_inv_term(g: LookupGens, op: MemoryOp) -> Qm31 {
    qm31_inv_of(spec_combine(g, op))
}

/// The sum over all rows of the inverted combinations, front to back.
pub open spec fn spec_sum_inv(g: LookupGens, rows: Seq<MemoryOp>) -> Qm31
    decreases rows.len(),
{
    if rows.len() == 0 {
        spec_qm31_zero()
    } else {
        spec_qadd(spec_inv_term(g, rows[0]), spec_sum_inv(g, rows.drop_first()))
    }
}

/// The total lookup balance of the two views: the sum of `1/combine(row)`
/// over the execution view minus the same sum over the sorted view.
pub open spec fn spec_claimed_sum(g: LookupGens, e: Seq<MemoryOp>, s: Seq<MemoryOp>) -> Qm31 {
    spec_qsub(spec_sum_inv(g, e), spec_sum_inv(g, s))
}

/// The multiplicative inverse as the outside field computes it: named, not
/// written out, and given meaning only through `qm31_inverse` below.
pub uninterp spec fn qm31_inv_of(x: Qm31) -> Qm31;

/// Relies on stwo's `QM31::inverse`: the multiplicative inverse of a nonzero
/// extension-field element, returned reduced, a function of that element
/// alone.
#[verifier::external_body]
fn qm31_inverse(x: &Qm31) -> (r: Qm31)
    requires
        qm31_wf(*x),
        *x != spec_qm31_zero(),
    ensures
        qm31_wf(r),
        r == qm31_inv_of(*x),
        spec_qmul(*x, r) == spec_qm31_one(),
{
    let v = stwo::core::fields::qm31::QM31::from_u32_unchecked(x.a, x.b, x.c, x.d);
    let inv = stwo::core::fields::FieldExpOps::inverse(&v);
    let arr = inv.to_m31_array();
    Qm31 { a: arr[0].0, b: arr[1].0, c: arr[2].0, d: arr[3].0 }
}

fn sum_inv_rows(g: &LookupGens, rows: &Vec<MemoryOp>) -> (r: Result<Qm31, MemAirError>)
    requires
        gens_wf(*g),
        all_ops_wf(rows@),
    ensures
        r is Err <==> exists|i: int|
            0 <= i < rows@.len() && spec_combine(*g, #[trigger] rows@[i]) == spec_qm31_zero(),
        r is Err ==> r == Err::<Qm31, MemAirError>(MemAirError::DegenerateLookup),
        r is Ok ==> r.unwrap() == spec_sum_inv(*g, rows@) && qm31_wf(r.unwrap()),
{
    let zero = qm31_zero();
    let mut acc = qm31_zero();
    let mut i: usize = rows.len();
    // first pass: reject any zero denominator so the error does not depend
    // on the summation order
    let mut j: usize = 0;
    while j < rows.len()
        invariant
            j <= rows@.len(),
            gens_wf(*g),
            all_ops_wf(rows@),
            zero == spec_qm31_zero(),
            forall|k: int|
                0 <= k < j ==> spec_combine(*g, #[trigger] rows@[k]) != spec_qm31_zero(),
        decreases rows@.len() - j,
    {
        let d = combine_op(g, &rows[j]);
        if d == zero {
            return Err(MemAirError::DegenerateLookup);
        }
        j += 1;
    }
    while i > 0
        invariant
            i <= rows@.len(),
            gens_wf(*g),
            all_ops_wf(rows@),
            forall|k: int|
                0 <= k < rows@.len() ==> spec_combine(*g, #[trigger] rows@[k])
                    != spec_qm31_zero(),
            qm31_wf(acc),
            acc == spec_sum_inv(*g, rows@.subrange(i as int, rows@.len() as int)),
        decreases i,
    {
        i -= 1;
        let d = combine_op(g, &rows[i]);
        let t = qm31_inverse(&d);
        acc = qm31_add(t, acc);
        proof {
            let tail = rows@.subrange(i as int, rows@.len() as int);
            assert(tail.drop_first() =~= rows@.subrange(i as int + 1, rows@.len() as int));
            assert(tail[0] == rows@[i as int]);
        }
    }
    proof {
        assert(rows@.subrange(0, rows@.len() as int) =~= rows@);
    }
    Ok(acc)
}

/// Recomputes, independently of the committed interaction column, the total
/// claimed sum of the lookup argument from the two trace views and the drawn
/// lookup elements.
#[verifier::rlimit(50)]
pub fn recompute_claimed_sum(g: &LookupGens, e: &Vec<MemoryOp>, s: &Vec<MemoryOp>) -> (r: Result<
    Qm31,
    MemAirError,
>)
    requires
        gens_wf(*g),
        e@.len() == s@.len(),
        all_ops_wf(e@),
        all_ops_wf(s@),
    ensures
        r is Err <==> has_zero_denom(*g, e@, s@),
        r is Err ==> r == Err::<Qm31, MemAirError>(MemAirError::DegenerateLookup),
        r is Ok ==> r.unwrap() == spec_claimed_sum(*g, e@, s@),
{
    let se = match sum_inv_rows(g, e) {
        Ok(v) => v,
        Err(err) => {
            return Err(err);
        },
    };
    let ss = match sum_inv_rows(g, s) {
        Ok(v) => v,
        Err(err) => {
            return Err(err);
        },
    };
    Ok(qm31_sub(se, ss))
}

proof fn lemma_sum_inv_as_fold(g: LookupGens, rows: Seq<MemoryOp>, f: spec_fn(MemoryOp, Qm31) -> Qm31)
    requires
        forall|op: MemoryOp, acc: Qm31| #[trigger] f(op, acc) == spec_qadd(
            spec_inv_term(g, op),
            acc,
        ),
    ensures
        spec_sum_inv(g, rows) == rows.fold_right_alt(f, spec_qm31_zero()),
    decreases rows.len(),
{
    if rows.len() == 0 {
    } else {
        lemma_sum_inv_as_fold(g, rows.subrange(1, rows.len() as int), f);
        assert(rows.drop_first() =~= rows.subrange(1, rows.len() as int));
    }
}

/// The claimed-sum zero law: whenever the sorted view holds exactly the same
/// multiset of rows as the execution view, the claimed sum of the lookup
/// argument is exactly zero, whatever lookup elements were drawn.
pub proof fn lemma_claimed_sum_zero(g: LookupGens, e: Seq<MemoryOp>, s: Seq<MemoryOp>)
    requires
        e.to_multiset() == s.to_multiset(),
    ensures
        spec_claimed_sum(g, e, s) == spec_qm31_zero(),
{
    let f = |op: MemoryOp, acc: Qm31| spec_qadd(spec_inv_term(g, op), acc);
    assert forall|x: MemoryOp, y: MemoryOp, v: Qm31| #[trigger] f(x, f(y, v)) == f(
        y,
        f(x, v),
    ) by {
        lemma_qadd_swap(spec_inv_term(g, x), spec_inv_term(g, y), v);
    }
    assert(commutative_foldr(f));
    lemma_sum_inv_as_fold(g, e, f);
    lemma_sum_inv_as_fold(g, s, f);
    e.lemma_fold_right_alt(f, spec_qm31_zero());
    s.lemma_fold_right_alt(f, spec_qm31_zero());
    lemma_fold_right_permutation(e, s, f, spec_qm31_zero());
    lemma_qsub_self(spec_sum_inv(g, e));
}

} // verus!
