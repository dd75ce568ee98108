use memory_air::field::{qm31_zero, Qm31};
use memory_air::lookup::{
    combine_op, gen_fractions, lookup_gens_from_draw, recompute_claimed_sum,
};
use memory_air::mem_ops::{MemAirError, MemoryOp};
use memory_air::session::{
    draw_two_felts, new_channel, prove_interaction_phase, prove_trace_phase, verify_session,
};
use stwo_constraint_framework::logup::LookupElements;

fn scenario_ops() -> Vec<MemoryOp> {
    vec![
        MemoryOp::new(0, 1, 1, 0),
        MemoryOp::new(1, 2, 2, 1),
        MemoryOp::new(1, 3, 0, 2),
        MemoryOp::new(1, 3, 1, 3),
        MemoryOp::new(0, 2, 2, 4),
        MemoryOp::new(0, 1, 1, 5),
    ]
}

type M31 = stwo::core::fields::m31::M31;
type QM31 = stwo::core::fields::qm31::QM31;

fn to_stwo(x: Qm31) -> QM31 {
    QM31::from_u32_unchecked(x.a, x.b, x.c, x.d)
}

#[test]
fn drawn_gens_match_the_outside_lookup_elements() {
    // two channels with the same (empty) history must draw the same elements
    let mut ch = new_channel();
    let (z, alpha) = draw_two_felts(&mut ch);
    let gens = lookup_gens_from_draw(z, alpha);

    let mut ch2 = new_channel();
    let outside: LookupElements<4> = LookupElements::draw(&mut ch2);
    assert_eq!(to_stwo(gens.z), outside.z);
    assert_eq!(to_stwo(gens.a1), outside.alpha);
    assert_eq!(to_stwo(gens.a0), outside.alpha_powers[0]);
    assert_eq!(to_stwo(gens.a1), outside.alpha_powers[1]);
    assert_eq!(to_stwo(gens.a2), outside.alpha_powers[2]);
    assert_eq!(to_stwo(gens.a3), outside.alpha_powers[3]);
}

#[test]
fn combine_matches_the_outside_relation() {
    let mut ch = new_channel();
    let (z, alpha) = draw_two_felts(&mut ch);
    let gens = lookup_gens_from_draw(z, alpha);
    let mut ch2 = new_channel();
    let outside: LookupElements<4> = LookupElements::draw(&mut ch2);

    let op = MemoryOp::new(1, 3, 0, 2);
    let mine = combine_op(&gens, &op);
    let vals = [
        M31::from_u32_unchecked(op.rw_flag),
        M31::from_u32_unchecked(op.addr),
        M31::from_u32_unchecked(op.value),
        M31::from_u32_unchecked(op.counter),
    ];
    let theirs: QM31 = outside.combine(&vals);
    assert_eq!(to_stwo(mine), theirs);
}

#[test]
fn claimed_sum_is_zero_for_honest_views() {
    let views = prove_trace_phase(&scenario_ops(), 4).unwrap();
    let mut ch = new_channel();
    let (z, alpha) = draw_two_felts(&mut ch);
    let gens = lookup_gens_from_draw(z, alpha);
    let total = recompute_claimed_sum(&gens, &views.padded, &views.sorted).unwrap();
    assert_eq!(total, qm31_zero());
}

#[test]
fn claimed_sum_is_nonzero_for_tampered_views() {
    let views = prove_trace_phase(&scenario_ops(), 4).unwrap();
    let mut tampered = views.padded.clone();
    // change one read's value in the execution view only: the two views no
    // longer hold the same multiset of rows
    assert_eq!(tampered[4], MemoryOp::new(0, 2, 2, 4));
    tampered[4] = MemoryOp::new(0, 2, 3, 4);
    let mut ch = new_channel();
    let (z, alpha) = draw_two_felts(&mut ch);
    let gens = lookup_gens_from_draw(z, alpha);
    let total = recompute_claimed_sum(&gens, &tampered, &views.sorted).unwrap();
    assert_ne!(total, qm31_zero());
    // a proof declaring that sum is rejected before any low-degree check
    let digests = vec![vec![0u8; 32], vec![0u8; 32], vec![0u8; 32]];
    assert_eq!(
        verify_session(&digests, total, 4).map(|_| ()),
        Err(MemAirError::NonZeroClaimedSum)
    );
}

#[test]
fn fractions_follow_the_per_row_formula() {
    let views = prove_trace_phase(&scenario_ops(), 4).unwrap();
    let mut ch = new_channel();
    let (z, alpha) = draw_two_felts(&mut ch);
    let data = prove_interaction_phase(&views, z, alpha).unwrap();
    assert_eq!(data.nums.len(), 16);
    assert_eq!(data.dens.len(), 16);
    for i in 0..16 {
        let d0 = to_stwo(combine_op(&data.gens, &views.padded[i]));
        let d1 = to_stwo(combine_op(&data.gens, &views.sorted[i]));
        assert_eq!(to_stwo(data.nums[i]), d1 - d0);
        assert_eq!(to_stwo(data.dens[i]), d1 * d0);
    }
}

#[test]
fn degenerate_lookup_elements_are_rejected() {
    let views = prove_trace_phase(&scenario_ops(), 4).unwrap();
    // with z = 0 and alpha = 0 every read row combines to zero
    let zero = Qm31 { a: 0, b: 0, c: 0, d: 0 };
    match prove_interaction_phase(&views, zero, zero) {
        Err(e) => assert_eq!(e, MemAirError::DegenerateLookup),
        Ok(_) => panic!("zero lookup elements must be degenerate here"),
    }
    let gens = lookup_gens_from_draw(zero, zero);
    match gen_fractions(&gens, &views.padded, &views.sorted) {
        Err(e) => assert_eq!(e, MemAirError::DegenerateLookup),
        Ok(_) => panic!("zero lookup elements must be degenerate here"),
    }
    assert_eq!(
        recompute_claimed_sum(&gens, &views.padded, &views.sorted).unwrap_err(),
        MemAirError::DegenerateLookup
    );
}
