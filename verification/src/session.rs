//! The protocol orchestration. The prover builds both trace views, commits
//! them, draws the lookup elements only afterwards, and commits the
//! interaction column; the verifier replays the same absorption sequence
//! from the digests carried in the proof, re-derives the lookup elements,
//! and rejects any proof whose declared claimed sum is not zero. The
//! Fiat-Shamir channel and the commitment-scheme verifier are outside
//! collaborators reached through trusted declarations; every decision
//! between the calls is verified code.
use vstd::prelude::*;
use crate::field::{Qm31, qm31_wf, spec_qm31_zero, qm31_zero};
use crate::mem_ops::{
    MemoryOp, MemAirError, all_ops_wf, sorted_by_key, spec_padded, pad_ops, sort_ops,
};
use crate::lookup::{
    LookupGens, gens_wf, lookup_gens_from_draw, gen_fractions, has_zero_denom, spec_frac_num,
    spec_frac_den, spec_lookup_gens,
};

verus! {

/// The Fiat-Shamir channel both sides of the protocol share.
pub type ProofChannel = stwo::core::channel::Blake2sChannelGeneric<false>;

/// The Merkle channel binding commitment digests to the Fiat-Shamir channel.
pub type ProofMerkleChannel = stwo::core::vcs_lifted::blake2_merkle::Blake2sMerkleChannelGeneric<
    false,
>;

#[verifier::external_type_specification]
#[verifier::external_body]
pub struct ExPcsConfig(stwo::core::pcs::PcsConfig);

#[verifier::external_type_specification]
#[verifier::external_body]
pub struct ExBlake2sChannelGeneric<const IS_M31_OUTPUT: bool>(
    stwo::core::channel::Blake2sChannelGeneric<IS_M31_OUTPUT>,
);

#[verifier::external_type_specification]
#[verifier::external_body]
pub struct ExBlake2sMerkleChannelGeneric<const IS_M31_OUTPUT: bool>(
    stwo::core::vcs_lifted::blake2_merkle::Blake2sMerkleChannelGeneric<IS_M31_OUTPUT>,
);

/// The verifier-side commitment scheme, held opaquely: Verus refuses the
/// declaration of the outside type itself over its merkle-channel parameter.
/// The inner value is reachable by the unverified caller that runs the final
/// low-degree check.
#[verifier::external_body]
pub struct SchemeVerifier {
    pub inner: stwo::core::pcs::CommitmentSchemeVerifier<ProofMerkleChannel>,
}

/// Relies on `Blake2sChannel::default`: a fresh Fiat-Shamir channel with an
/// empty absorption history. Each proof attempt must use its own.
#[verifier::external_body]
pub fn new_channel() -> ProofChannel {
    <ProofChannel as Default>::default()
}

/// Relies on `Channel::draw_secure_felts`: two extension-field elements
/// derived deterministically from the absorption history, returned with
/// reduced coordinates.
#[verifier::external_body]
pub fn draw_two_felts(channel: &mut ProofChannel) -> (r: (Qm31, Qm31))
    ensures
        qm31_wf(r.0),
        qm31_wf(r.1),
{
    let felts = stwo::core::channel::Channel::draw_secure_felts(channel, 2);
    let a = felts[0].to_m31_array();
    let b = felts[1].to_m31_array();
    (
        Qm31 { a: a[0].0, b: a[1].0, c: a[2].0, d: a[3].0 },
        Qm31 { a: b[0].0, b: b[1].0, c: b[2].0, d: b[3].0 },
    )
}

/// Relies on `CommitmentSchemeVerifier::commit`: absorbs one prover digest
/// (32 bytes) together with the expected column log-sizes into the channel.
/// The size bound keeps the blow-up addition inside the call in range.
#[verifier::external_body]
fn verifier_commit(
    scheme: &mut SchemeVerifier,
    channel: &mut ProofChannel,
    digest: &Vec<u8>,
    log_sizes: &Vec<u32>,
)
    requires
        digest@.len() == 32,
        forall|i: int| 0 <= i < log_sizes@.len() ==> log_sizes@[i] <= 30,
{
    let mut bytes = [0u8; 32];
    bytes.copy_from_slice(digest);
    let hash = stwo::core::vcs::blake2_hash::Blake2sHash(bytes);
    scheme.inner.commit(hash, log_sizes, channel);
}

/// The pair of extension-field elements a fresh channel yields after
/// absorbing exactly two commitment digests, in order. The Blake2s channel
/// is deterministic in the absorbed data alone, so the pair is a function of
/// the two digests and of nothing else.
pub uninterp spec fn session_draw_of(d0: Seq<u8>, d1: Seq<u8>) -> (Qm31, Qm31);

/// Relies on `Blake2sChannel::default`, `CommitmentSchemeVerifier::new` and
/// `commit`, and `Channel::draw_secure_felts`: a fresh channel and scheme
/// absorb the two digests in order (each commit mixes exactly the digest
/// into the channel), and the pair then drawn is deterministic in those two
/// digests alone, with reduced coordinates.
#[verifier::external_body]
fn open_session(d0: &Vec<u8>, sizes0: &Vec<u32>, d1: &Vec<u8>, sizes1: &Vec<u32>) -> (r: (
    ProofChannel,
    SchemeVerifier,
    Qm31,
    Qm31,
))
    requires
        d0@.len() == 32,
        d1@.len() == 32,
        forall|i: int| 0 <= i < sizes0@.len() ==> sizes0@[i] <= 30,
        forall|i: int| 0 <= i < sizes1@.len() ==> sizes1@[i] <= 30,
    ensures
        qm31_wf(r.2),
        qm31_wf(r.3),
        (r.2, r.3) == session_draw_of(d0@, d1@),
{
    let mut channel = <ProofChannel as Default>::default();
    let mut scheme = SchemeVerifier {
        inner: stwo::core::pcs::CommitmentSchemeVerifier::new(
            stwo::core::pcs::PcsConfig::default(),
        ),
    };
    verifier_commit(&mut scheme, &mut channel, d0, sizes0);
    verifier_commit(&mut scheme, &mut channel, d1, sizes1);
    let (z, alpha) = draw_two_felts(&mut channel);
    (channel, scheme, z, alpha)
}

/// The number of base-field columns committed in the trace phase: four per
/// view of the operation list.
pub fn trace_column_count() -> (r: usize)
    ensures
        r == 8,
{
    8
}

/// The number of base-field columns committed in the interaction phase: one
/// per coordinate of the extension field.
pub fn interaction_column_count() -> (r: usize)
    ensures
        r == 4,
{
    4
}

/// The degree bound the constraint evaluator reports to the low-degree proof
/// system: one above the trace's log-size, for the products introduced by
/// the pair-batched fractions.
pub fn max_constraint_log_degree_bound(log_size: u32) -> (r: u32)
    requires
        log_size <= 30,
    ensures
        r == log_size + 1,
{
    log_size + 1
}

/// The two views of one padded operation list: the execution order and the
/// address-then-counter order, holding the same multiset of rows.
pub struct TraceViews {
    /// The execution-order view, padded with inert reads.
    pub padded: Vec<MemoryOp>,
    /// The sorted view: a row permutation of `padded`.
    pub sorted: Vec<MemoryOp>,
}

/// The first prover phase: pads the operations to `2^log_size` rows and
/// builds the sorted view. The sorted view holds exactly the same multiset
/// of rows as the padded execution view — the relation the lookup argument
/// then proves — and is sorted by address, then counter.
pub fn prove_trace_phase(ops: &Vec<MemoryOp>, log_size: u32) -> (r: Result<
    TraceViews,
    MemAirError,
>)
    requires
        4 <= log_size <= 28,
        all_ops_wf(ops@),
    ensures
        r is Err <==> ops@.len() > (1u32 << log_size),
        r is Err ==> r == Err::<TraceViews, MemAirError>(MemAirError::TooManyOps),
        r is Ok ==> {
            let v = r.unwrap();
            &&& v.padded@ == spec_padded(ops@, (1u32 << log_size) as nat)
            &&& v.padded@.len() == (1u32 << log_size)
            &&& v.sorted@.to_multiset() == v.padded@.to_multiset()
            &&& v.sorted@.len() == v.padded@.len()
            &&& sorted_by_key(v.sorted@)
            &&& all_ops_wf(v.padded@)
            &&& all_ops_wf(v.sorted@)
        },
{
    let padded = match pad_ops(ops, log_size) {
        Ok(v) => v,
        Err(e) => {
            return Err(e);
        },
    };
    let sorted = sort_ops(&padded);
    proof {
        crate::mem_ops::lemma_wf_transfer(padded@, sorted@);
    }
    Ok(TraceViews { padded, sorted })
}

/// Extracts the per-row column values of one trace view, in row order:
/// rw_flag, addr, value, counter.
pub fn trace_columns(rows: &Vec<MemoryOp>) -> (r: Vec<Vec<u32>>)
    ensures
        r@.len() == 4,
        forall|c: int| 0 <= c < 4 ==> (#[trigger] r@[c])@.len() == rows@.len(),
        forall|j: int|
            0 <= j < rows@.len() ==> r@[0]@[j] == (#[trigger] rows@[j]).rw_flag && r@[1]@[j]
                == rows@[j].addr && r@[2]@[j] == rows@[j].value && r@[3]@[j] == rows@[j].counter,
{
    let mut flags: Vec<u32> = Vec::new();
    let mut addrs: Vec<u32> = Vec::new();
    let mut values: Vec<u32> = Vec::new();
    let mut counters: Vec<u32> = Vec::new();
    let mut i: usize = 0;
    while i < rows.len()
        invariant
            i <= rows@.len(),
            flags@.len() == i,
            addrs@.len() == i,
            values@.len() == i,
            counters@.len() == i,
            forall|j: int|
                0 <= j < i ==> flags@[j] == (#[trigger] rows@[j]).rw_flag && addrs@[j]
                    == rows@[j].addr && values@[j] == rows@[j].value && counters@[j]
                    == rows@[j].counter,
        decreases rows@.len() - i,
    {
        flags.push(rows[i].rw_flag);
        addrs.push(rows[i].addr);
        values.push(rows[i].value);
        counters.push(rows[i].counter);
        i += 1;
    }
    let mut r: Vec<Vec<u32>> = Vec::new();
    r.push(flags);
    r.push(addrs);
    r.push(values);
    r.push(counters);
    r
}

/// The interaction column's numerators and denominators together with the
/// lookup elements they were computed from.
pub struct InteractionData {
    pub gens: LookupGens,
    pub nums: Vec<Qm31>,
    pub dens: Vec<Qm31>,
}

/// The second prover phase, run only after both trace views are committed
/// and `z`, `alpha` were drawn from the channel: computes the per-row
/// fractions of the interaction column. Fails with the degenerate-randomness
/// error exactly when some row combines to the additive identity; the caller
/// must then restart the whole attempt with a fresh channel.
pub fn prove_interaction_phase(views: &TraceViews, z: Qm31, alpha: Qm31) -> (r: Result<
    InteractionData,
    MemAirError,
>)
    requires
        qm31_wf(z),
        qm31_wf(alpha),
        views.padded@.len() == views.sorted@.len(),
        all_ops_wf(views.padded@),
        all_ops_wf(views.sorted@),
    ensures
        r is Err <==> has_zero_denom(spec_lookup_gens(z, alpha), views.padded@, views.sorted@),
        r is Err ==> r == Err::<InteractionData, MemAirError>(MemAirError::DegenerateLookup),
        r is Ok ==> {
            let d = r.unwrap();
            &&& d.gens == spec_lookup_gens(z, alpha)
            &&& d.nums@.len() == views.padded@.len()
            &&& d.dens@.len() == views.padded@.len()
            &&& forall|i: int|
                0 <= i < views.padded@.len() ==> #[trigger] d.nums@[i] == spec_frac_num(
                    d.gens,
                    views.padded@[i],
                    views.sorted@[i],
                ) && d.dens@[i] == spec_frac_den(d.gens, views.padded@[i], views.sorted@[i])
        },
{
    let gens = lookup_gens_from_draw(z, alpha);
    match gen_fractions(&gens, &views.padded, &views.sorted) {
        Ok((nums, dens)) => Ok(InteractionData { gens, nums, dens }),
        Err(e) => Err(e),
    }
}

/// The column log-size metadata the component expects of each commitment
/// phase: none preprocessed, eight trace columns, four interaction columns.
pub fn expected_log_sizes(log_size: u32, phase: usize) -> (r: Vec<u32>)
    requires
        phase <= 2,
    ensures
        phase == 0 ==> r@ =~= Seq::<u32>::empty(),
        phase == 1 ==> r@ =~= Seq::new(8, |i: int| log_size),
        phase == 2 ==> r@ =~= Seq::new(4, |i: int| log_size),
{
    let mut r: Vec<u32> = Vec::new();
    let count: usize = if phase == 0 {
        0
    } else if phase == 1 {
        8
    } else {
        4
    };
    let mut i: usize = 0;
    while i < count
        invariant
            i <= count,
            r@ =~= Seq::new(i as nat, |k: int| log_size),
        decreases count - i,
    {
        r.push(log_size);
        i += 1;
    }
    r
}

/// Replays, on the verifier side, the protocol's absorption sequence from
/// the three phase digests carried in the proof, re-derives the lookup
/// elements from the channel rather than trusting any carried value, and
/// rejects outright a proof whose declared claimed sum is not zero — a
/// consistent pair of trace views always sums to zero. On success the
/// returned lookup elements are exactly those a fresh channel yields after
/// absorbing the first two digests in order, which pins the commit, draw,
/// commit order; the channel and verifier-side scheme are handed back for
/// the final low-degree check.
pub fn verify_session(digests: &Vec<Vec<u8>>, claimed_sum: Qm31, log_size: u32) -> (r: Result<
    (ProofChannel, SchemeVerifier, LookupGens),
    MemAirError,
>)
    requires
        4 <= log_size <= 28,
        digests@.len() == 3,
        forall|i: int| 0 <= i < 3 ==> (#[trigger] digests@[i])@.len() == 32,
    ensures
        r is Err <==> claimed_sum != spec_qm31_zero(),
        r is Err ==> r == Err::<(ProofChannel, SchemeVerifier, LookupGens), MemAirError>(
            MemAirError::NonZeroClaimedSum,
        ),
        r is Ok ==> r.unwrap().2 == spec_lookup_gens(
            session_draw_of(digests@[0]@, digests@[1]@).0,
            session_draw_of(digests@[0]@, digests@[1]@).1,
        ),
        r is Ok ==> gens_wf(r.unwrap().2),
{
    let zero = qm31_zero();
    if !(claimed_sum == zero) {
        return Err(MemAirError::NonZeroClaimedSum);
    }
    let sizes0 = expected_log_sizes(log_size, 0);
    let sizes1 = expected_log_sizes(log_size, 1);

    // one fresh channel per attempt: absorb the preprocessed and trace
    // digests, and only then draw
    let (mut channel, mut scheme, z, alpha) = open_session(
        &digests[0],
        &sizes0,
        &digests[1],
        &sizes1,
    );
    // the lookup elements are re-derived, never read from the proof
    let gens = lookup_gens_from_draw(z, alpha);

    let sizes2 = expected_log_sizes(log_size, 2);
    verifier_commit(&mut scheme, &mut channel, &digests[2], &sizes2);

    Ok((channel, scheme, gens))
}

} // verus!
