//! Memory operations, padding to a power-of-two row count, and the
//! address-then-counter ordering that yields the sorted view of a trace.
use vstd::prelude::*;
use vstd::relations::{sorted_by, total_ordering};
use vstd::seq_lib::{
    group_to_multiset_ensures, lemma_multiset_commutative, lemma_sorted_unique,
};
use crate::field::{P, fe_wf};

verus! {

/// One atomic memory operation. All fields are base-field elements held as
/// reduced integers; `rw_flag` is 0 for a read and 1 for a write, and
/// `counter` strictly increases in submission order.
#[derive(Clone, Copy, PartialEq, Eq, Structural, Debug)]
pub struct MemoryOp {
    pub rw_flag: u32,
    pub addr: u32,
    pub value: u32,
    pub counter: u32,
}

/// Every field of an operation is a reduced base-field element.
pub open spec fn op_wf(op: MemoryOp) -> bool {
    fe_wf(op.rw_flag) && fe_wf(op.addr) && fe_wf(op.value) && fe_wf(op.counter)
}

pub open spec fn all_ops_wf(s: Seq<MemoryOp>) -> bool {
    forall|i: int| 0 <= i < s.len() ==> op_wf(#[trigger] s[i])
}

impl MemoryOp {
    pub fn new(rw_flag: u32, addr: u32, value: u32, counter: u32) -> (r: MemoryOp)
        requires
            rw_flag < P,
            addr < P,
            value < P,
            counter < P,
        ensures
            r == (MemoryOp { rw_flag, addr, value, counter }),
            op_wf(r),
    {
        MemoryOp { rw_flag, addr, value, counter }
    }
}

/// The sort order of the sorted view: address ascending, then counter
/// ascending.
pub open spec fn key_le(x: MemoryOp, y: MemoryOp) -> bool {
    x.addr < y.addr || (x.addr == y.addr && x.counter <= y.counter)
}

/// The full lexicographic order on all four fields; a total order used to
/// show that the sorted view is uniquely determined.
pub open spec fn lex_le(x: MemoryOp, y: MemoryOp) -> bool {
    x.addr < y.addr
    || (x.addr == y.addr && x.counter < y.counter)
    || (x.addr == y.addr && x.counter == y.counter && x.rw_flag < y.rw_flag)
    || (x.addr == y.addr && x.counter == y.counter && x.rw_flag == y.rw_flag
        && x.value <= y.value)
}

pub open spec fn sorted_by_key(s: Seq<MemoryOp>) -> bool {
    forall|i: int, j: int| 0 <= i < j < s.len() ==> key_le(#[trigger] s[i], #[trigger] s[j])
}

/// No two operations share the same (address, counter) pair.
pub open spec fn unique_keys(s: Seq<MemoryOp>) -> bool {
    forall|i: int, j: int|
        0 <= i < j < s.len() ==> !((#[trigger] s[i]).addr == (#[trigger] s[j]).addr
            && s[i].counter == s[j].counter)
}

fn key_le_exec(x: &MemoryOp, y: &MemoryOp) -> (r: bool)
    ensures
        r == key_le(*x, *y),
{
    x.addr < y.addr || (x.addr == y.addr && x.counter <= y.counter)
}

/// Inserting an element anywhere in a sequence inserts it into the multiset
/// of the sequence's elements.
proof fn lemma_insert_to_multiset(s: Seq<MemoryOp>, i: int, x: MemoryOp)
    requires
        0 <= i <= s.len(),
    ensures
        s.insert(i, x).to_multiset() =~= s.to_multiset().insert(x),
{
    broadcast use group_to_multiset_ensures;

    let pre = s.subrange(0, i);
    let post = s.subrange(i, s.len() as int);
    assert(s.insert(i, x) =~= pre.push(x) + post);
    assert(s =~= pre + post);
    lemma_multiset_commutative(pre.push(x), post);
    lemma_multiset_commutative(pre, post);
    assert(pre.push(x).to_multiset() =~= pre.to_multiset().insert(x));
}

/// Stable-sorts the operations by address, then counter. The result holds
/// exactly the same multiset of operations.
pub fn sort_ops(v: &Vec<MemoryOp>) -> (r: Vec<MemoryOp>)
    ensures
        r@.to_multiset() == v@.to_multiset(),
        sorted_by_key(r@),
        r@.len() == v@.len(),
{
    proof {
        broadcast use group_to_multiset_ensures;
    }
    let mut r: Vec<MemoryOp> = Vec::new();
    let mut idx: usize = 0;
    proof {
        assert(v@.subrange(0, 0) =~= Seq::<MemoryOp>::empty());
    }
    while idx < v.len()
        invariant
            idx <= v.len(),
            r@.len() == idx,
            r@.to_multiset() == v@.subrange(0, idx as int).to_multiset(),
            sorted_by_key(r@),
        decreases v.len() - idx,
    {
        let op = v[idx];
        let ghost old_r = r@;
        let mut j: usize = 0;
        while j < r.len() && key_le_exec(&r[j], &op)
            invariant
                j <= r.len(),
                forall|k: int| 0 <= k < j ==> key_le(#[trigger] r@[k], op),
                r@ == old_r,
            decreases r.len() - j,
        {
            j += 1;
        }
        r.insert(j, op);
        proof {
            broadcast use group_to_multiset_ensures;
            lemma_insert_to_multiset(old_r, j as int, op);
            assert(v@.subrange(0, idx as int + 1) =~= v@.subrange(0, idx as int).push(v@[idx as int]));
            assert(r@.to_multiset() =~= v@.subrange(0, idx as int + 1).to_multiset());
            assert forall|a: int, b: int| 0 <= a < b < r@.len() implies key_le(
                #[trigger] r@[a],
                #[trigger] r@[b],
            ) by {
                if b < j {
                    assert(key_le(old_r[a], old_r[b]));
                } else if a > j {
                    assert(key_le(old_r[a - 1], old_r[b - 1]));
                } else if a < j && b == j {
                    assert(key_le(old_r[a], op));
                } else if a == j && b > j {
                    // op sits strictly before the first element it is not
                    // above, so it is below everything at and past j
                    if j < old_r.len() {
                        assert(!key_le(old_r[j as int], op));
                        assert(key_le(op, old_r[j as int]));
                        if b - 1 > j {
                            assert(key_le(old_r[j as int], old_r[b - 1]));
                        }
                    }
                } else if a < j && b > j {
                    assert(key_le(old_r[a], old_r[b - 1]));
                }
            }
        }
        idx += 1;
    }
    proof {
        assert(v@.subrange(0, v@.len() as int) =~= v@);
    }
    r
}

/// The ways a proof attempt can fail before the low-degree proof system is
/// even invoked.
#[derive(Clone, Copy, PartialEq, Eq, Structural, Debug)]
pub enum MemAirError {
    /// More operations were supplied than the requested trace can hold.
    TooManyOps,
    /// A drawn lookup-element combination collided with a trace row and
    /// produced a zero denominator; the whole attempt must be restarted
    /// with a fresh channel.
    DegenerateLookup,
    /// The claimed sum carried by a proof is not zero.
    NonZeroClaimedSum,
}

/// The inert read appended at position `i` of the padding: maximum address,
/// value zero, counter continuing the sequence `0..len`.
pub open spec fn spec_pad_entry(len: nat, size: nat, i: int) -> MemoryOp {
    MemoryOp {
        rw_flag: 0,
        addr: (size - 1) as u32,
        value: 0,
        counter: (len + i) as u32,
    }
}

pub open spec fn spec_padding(len: nat, size: nat) -> Seq<MemoryOp> {
    Seq::new((size - len) as nat, |i: int| spec_pad_entry(len, size, i))
}

/// The padded operation list: the input followed by inert reads up to
/// exactly `size` rows.
pub open spec fn spec_padded(ops: Seq<MemoryOp>, size: nat) -> Seq<MemoryOp> {
    ops + spec_padding(ops.len(), size)
}

/// Pads the operations with inert reads to exactly `2^log_size` rows, or
/// reports a configuration error when they do not fit. `log_size` is bounded
/// below by the lane width of the vectorized backend and above so that every
/// padding counter stays a valid base-field element.
pub fn pad_ops(ops: &Vec<MemoryOp>, log_size: u32) -> (r: Result<Vec<MemoryOp>, MemAirError>)
    requires
        4 <= log_size <= 28,
    ensures
        r is Err <==> ops@.len() > (1u32 << log_size),
        r is Err ==> r == Err::<Vec<MemoryOp>, MemAirError>(MemAirError::TooManyOps),
        r is Ok ==> r.unwrap()@ == spec_padded(ops@, (1u32 << log_size) as nat),
        r is Ok ==> r.unwrap()@.len() == (1u32 << log_size),
        r is Ok && all_ops_wf(ops@) ==> all_ops_wf(r.unwrap()@),
{
    proof {
        assert(16 <= (1u32 << log_size) <= 0x1000_0000u32) by (bit_vector)
            requires 4 <= log_size <= 28;
    }
    let size: u32 = 1u32 << log_size;
    if ops.len() > size as usize {
        return Err(MemAirError::TooManyOps);
    }
    let len: u32 = ops.len() as u32;
    let mut out: Vec<MemoryOp> = Vec::new();
    let mut i: usize = 0;
    while i < ops.len()
        invariant
            i <= ops.len(),
            out@ == ops@.subrange(0, i as int),
        decreases ops.len() - i,
    {
        out.push(ops[i]);
        proof {
            assert(out@ =~= ops@.subrange(0, i as int + 1));
        }
        i += 1;
    }
    proof {
        assert(out@ =~= ops@);
    }
    let mut k: u32 = len;
    while k < size
        invariant
            len <= k <= size,
            size == 1u32 << log_size,
            16 <= size <= 0x1000_0000u32,
            len == ops@.len(),
            out@.len() == k,
            out@ == ops@ + spec_padding(ops@.len(), size as nat).subrange(
                0,
                k as int - len as int,
            ),
        decreases size - k,
    {
        out.push(MemoryOp { rw_flag: 0, addr: size - 1, value: 0, counter: k });
        proof {
            let pad = spec_padding(ops@.len(), size as nat);
            assert(pad.subrange(0, k as int + 1 - len as int) =~= pad.subrange(
                0,
                k as int - len as int,
            ).push(pad[k as int - len as int]));
            assert(pad[k as int - len as int] == (MemoryOp {
                rw_flag: 0,
                addr: (size - 1) as u32,
                value: 0,
                counter: k,
            }));
            assert(out@ =~= ops@ + pad.subrange(0, k as int + 1 - len as int));
        }
        k += 1;
    }
    proof {
        let pad = spec_padding(ops@.len(), size as nat);
        assert(pad.subrange(0, size as int - len as int) =~= pad);
        assert(out@ =~= spec_padded(ops@, size as nat));
    }
    Ok(out)
}

/// Two sorted views over the same multiset of operations are pointwise
/// equal, provided no (address, counter) key repeats: reordering the input
/// operations can never change the sorted trace.
pub proof fn lemma_sorted_view_unique(x: Seq<MemoryOp>, y: Seq<MemoryOp>)
    requires
        sorted_by_key(x),
        sorted_by_key(y),
        unique_keys(x),
        unique_keys(y),
        x.to_multiset() == y.to_multiset(),
    ensures
        x == y,
{
    let leq = |a: MemoryOp, b: MemoryOp| lex_le(a, b);
    assert(total_ordering(leq));
    assert forall|i: int, j: int| 0 <= i < j < x.len() implies leq(x[i], x[j]) by {
        assert(key_le(x[i], x[j]));
        assert(!(x[i].addr == x[j].addr && x[i].counter == x[j].counter));
    }
    assert forall|i: int, j: int| 0 <= i < j < y.len() implies leq(y[i], y[j]) by {
        assert(key_le(y[i], y[j]));
        assert(!(y[i].addr == y[j].addr && y[i].counter == y[j].counter));
    }
    assert(sorted_by(x, leq));
    assert(sorted_by(y, leq));
    lemma_sorted_unique(x, y, leq);
    assert(x =~= y);
}

/// Well-formedness of the rows carries over to every reordering.
pub proof fn lemma_wf_transfer(p: Seq<MemoryOp>, s: Seq<MemoryOp>)
    requires
        all_ops_wf(p),
        s.to_multiset() == p.to_multiset(),
    ensures
        all_ops_wf(s),
{
    broadcast use group_to_multiset_ensures;

    assert forall|i: int| 0 <= i < s.len() implies op_wf(#[trigger] s[i]) by {
        assert(s.contains(s[i]));
        assert(p.to_multiset().count(s[i]) > 0);
        assert(p.contains(s[i]));
        let j = choose|j: int| 0 <= j < p.len() && p[j] == s[i];
        assert(op_wf(p[j]));
    }
}

/// An operation list whose counters run 0, 1, 2, ... in submission order —
/// the canonical numbering of the data model — pads to a list in which every
/// row still carries its position as its counter, so no (address, counter)
/// key can repeat.
pub proof fn lemma_padded_unique_keys(ops: Seq<MemoryOp>, size: nat)
    requires
        forall|i: int| 0 <= i < ops.len() ==> (#[trigger] ops[i]).counter == i,
        ops.len() <= size <= 0x1000_0000,
    ensures
        unique_keys(spec_padded(ops, size)),
{
    let p = spec_padded(ops, size);
    assert forall|i: int| 0 <= i < p.len() implies (#[trigger] p[i]).counter == i by {
        if i >= ops.len() {
            assert(p[i] == spec_pad_entry(ops.len(), size, i - ops.len()));
        }
    }
}

/// Key uniqueness is a property of a sequence's multiset of rows: it carries
/// over to every reordering.
pub proof fn lemma_unique_keys_transfer(p: Seq<MemoryOp>, s: Seq<MemoryOp>)
    requires
        unique_keys(p),
        s.to_multiset() == p.to_multiset(),
    ensures
        unique_keys(s),
{
    broadcast use group_to_multiset_ensures;

    assert(p.no_duplicates());
    p.lemma_multiset_has_no_duplicates();
    s.lemma_multiset_has_no_duplicates_conv();
    assert forall|i: int, j: int| 0 <= i < j < s.len() implies !((#[trigger] s[i]).addr == (
    #[trigger] s[j]).addr && s[i].counter == s[j].counter) by {
        if s[i].addr == s[j].addr && s[i].counter == s[j].counter {
            // equal rows would be a duplicate; distinct rows with one key
            // would both occur in `p`, against its key uniqueness
            assert(s[i] != s[j]);
            assert(s.to_multiset().contains(s[i]));
            assert(s.to_multiset().contains(s[j]));
            assert(p.contains(s[i]));
            assert(p.contains(s[j]));
            let pi = choose|pi: int| 0 <= pi < p.len() && p[pi] == s[i];
            let pj = choose|pj: int| 0 <= pj < p.len() && p[pj] == s[j];
            assert(pi != pj);
            assert(false);
        }
    }
}

/// Padding is a function of the input's length alone, so reordering the
/// input operations leaves the padded list's multiset of rows unchanged.
pub proof fn lemma_pad_reorder(a: Seq<MemoryOp>, b: Seq<MemoryOp>, size: nat)
    requires
        a.to_multiset() == b.to_multiset(),
    ensures
        spec_padded(a, size).to_multiset() == spec_padded(b, size).to_multiset(),
{
    broadcast use group_to_multiset_ensures;

    assert(a.len() == a.to_multiset().len());
    assert(b.len() == b.to_multiset().len());
    lemma_multiset_commutative(a, spec_padding(a.len(), size));
    lemma_multiset_commutative(b, spec_padding(b.len(), size));
    assert(spec_padding(a.len(), size) =~= spec_padding(b.len(), size));
}

/// Row-permutation invariance of the trace builder: any reordering of the
/// input operations, padded to the same size, has the same sorted view —
/// provided each (address, counter) key is used once, as the data model
/// demands of valid operation lists.
pub proof fn lemma_reorder_same_sorted_view(
    a: Seq<MemoryOp>,
    b: Seq<MemoryOp>,
    size: nat,
    sa: Seq<MemoryOp>,
    sb: Seq<MemoryOp>,
)
    requires
        a.to_multiset() == b.to_multiset(),
        unique_keys(spec_padded(a, size)),
        sorted_by_key(sa),
        sa.to_multiset() == spec_padded(a, size).to_multiset(),
        sorted_by_key(sb),
        sb.to_multiset() == spec_padded(b, size).to_multiset(),
    ensures
        sa == sb,
{
    lemma_pad_reorder(a, b, size);
    lemma_unique_keys_transfer(spec_padded(a, size), sa);
    lemma_unique_keys_transfer(spec_padded(a, size), sb);
    lemma_sorted_view_unique(sa, sb);
}

} // verus!
