//! Properties of rendering, naming and storing that hold for every proof.
use crate::identity::{id_of, preorder, preorder_first};
use crate::model::{Attestation, Op, Step, StepData, Timestamp};
use crate::outside::tx_id_of;
use crate::render::{
    append_record, append_records, branch_prefix, fork_record, parse_record, render, render_first,
    StepClass,
};
use crate::text::dec_of;
use vstd::prelude::*;

verus! {

/// Two operations with the same kind and the same bytes.
pub open spec fn same_op(x: Op, y: Op) -> bool {
    match x {
        Op::Append(e) => y matches Op::Append(f) && e@ == f@,
        Op::Prepend(e) => y matches Op::Prepend(f) && e@ == f@,
        Op::Sha1 => y is Sha1,
        Op::Sha256 => y is Sha256,
        Op::Ripemd160 => y is Ripemd160,
        Op::Hexlify => y is Hexlify,
        Op::Reverse => y is Reverse,
    }
}

/// Two attestations with the same kind and the same contents.
pub open spec fn same_attestation(x: Attestation, y: Attestation) -> bool {
    match x {
        Attestation::Bitcoin { height } => y matches Attestation::Bitcoin { height: h } && h == height,
        Attestation::Pending { uri } => y matches Attestation::Pending { uri: u } && u@ == uri@,
        Attestation::Unknown { tag, data } => y matches Attestation::Unknown { tag: t, data: d }
            && t@ == tag@ && d@ == data@,
    }
}

pub open spec fn same_data(x: StepData, y: StepData) -> bool {
    match x {
        StepData::Fork => y is Fork,
        StepData::Op(o) => y matches StepData::Op(p) && same_op(o, p),
        StepData::Attestation(a) => y matches StepData::Attestation(b) && same_attestation(a, b),
    }
}

/// Two trees of the same shape, with the same contents at every node.
pub open spec fn same_tree(a: Step, b: Step) -> bool
    decreases a,
{
    &&& same_data(a.data, b.data)
    &&& a.output@ == b.output@
    &&& a.next@.len() == b.next@.len()
    &&& forall|i: int| 0 <= i < a.next@.len() ==> same_tree(#[trigger] a.next@[i], b.next@[i])
}

/// Rendering is a function of the tree's contents: two trees of the same
/// shape and bytes, reached the same way, give the same records.
pub proof fn law_render_deterministic(a: Step, b: Step, prev: Seq<u8>, prefix: Seq<char>)
    requires
        same_tree(a, b),
    ensures
        render(a, prev, prefix) == render(b, prev, prefix),
    decreases a, a.next@.len() + 1,
{
    match a.data {
        StepData::Fork => {
            lemma_render_first_same(a, b, prev, prefix, a.next@.len());
        },
        StepData::Op(o) => {
            if a.next@.len() > 0 {
                law_render_deterministic(a.next@[0], b.next@[0], a.output@, prefix);
            }
        },
        StepData::Attestation(_) => {},
    }
}

proof fn lemma_render_first_same(a: Step, b: Step, prev: Seq<u8>, prefix: Seq<char>, k: nat)
    requires
        same_tree(a, b),
    ensures
        render_first(a, prev, prefix, k) == render_first(b, prev, prefix, k),
    decreases a, k,
{
    if k == 0 || k > a.next@.len() {
    } else {
        lemma_render_first_same(a, b, prev, prefix, (k - 1) as nat);
        law_render_deterministic(a.next@[k - 1], b.next@[k - 1], prev, branch_prefix(prefix, k));
    }
}

proof fn lemma_preorder_same(a: Step, b: Step)
    requires
        same_tree(a, b),
    ensures
        preorder(a) == preorder(b),
    decreases a, a.next@.len() + 1,
{
    lemma_preorder_first_same(a, b, a.next@.len());
}

proof fn lemma_preorder_first_same(a: Step, b: Step, k: nat)
    requires
        same_tree(a, b),
    ensures
        preorder_first(a, k) == preorder_first(b, k),
    decreases a, k,
{
    if k == 0 || k > a.next@.len() {
    } else {
        lemma_preorder_first_same(a, b, (k - 1) as nat);
        lemma_preorder_same(a.next@[k - 1], b.next@[k - 1]);
    }
}

/// The identifier is a function of the proof's contents: two proofs with the
/// same document digest and trees of the same shape and bytes get the same name,
/// however often and from whichever copy they were decoded.
pub proof fn law_id_deterministic(t1: Timestamp, t2: Timestamp)
    requires
        t1.start_digest@ == t2.start_digest@,
        same_tree(t1.first_step, t2.first_step),
    ensures
        id_of(t1) == id_of(t2),
{
    lemma_preorder_same(t1.first_step, t2.first_step);
}

/// A fork with `n` branches renders as one summary record followed by the
/// records of each branch in order; the `k`-th branch is labelled `"k "` at the
/// top level and `"<prefix>- k "` below another fork, the dash taking the place
/// of the space that closed the outer label.
pub proof fn law_fork_layout(s: Step, prev: Seq<u8>, prefix: Seq<char>, k: nat)
    requires
        s.wf(),
        s.data is Fork,
        1 <= k <= s.next@.len(),
    ensures
        render(s, prev, prefix) == seq![fork_record(prefix, s.next@.len())] + render_first(
            s,
            prev,
            prefix,
            s.next@.len(),
        ),
        render_first(s, prev, prefix, k) == render_first(s, prev, prefix, (k - 1) as nat) + render(
            s.next@[k - 1],
            prev,
            branch_prefix(prefix, k),
        ),
        prefix.len() == 0 ==> branch_prefix(prefix, k) == dec_of(k) + " "@,
        prefix.len() > 0 && prefix.last() == ' ' ==> branch_prefix(prefix, k) == prefix.drop_last()
            + "- "@ + dec_of(k) + " "@,
{
}

/// A chain of `k` unary operations ending in an attestation.
pub open spec fn unary_chain(s: Step, k: nat) -> bool
    decreases k,
{
    if k == 0 {
        s.data is Attestation && s.next@.len() == 0
    } else {
        &&& s.data matches StepData::Op(o) && !(o is Append) && !(o is Prepend)
        &&& s.next@.len() == 1
        &&& unary_chain(s.next@[0], (k - 1) as nat)
    }
}

/// A chain of `k` unary operations renders as `k` operation records and one
/// attestation record, all under the prefix the chain was reached with.
pub proof fn law_chain_linear(s: Step, k: nat, prev: Seq<u8>, prefix: Seq<char>)
    requires
        unary_chain(s, k),
    ensures
        render(s, prev, prefix).len() == k + 1,
        forall|i: int| 0 <= i < k ==> (#[trigger] render(s, prev, prefix)[i]).class == StepClass::Op,
        render(s, prev, prefix)[k as int].class == StepClass::Attest,
        forall|i: int| 0 <= i <= k ==> (#[trigger] render(s, prev, prefix)[i]).prefix == prefix,
    decreases k,
{
    if k > 0 {
        law_chain_linear(s.next@[0], (k - 1) as nat, s.output@, prefix);
        let r = render(s, prev, prefix);
        let rest = render(s.next@[0], s.output@, prefix);
        assert(r == seq![r[0]] + rest);
        assert forall|i: int| 0 <= i <= k implies (#[trigger] r[i]).prefix == prefix && (i < k
            ==> r[i].class == StepClass::Op) by {
            if i > 0 {
                assert(r[i] == rest[i - 1]);
            }
        }
    }
}

/// An append step renders as its own record, then a transaction note exactly
/// where its output decodes as a transaction, then the rest of the path.
pub proof fn law_append_detection(s: Step, prev: Seq<u8>, prefix: Seq<char>)
    requires
        s.wf(),
        s.data matches StepData::Op(o) && o is Append,
    ensures
        ({
            let extra = s.data->Op_0->Append_0@;
            let recs = append_records(prefix, prev, extra, tx_id_of(s.output@));
            &&& render(s, prev, prefix) == recs + render(s.next@[0], s.output@, prefix)
            &&& recs.len() == if tx_id_of(s.output@) is Some { 2int } else { 1int }
            &&& recs[0] == append_record(prefix, prev, extra)
            &&& tx_id_of(s.output@) matches Some(t) ==> recs[1] == parse_record(prefix, t)
        }),
{
}

/// What is stored under an identifier is what was last put there; an
/// identifier that was never put holds nothing.
pub proof fn law_store_round_trip(
    m: Map<Seq<char>, Seq<u8>>,
    id: Seq<char>,
    bytes: Seq<u8>,
    other: Seq<char>,
)
    ensures
        m.insert(id, bytes).contains_key(id),
        m.insert(id, bytes)[id] == bytes,
        other != id ==> (m.insert(id, bytes).contains_key(other) == m.contains_key(other)),
        !Map::<Seq<char>, Seq<u8>>::empty().contains_key(other),
{
}

} // verus!
