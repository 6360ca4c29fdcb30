//! A content-derived name for a whole proof.
use crate::model::{Step, Timestamp};
use crate::outside::{sha256, sha256_of};
use crate::text::{hex_of, hexed};
use vstd::prelude::*;

verus! {

/// The output bytes of every step of the tree rooted at `s`, depth first,
/// each step before the steps after it.
pub open spec fn preorder(s: Step) -> Seq<u8>
    decreases s, s.next@.len() + 1,
{
    s.output@ + preorder_first(s, s.next@.len())
}

/// The output bytes of the first `k` subtrees after `s`, in order.
pub open spec fn preorder_first(s: Step, k: nat) -> Seq<u8>
    decreases s, k,
{
    if k == 0 || k > s.next@.len() {
        Seq::empty()
    } else {
        preorder_first(s, (k - 1) as nat) + preorder(s.next@[k - 1])
    }
}

/// What the identifier of a proof hashes: its document digest, then the
/// output of every step in traversal order.
pub open spec fn id_input(ts: Timestamp) -> Seq<u8> {
    ts.start_digest@ + preorder(ts.first_step)
}

/// The identifier of a proof: the hex form of the SHA-256 digest of its input.
pub open spec fn id_of(ts: Timestamp) -> Seq<char> {
    hex_of(sha256_of(id_input(ts)))
}

fn push_bytes(out: &mut Vec<u8>, b: &[u8])
    ensures
        final(out)@ == old(out)@ + b@,
{
    let mut i: usize = 0;
    while i < b.len()
        invariant
            i <= b@.len(),
            out@ == old(out)@ + b@.take(i as int),
        decreases b@.len() - i,
    {
        out.push(b[i]);
        i = i + 1;
        assert(out@ =~= old(out)@ + b@.take(i as int));
    }
    assert(b@.take(b@.len() as int) =~= b@);
}

/// Appends to `out` the output bytes of the tree rooted at `step`, in traversal order.
pub fn collect_outputs(step: &Step, out: &mut Vec<u8>)
    ensures
        final(out)@ == old(out)@ + preorder(*step),
    decreases step,
{
    push_bytes(out, step.output.as_slice());
    let ghost start = out@;
    let mut n: usize = 0;
    while n < step.next.len()
        invariant
            n <= step.next@.len(),
            out@ == start + preorder_first(*step, n as nat),
        decreases step.next@.len() - n,
    {
        collect_outputs(&step.next[n], out);
        n = n + 1;
        assert(start + preorder_first(*step, n as nat) =~= start + preorder_first(
            *step,
            (n - 1) as nat,
        ) + preorder(step.next@[n - 1]));
    }
    assert(old(out)@ + preorder(*step) =~= start + preorder_first(*step, n as nat));
}

/// The stable name of a proof, used as its key in the store.
pub fn doc_id(ts: &Timestamp) -> (r: String)
    ensures
        r@ == id_of(*ts),
{
    let mut input: Vec<u8> = Vec::new();
    push_bytes(&mut input, ts.start_digest.as_slice());
    collect_outputs(&ts.first_step, &mut input);
    let digest = sha256(input.as_slice());
    hexed(digest.as_slice())
}

} // verus!
