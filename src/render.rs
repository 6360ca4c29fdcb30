//! Turns a proof tree into an ordered list of display records.
use crate::model::{Attestation, Op, Step, StepData, Timestamp};
use crate::outside::{parse_tx_id, tx_id_of};
use crate::text::{dec_of, hex_of, push_dec, push_hex, push_hex_prefix};
use vstd::prelude::*;

verus! {

/// The coarse category of a display record.
#[derive(Clone, Copy, Debug, PartialEq, Eq, Structural)]
pub enum StepClass {
    Fork,
    Op,
    Parse,
    Attest,
}

impl StepClass {
    /// The label under which a presentation layer styles the record.
    pub fn as_str(&self) -> (r: &'static str)
        ensures
            r@ == self.name(),
    {
        match self {
            StepClass::Fork => "step_fork",
            StepClass::Op => "step_op",
            StepClass::Parse => "step_parse",
            StepClass::Attest => "step_attest",
        }
    }

    pub open spec fn name(self) -> Seq<char> {
        match self {
            StepClass::Fork => "step_fork"@,
            StepClass::Op => "step_op"@,
            StepClass::Parse => "step_parse"@,
            StepClass::Attest => "step_attest"@,
        }
    }
}

/// One line of the rendered proof.
pub struct DisplayedStep {
    /// Which branch of which fork the line belongs to.
    pub prefix: String,
    /// What the step did; may hold light markup.
    pub result: String,
    /// A short label for the kind of step.
    pub reason: String,
    pub class: StepClass,
}

/// The mathematical content of a display record.
pub struct Record {
    pub prefix: Seq<char>,
    pub result: Seq<char>,
    pub reason: Seq<char>,
    pub class: StepClass,
}

impl View for DisplayedStep {
    type V = Record;

    open spec fn view(&self) -> Record {
        Record {
            prefix: self.prefix@,
            result: self.result@,
            reason: self.reason@,
            class: self.class,
        }
    }
}

/// The contents of a list of display records.
pub open spec fn views(v: Seq<DisplayedStep>) -> Seq<Record> {
    v.map_values(|d: DisplayedStep| d@)
}

/// A branch label without the space that closes it.
pub open spec fn label_stem(prefix: Seq<char>) -> Seq<char> {
    if prefix.len() > 0 && prefix.last() == ' ' {
        prefix.drop_last()
    } else {
        prefix
    }
}

/// The prefix of the `n`-th branch (counted from one) of a fork reached under
/// `prefix`: `"n "` at the top level, else `"<prefix>- n "`, the dash taking
/// the place of the space that closed `prefix`.
pub open spec fn branch_prefix(prefix: Seq<char>, n: nat) -> Seq<char> {
    if prefix.len() == 0 {
        dec_of(n) + " "@
    } else {
        label_stem(prefix) + "- "@ + dec_of(n) + " "@
    }
}

/// The name under which a unary operation is shown.
pub open spec fn op_name(op: Op) -> Seq<char> {
    match op {
        Op::Sha1 => "SHA1()"@,
        Op::Sha256 => "SHA256()"@,
        Op::Ripemd160 => "RIPEMD16()"@,
        Op::Hexlify => "Hexlify()"@,
        Op::Reverse => "Reverse()"@,
        Op::Append(_) => "Append()"@,
        Op::Prepend(_) => "Prepend()"@,
    }
}

/// The first three bytes of `extra`, or all of them where there are fewer.
pub open spec fn preview(extra: Seq<u8>) -> Seq<u8> {
    if extra.len() <= 3 {
        extra
    } else {
        extra.take(3)
    }
}

pub open spec fn fork_record(prefix: Seq<char>, n: nat) -> Record {
    Record {
        prefix,
        result: "Fork into <b>"@ + dec_of(n) + "</b> paths"@,
        reason: "Fork"@,
        class: StepClass::Fork,
    }
}

pub open spec fn unary_record(op: Op, prefix: Seq<char>, output: Seq<u8>) -> Record {
    Record {
        prefix,
        result: "<tt>"@ + hex_of(output) + "</tt>"@,
        reason: op_name(op),
        class: StepClass::Op,
    }
}

pub open spec fn append_record(prefix: Seq<char>, prev: Seq<u8>, extra: Seq<u8>) -> Record {
    Record {
        prefix,
        result: "<tt>"@ + hex_of(prev) + "<font color=\"green\">"@ + hex_of(extra) + "</font></tt>"@,
        reason: "Append("@ + hex_of(preview(extra)) + "...)"@,
        class: StepClass::Op,
    }
}

pub open spec fn prepend_record(prefix: Seq<char>, prev: Seq<u8>, extra: Seq<u8>) -> Record {
    Record {
        prefix,
        result: "<tt><font color=\"green\">"@ + hex_of(extra) + "</font>"@ + hex_of(prev) + "</tt>"@,
        reason: "Prepend("@ + hex_of(preview(extra)) + "...)"@,
        class: StepClass::Op,
    }
}

pub open spec fn parse_record(prefix: Seq<char>, tx_id: Seq<char>) -> Record {
    Record {
        prefix,
        result: "Bitcoin transaction <b>"@ + tx_id + "</b>"@,
        reason: "(Parse TX)"@,
        class: StepClass::Parse,
    }
}

/// The records of an append step: the step itself, then, where its output
/// decodes as a transaction with identifier `tx_id`, a note of that.
pub open spec fn append_records(
    prefix: Seq<char>,
    prev: Seq<u8>,
    extra: Seq<u8>,
    tx_id: Option<Seq<char>>,
) -> Seq<Record> {
    match tx_id {
        Some(t) => seq![append_record(prefix, prev, extra), parse_record(prefix, t)],
        None => seq![append_record(prefix, prev, extra)],
    }
}

/// The records of an operation step whose input is `prev` and output `output`.
pub open spec fn op_records(op: Op, prefix: Seq<char>, prev: Seq<u8>, output: Seq<u8>) -> Seq<Record> {
    match op {
        Op::Append(extra) => append_records(prefix, prev, extra@, tx_id_of(output)),
        Op::Prepend(extra) => seq![prepend_record(prefix, prev, extra@)],
        _ => seq![unary_record(op, prefix, output)],
    }
}

/// What an attestation reports about the digest `prev` that it attests.
pub open spec fn attest_result(a: Attestation, prev: Seq<u8>) -> Seq<char> {
    match a {
        Attestation::Unknown { tag, data } => "Unknown attestation <b>"@ + hex_of(tag@) + "</b>/<b>"@
            + hex_of(data@) + "</b>"@,
        Attestation::Pending { uri } => "Pending attestation: server <b>"@ + uri@ + "</b>"@,
        Attestation::Bitcoin { height } => "Merkle root <b>"@ + hex_of(prev.reverse())
            + "</b> of Bitcoin block <b>"@ + dec_of(height as nat) + "</b>"@,
    }
}

pub open spec fn attest_record(a: Attestation, prefix: Seq<char>, prev: Seq<u8>) -> Record {
    Record { prefix, result: attest_result(a, prev), reason: "Attestation"@, class: StepClass::Attest }
}

/// The records of the tree rooted at `s`, reached with running digest `prev`
/// under branch label `prefix`: depth first, each step before the steps after it.
pub open spec fn render(s: Step, prev: Seq<u8>, prefix: Seq<char>) -> Seq<Record>
    decreases s, s.next@.len() + 1,
{
    match s.data {
        StepData::Fork => seq![fork_record(prefix, s.next@.len())] + render_first(
            s,
            prev,
            prefix,
            s.next@.len(),
        ),
        StepData::Op(op) => if s.next@.len() > 0 {
            op_records(op, prefix, prev, s.output@) + render(s.next@[0], s.output@, prefix)
        } else {
            op_records(op, prefix, prev, s.output@)
        },
        StepData::Attestation(a) => seq![attest_record(a, prefix, prev)],
    }
}

/// The records of the first `k` branches of the fork `s`.
pub open spec fn render_first(s: Step, prev: Seq<u8>, prefix: Seq<char>, k: nat) -> Seq<Record>
    decreases s, k,
{
    if k == 0 || k > s.next@.len() {
        Seq::empty()
    } else {
        render_first(s, prev, prefix, (k - 1) as nat) + render(
            s.next@[k - 1],
            prev,
            branch_prefix(prefix, k),
        )
    }
}

/// An optional string, as characters.
pub open spec fn opt_chars(o: Option<String>) -> Option<Seq<char>> {
    match o {
        Some(t) => Some(t@),
        None => None,
    }
}

proof fn lemma_views_push(v: Seq<DisplayedStep>, d: DisplayedStep)
    ensures
        views(v.push(d)) == views(v).push(d@),
{
    assert(views(v.push(d)) =~= views(v).push(d@));
}

proof fn lemma_views_add(a: Seq<DisplayedStep>, b: Seq<DisplayedStep>)
    ensures
        views(a + b) == views(a) + views(b),
{
    assert(views(a + b) =~= views(a) + views(b));
}

/// The prefix of the `n`-th branch (counted from one) of a fork reached under `prefix`.
pub fn fork_prefix(prefix: &String, n: usize) -> (r: String)
    ensures
        r@ == branch_prefix(prefix@, n as nat),
{
    let mut r = String::new();
    let p = prefix.as_str();
    if !p.is_empty() {
        let len = p.unicode_len();
        proof {
            reveal_strlit(" ");
        }
        if p.get_char(len - 1) == ' ' {
            r.append(p.substring_char(0, len - 1));
            assert(p@.subrange(0, len - 1) =~= p@.drop_last());
        } else {
            r.append(p);
        }
        r.append("- ");
    }
    push_dec(&mut r, n);
    r.append(" ");
    r
}

fn unary_label(op: &Op) -> (r: &'static str)
    ensures
        r@ == op_name(*op),
{
    match op {
        Op::Sha1 => "SHA1()",
        Op::Sha256 => "SHA256()",
        Op::Ripemd160 => "RIPEMD16()",
        Op::Hexlify => "Hexlify()",
        Op::Reverse => "Reverse()",
        Op::Append(_) => "Append()",
        Op::Prepend(_) => "Prepend()",
    }
}

fn preview_reason(label: &str, extra: &[u8]) -> (r: String)
    ensures
        r@ == label@ + hex_of(preview(extra@)) + "...)"@,
{
    let mut r = String::from_str(label);
    let n: usize = if extra.len() <= 3 { extra.len() } else { 3 };
    push_hex_prefix(&mut r, extra, n);
    assert(extra@.len() <= 3 ==> extra@.take(n as int) =~= extra@);
    r.append("...)");
    r
}

/// The records of an append step with input `prev` and appended bytes
/// `extra`, given what decoding its output as a transaction gave.
pub fn append_step_records(prefix: &String, prev: &[u8], extra: &[u8], tx_id: Option<String>) -> (r: Vec<DisplayedStep>)
    ensures
        views(r@) == append_records(prefix@, prev@, extra@, opt_chars(tx_id)),
{
    let mut result = String::from_str("<tt>");
    push_hex(&mut result, prev);
    result.append("<font color=\"green\">");
    push_hex(&mut result, extra);
    result.append("</font></tt>");
    let mut r: Vec<DisplayedStep> = Vec::new();
    r.push(DisplayedStep {
        prefix: prefix.clone(),
        result,
        reason: preview_reason("Append(", extra),
        class: StepClass::Op,
    });
    match tx_id {
        Some(t) => {
            let mut result = String::from_str("Bitcoin transaction <b>");
            result.append(t.as_str());
            result.append("</b>");
            r.push(DisplayedStep {
                prefix: prefix.clone(),
                result,
                reason: String::from_str("(Parse TX)"),
                class: StepClass::Parse,
            });
        },
        None => {},
    }
    assert(views(r@) =~= append_records(prefix@, prev@, extra@, opt_chars(tx_id)));
    r
}

/// The records of an operation step with input `prev` and output `output`.
fn op_step_records(op: &Op, prefix: &String, prev: &[u8], output: &[u8]) -> (r: Vec<DisplayedStep>)
    ensures
        views(r@) == op_records(*op, prefix@, prev@, output@),
{
    match op {
        Op::Append(extra) => {
            let tx_id = parse_tx_id(output);
            append_step_records(prefix, prev, extra.as_slice(), tx_id)
        },
        Op::Prepend(extra) => {
            let mut result = String::from_str("<tt><font color=\"green\">");
            push_hex(&mut result, extra.as_slice());
            result.append("</font>");
            push_hex(&mut result, prev);
            result.append("</tt>");
            let mut r: Vec<DisplayedStep> = Vec::new();
            r.push(DisplayedStep {
                prefix: prefix.clone(),
                result,
                reason: preview_reason("Prepend(", extra.as_slice()),
                class: StepClass::Op,
            });
            assert(views(r@) =~= op_records(*op, prefix@, prev@, output@));
            r
        },
        _ => {
            let mut result = String::from_str("<tt>");
            push_hex(&mut result, output);
            result.append("</tt>");
            let mut r: Vec<DisplayedStep> = Vec::new();
            r.push(DisplayedStep {
                prefix: prefix.clone(),
                result,
                reason: String::from_str(unary_label(op)),
                class: StepClass::Op,
            });
            assert(views(r@) =~= op_records(*op, prefix@, prev@, output@));
            r
        },
    }
}

/// The bytes of `b` in reverse order.
pub fn reversed(b: &[u8]) -> (r: Vec<u8>)
    ensures
        r@ == b@.reverse(),
{
    let mut r: Vec<u8> = Vec::new();
    let mut i: usize = b.len();
    while i > 0
        invariant
            i <= b@.len(),
            r@ == b@.subrange(i as int, b@.len() as int).reverse(),
        decreases i,
    {
        i = i - 1;
        r.push(b[i]);
        assert(r@ =~= b@.subrange(i as int, b@.len() as int).reverse());
    }
    assert(b@.subrange(0, b@.len() as int) =~= b@);
    r
}

/// The record of an attestation of the digest `prev`.
fn attestation_record(a: &Attestation, prefix: &String, prev: &[u8]) -> (r: DisplayedStep)
    ensures
        r@ == attest_record(*a, prefix@, prev@),
{
    let result = match a {
        Attestation::Unknown { tag, data } => {
            let mut t = String::from_str("Unknown attestation <b>");
            push_hex(&mut t, tag.as_slice());
            t.append("</b>/<b>");
            push_hex(&mut t, data.as_slice());
            t.append("</b>");
            t
        },
        Attestation::Pending { uri } => {
            let mut t = String::from_str("Pending attestation: server <b>");
            t.append(uri.as_str());
            t.append("</b>");
            t
        },
        Attestation::Bitcoin { height } => {
            let root = reversed(prev);
            let mut t = String::from_str("Merkle root <b>");
            push_hex(&mut t, root.as_slice());
            t.append("</b> of Bitcoin block <b>");
            push_dec(&mut t, *height);
            t.append("</b>");
            t
        },
    };
    DisplayedStep {
        prefix: prefix.clone(),
        result,
        reason: String::from_str("Attestation"),
        class: StepClass::Attest,
    }
}

/// Appends to `vec` the records of the tree rooted at `step`, reached with
/// running digest `prev_data` under branch label `prefix`.
pub fn render_steps(step: &Step, vec: &mut Vec<DisplayedStep>, prev_data: &[u8], prefix: String)
    requires
        step.wf(),
    ensures
        views(final(vec)@) == views(old(vec)@) + render(*step, prev_data@, prefix@),
    decreases step,
{
    match &step.data {
        StepData::Fork => {
            let mut result = String::from_str("Fork into <b>");
            push_dec(&mut result, step.next.len());
            result.append("</b> paths");
            let rec = DisplayedStep {
                prefix: prefix.clone(),
                result,
                reason: String::from_str("Fork"),
                class: StepClass::Fork,
            };
            proof {
                lemma_views_push(vec@, rec);
            }
            vec.push(rec);
            let ghost start = views(vec@);
            let mut n: usize = 0;
            while n < step.next.len()
                invariant
                    step.wf(),
                    step.data is Fork,
                    n <= step.next@.len(),
                    views(vec@) == start + render_first(*step, prev_data@, prefix@, n as nat),
                decreases step.next@.len() - n,
            {
                let new_prefix = fork_prefix(&prefix, n + 1);
                assert(step.next@[n as int].wf());
                render_steps(&step.next[n], vec, prev_data, new_prefix);
                n = n + 1;
                assert(start + render_first(*step, prev_data@, prefix@, n as nat) =~= start
                    + render_first(*step, prev_data@, prefix@, (n - 1) as nat) + render(
                    step.next@[n - 1],
                    prev_data@,
                    branch_prefix(prefix@, n as nat),
                ));
            }
            assert(views(old(vec)@) + render(*step, prev_data@, prefix@) =~= start
                + render_first(*step, prev_data@, prefix@, n as nat));
        },
        StepData::Op(op) => {
            let mut recs = op_step_records(op, &prefix, prev_data, step.output.as_slice());
            proof {
                lemma_views_add(vec@, recs@);
            }
            vec.append(&mut recs);
            assert(step.next@[0].wf());
            render_steps(&step.next[0], vec, step.output.as_slice(), prefix);
        },
        StepData::Attestation(a) => {
            let rec = attestation_record(a, &prefix, prev_data);
            proof {
                lemma_views_push(vec@, rec);
            }
            vec.push(rec);
        },
    }
}

/// The records of a whole proof, starting from its document digest with an empty prefix.
pub fn render_timestamp(ts: &Timestamp) -> (r: Vec<DisplayedStep>)
    requires
        ts.first_step.wf(),
    ensures
        views(r@) == render(ts.first_step, ts.start_digest@, Seq::empty()),
{
    let mut r: Vec<DisplayedStep> = Vec::new();
    render_steps(&ts.first_step, &mut r, ts.start_digest.as_slice(), String::new());
    assert(views(Seq::<DisplayedStep>::empty()) =~= Seq::<Record>::empty());
    r
}

} // verus!
