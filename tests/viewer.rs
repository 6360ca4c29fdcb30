use ots_viewer::cache::ProofCache;
use ots_viewer::identity::doc_id;
use ots_viewer::model::{Attestation, Op, Step, StepData, Timestamp};
use ots_viewer::render::{append_step_records, fork_prefix, render_steps, render_timestamp, DisplayedStep, StepClass};
use ots_viewer::text::hexed;
use ots_viewer::upload::{boundary_of, MultipartStream, UploadEntry, UploadError, SIZE_LIMIT};

fn attest(a: Attestation) -> Step {
    Step { data: StepData::Attestation(a), output: vec![], next: vec![] }
}

fn pending(uri: &str) -> Step {
    attest(Attestation::Pending { uri: uri.to_string() })
}

fn op(o: Op, output: Vec<u8>, next: Step) -> Step {
    Step { data: StepData::Op(o), output, next: vec![next] }
}

fn fork(next: Vec<Step>) -> Step {
    Step { data: StepData::Fork, output: vec![], next }
}

fn prefixes(v: &[DisplayedStep]) -> Vec<String> {
    v.iter().map(|d| d.prefix.clone()).collect()
}

fn same_records(a: &[DisplayedStep], b: &[DisplayedStep]) -> bool {
    a.len() == b.len()
        && a.iter().zip(b.iter()).all(|(x, y)| {
            x.prefix == y.prefix && x.result == y.result && x.reason == y.reason && x.class == y.class
        })
}

/// A transaction with one input and one output, in its wire encoding.
fn tx_bytes() -> Vec<u8> {
    let mut b = vec![1, 0, 0, 0, 1];
    b.extend_from_slice(&[0u8; 32]);
    b.extend_from_slice(&[0xff, 0xff, 0xff, 0xff, 0x00, 0xff, 0xff, 0xff, 0xff, 0x01]);
    b.extend_from_slice(&[0x10, 0x27, 0, 0, 0, 0, 0, 0, 0x00]);
    b.extend_from_slice(&[0, 0, 0, 0]);
    b
}

#[test]
fn hex_rendering() {
    assert_eq!(hexed(&[0x01, 0xab, 0x00, 0xff]), "01ab00ff");
    assert_eq!(hexed(&[]), "");
}

#[test]
fn branch_prefixes() {
    assert_eq!(fork_prefix(&String::new(), 1), "1 ");
    assert_eq!(fork_prefix(&"2 ".to_string(), 1), "2- 1 ");
    assert_eq!(fork_prefix(&"2- 2 ".to_string(), 10), "2- 2- 10 ");
    assert_eq!(fork_prefix(&"x".to_string(), 3), "x- 3 ");
}

#[test]
fn fork_cardinality() {
    let s = fork(vec![pending("a"), pending("b"), pending("c")]);
    let mut v = Vec::new();
    render_steps(&s, &mut v, &[0xaa], String::new());
    assert_eq!(v.len(), 4);
    assert_eq!(v[0].result, "Fork into <b>3</b> paths");
    assert_eq!(v[0].reason, "Fork");
    assert_eq!(v[0].class, StepClass::Fork);
    assert_eq!(prefixes(&v), vec!["", "1 ", "2 ", "3 "]);
    assert_eq!(v[2].result, "Pending attestation: server <b>b</b>");
}

#[test]
fn fork_count_two_digits() {
    let s = fork((0..12).map(|_| pending("x")).collect());
    let mut v = Vec::new();
    render_steps(&s, &mut v, &[], String::new());
    assert_eq!(v.len(), 13);
    assert_eq!(v[0].result, "Fork into <b>12</b> paths");
    assert_eq!(v[12].prefix, "12 ");
}

#[test]
fn prefix_nesting() {
    let inner = fork(vec![pending("c"), op(Op::Sha256, vec![0x11], pending("d"))]);
    let s = fork(vec![pending("b"), inner]);
    let mut v = Vec::new();
    render_steps(&s, &mut v, &[0x01], String::new());
    assert_eq!(prefixes(&v), vec!["", "1 ", "2 ", "2- 1 ", "2- 2 ", "2- 2 "]);
    assert_eq!(v[4].reason, "SHA256()");
    assert_eq!(v[5].result, "Pending attestation: server <b>d</b>");
}

#[test]
fn chain_linearity() {
    let s = op(
        Op::Sha256,
        vec![0x0a],
        op(Op::Ripemd160, vec![0x0b], op(Op::Reverse, vec![0x0c], pending("p"))),
    );
    let mut v = Vec::new();
    render_steps(&s, &mut v, &[0x09], String::new());
    assert_eq!(v.len(), 4);
    assert!(v.iter().all(|d| d.prefix.is_empty()));
    assert_eq!(v[0].result, "<tt>0a</tt>");
    assert_eq!(v[1].reason, "RIPEMD16()");
    assert_eq!(v[2].result, "<tt>0c</tt>");
    assert!(v[..3].iter().all(|d| d.class == StepClass::Op));
    assert_eq!(v[3].class, StepClass::Attest);
    assert_eq!(v[3].reason, "Attestation");
}

#[test]
fn op_names() {
    let s = op(Op::Sha1, vec![1], op(Op::Hexlify, vec![2], pending("p")));
    let mut v = Vec::new();
    render_steps(&s, &mut v, &[], String::new());
    assert_eq!(v[0].reason, "SHA1()");
    assert_eq!(v[1].reason, "Hexlify()");
}

#[test]
fn append_without_transaction() {
    let s = op(Op::Append(vec![0xde, 0xad, 0xbe, 0xef]), vec![0x01, 0xde, 0xad, 0xbe, 0xef], pending("p"));
    let mut v = Vec::new();
    render_steps(&s, &mut v, &[0x01], String::new());
    assert_eq!(v.len(), 2);
    assert_eq!(v[0].result, "<tt>01<font color=\"green\">deadbeef</font></tt>");
    assert_eq!(v[0].reason, "Append(deadbe...)");
    assert_eq!(v[0].class, StepClass::Op);
    assert_eq!(v[1].class, StepClass::Attest);
}

#[test]
fn append_with_transaction() {
    let tx = tx_bytes();
    let prev = tx[..tx.len() - 4].to_vec();
    let s = op(Op::Append(vec![0, 0, 0, 0]), tx.clone(), pending("p"));
    let mut v = Vec::new();
    render_steps(&s, &mut v, &prev, String::new());
    assert_eq!(v.len(), 3);
    let txid = bitcoin::consensus::deserialize::<bitcoin::Transaction>(&tx).unwrap().compute_txid().to_string();
    assert_eq!(v[1].result, format!("Bitcoin transaction <b>{}</b>", txid));
    assert_eq!(v[1].reason, "(Parse TX)");
    assert_eq!(v[1].class, StepClass::Parse);
    assert_eq!(v[0].reason, "Append(000000...)");
    assert_eq!(v[2].class, StepClass::Attest);
}

#[test]
fn prepend_never_parses() {
    let tx = tx_bytes();
    let s = op(Op::Prepend(vec![0x01]), tx.clone(), pending("p"));
    let mut v = Vec::new();
    render_steps(&s, &mut v, &tx[1..], String::new());
    assert_eq!(v.len(), 2);
    assert_eq!(v[0].reason, "Prepend(01...)");
    assert!(v[0].result.starts_with("<tt><font color=\"green\">01</font>00000001"));
}

#[test]
fn append_step_records_given_result() {
    let r = append_step_records(&"1 ".to_string(), &[0xab], &[0x01, 0x02], Some("ff".to_string()));
    assert_eq!(r.len(), 2);
    assert_eq!(r[0].reason, "Append(0102...)");
    assert_eq!(r[0].prefix, "1 ");
    assert_eq!(r[1].result, "Bitcoin transaction <b>ff</b>");
    let r = append_step_records(&String::new(), &[0xab], &[0x01], None);
    assert_eq!(r.len(), 1);
    assert_eq!(r[0].result, "<tt>ab<font color=\"green\">01</font></tt>");
}

#[test]
fn bitcoin_root_reconstruction() {
    let prev: Vec<u8> = (1..=32).collect();
    let s = attest(Attestation::Bitcoin { height: 500000 });
    let mut v = Vec::new();
    render_steps(&s, &mut v, &prev, String::new());
    let rev: Vec<u8> = (1..=32).rev().collect();
    assert_eq!(v.len(), 1);
    assert_eq!(v[0].result, format!("Merkle root <b>{}</b> of Bitcoin block <b>500000</b>", hexed(&rev)));
    assert!(v[0].result.starts_with("Merkle root <b>201f1e"));
}

#[test]
fn unknown_attestation() {
    let s = attest(Attestation::Unknown { tag: vec![0x01, 0x02], data: vec![0xff] });
    let mut v = Vec::new();
    render_steps(&s, &mut v, &[], String::new());
    assert_eq!(v[0].result, "Unknown attestation <b>0102</b>/<b>ff</b>");
}

#[test]
fn rendering_is_deterministic() {
    let ts = Timestamp {
        start_digest: vec![1, 2, 3],
        first_step: fork(vec![op(Op::Sha256, vec![4], pending("a")), pending("b")]),
    };
    let a = render_timestamp(&ts);
    let b = render_timestamp(&ts);
    assert!(same_records(&a, &b));
    assert_eq!(doc_id(&ts), doc_id(&ts));
}

#[test]
fn id_is_stable_across_copies() {
    let build = || Timestamp {
        start_digest: vec![9, 9],
        first_step: op(Op::Append(vec![1, 2, 3]), vec![9, 9, 1, 2, 3], pending("x")),
    };
    assert_eq!(doc_id(&build()), doc_id(&build()));
    let other = Timestamp { start_digest: vec![9, 8], first_step: build().first_step };
    assert_ne!(doc_id(&build()), doc_id(&other));
}

#[test]
fn id_hashes_digest_then_outputs() {
    let ts = Timestamp {
        start_digest: b"a".to_vec(),
        first_step: op(Op::Sha256, b"b".to_vec(), Step { data: StepData::Attestation(Attestation::Pending { uri: "u".to_string() }), output: b"c".to_vec(), next: vec![] }),
    };
    assert_eq!(doc_id(&ts), "ba7816bf8f01cfea414140de5dae2223b00361a396177a9cb410ff61f20015ad");
}

#[test]
fn cache_round_trip() {
    let mut c = ProofCache::new();
    let id = "abcd".to_string();
    assert!(!c.contains(&id));
    assert_eq!(c.get(&id), None);
    c.put(id.clone(), vec![1, 2, 3]);
    assert!(c.contains(&id));
    assert_eq!(c.get(&id), Some(vec![1, 2, 3]));
    assert!(!c.contains(&"abce".to_string()));
    c.put(id.clone(), vec![1, 2, 3]);
    assert_eq!(c.get(&id), Some(vec![1, 2, 3]));
}

#[test]
fn class_labels() {
    assert_eq!(StepClass::Fork.as_str(), "step_fork");
    assert_eq!(StepClass::Op.as_str(), "step_op");
    assert_eq!(StepClass::Parse.as_str(), "step_parse");
    assert_eq!(StepClass::Attest.as_str(), "step_attest");
}

#[test]
fn boundary_search() {
    assert_eq!(boundary_of(None), Err(UploadError::NoContentType));
    assert_eq!(boundary_of(Some("multipart/form-data")), Err(UploadError::NoBoundary));
    assert_eq!(boundary_of(Some("multipart/form-data; boundary=xyz")), Ok("xyz".to_string()));
    assert_eq!(boundary_of(Some("boundary=a boundary=b")), Ok("a boundary=b".to_string()));
    assert_eq!(UploadError::NoBoundary.message(), "no boundary= in Content-Type");
}

#[test]
fn upload_entry_checks() {
    assert_eq!(MultipartStream::from_entry(None).err(), Some(UploadError::Missing));
    let e = UploadEntry { name: "other".to_string(), file: Some(vec![1]) };
    assert_eq!(MultipartStream::from_entry(Some(e)).err(), Some(UploadError::Malformed));
    let e = UploadEntry { name: "file".to_string(), file: None };
    assert_eq!(MultipartStream::from_entry(Some(e)).err(), Some(UploadError::Malformed));
    let e = UploadEntry { name: "file".to_string(), file: Some(vec![7; SIZE_LIMIT + 5]) };
    let s = MultipartStream::from_entry(Some(e)).ok().unwrap();
    assert_eq!(s.stream.len(), SIZE_LIMIT);
    let e = UploadEntry { name: "file".to_string(), file: Some(vec![7, 8]) };
    assert_eq!(MultipartStream::from_entry(Some(e)).ok().unwrap().stream, vec![7, 8]);
}
