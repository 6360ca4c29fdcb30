//! Calls into the hashing and transaction-decoding crates.
use crypto::digest::Digest;
use vstd::prelude::*;

verus! {

/// The identifier of the Bitcoin transaction that these bytes encode, as its
/// usual display string, or `None` where they encode no transaction.
pub uninterp spec fn tx_id_of(b: Seq<u8>) -> Option<Seq<char>>;

/// The SHA-256 digest of a byte string.
pub uninterp spec fn sha256_of(b: Seq<u8>) -> Seq<u8>;

/// Relies on `bitcoin::consensus::deserialize::<Transaction>`, which decodes
/// the whole byte string or fails, and on `Transaction::compute_txid` with the
/// display of `Txid`: the outcome depends on the bytes alone.
#[verifier::external_body]
pub(crate) fn parse_tx_id(b: &[u8]) -> (r: Option<String>)
    ensures
        r.is_some() == tx_id_of(b@).is_some(),
        r.is_some() ==> r.unwrap()@ == tx_id_of(b@).unwrap(),
{
    match bitcoin::consensus::deserialize::<bitcoin::Transaction>(b) {
        Ok(tx) => Some(tx.compute_txid().to_string()),
        Err(_) => None,
    }
}

/// Relies on `crypto::sha2::Sha256` (`input`, then `result`): a 32-byte
/// digest that depends on the input bytes alone.
#[verifier::external_body]
pub(crate) fn sha256(b: &[u8]) -> (r: Vec<u8>)
    ensures
        r@ == sha256_of(b@),
        r@.len() == 32,
{
    let mut hasher = crypto::sha2::Sha256::new();
    hasher.input(b);
    let mut out = vec![0u8; 32];
    hasher.result(&mut out);
    out
}

} // verus!
