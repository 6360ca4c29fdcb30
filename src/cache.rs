//! A content-addressed store of serialized proofs.
use vstd::prelude::*;

verus! {

/// One stored proof: its identifier and its serialized bytes.
pub struct CacheEntry {
    pub id: String,
    pub bytes: Vec<u8>,
}

/// Maps proof identifiers to the serialized proofs stored under them.
pub struct ProofCache {
    entries: Vec<CacheEntry>,
    contents: Ghost<Map<Seq<char>, Seq<u8>>>,
}

impl View for ProofCache {
    type V = Map<Seq<char>, Seq<u8>>;

    closed spec fn view(&self) -> Map<Seq<char>, Seq<u8>> {
        self.contents@
    }
}

impl ProofCache {
    /// Each identifier is stored once, and the entries hold exactly the contents.
    pub closed spec fn wf(&self) -> bool {
        &&& forall|i: int, j: int|
            0 <= i < j < self.entries@.len() ==> (#[trigger] self.entries@[i]).id@
                != (#[trigger] self.entries@[j]).id@
        &&& forall|i: int|
            0 <= i < self.entries@.len() ==> self.contents@.contains_key(
                (#[trigger] self.entries@[i]).id@,
            ) && self.contents@[self.entries@[i].id@] == self.entries@[i].bytes@
        &&& forall|k: Seq<char>|
            #[trigger] self.contents@.contains_key(k) ==> exists|i: int|
                0 <= i < self.entries@.len() && (#[trigger] self.entries@[i]).id@ == k
    }

    /// An empty store.
    pub fn new() -> (r: ProofCache)
        ensures
            r.wf(),
            r@ == Map::<Seq<char>, Seq<u8>>::empty(),
    {
        ProofCache { entries: Vec::new(), contents: Ghost(Map::empty()) }
    }

    fn find(&self, id: &String) -> (r: Option<usize>)
        requires
            self.wf(),
        ensures
            r.is_some() == self@.contains_key(id@),
            r.is_some() ==> r.unwrap() < self.entries@.len() && self.entries@[r.unwrap() as int].id@
                == id@,
    {
        let mut i: usize = 0;
        while i < self.entries.len()
            invariant
                self.wf(),
                i <= self.entries@.len(),
                forall|j: int| 0 <= j < i ==> (#[trigger] self.entries@[j]).id@ != id@,
            decreases self.entries@.len() - i,
        {
            if self.entries[i].id == *id {
                return Some(i);
            }
            i = i + 1;
        }
        None
    }

    /// Stores `bytes` under `id`, replacing what was stored there before.
    pub fn put(&mut self, id: String, bytes: Vec<u8>)
        requires
            old(self).wf(),
        ensures
            final(self).wf(),
            final(self)@ == old(self)@.insert(id@, bytes@),
    {
        let ghost key = id@;
        let ghost val = bytes@;
        let ghost pos: int;
        match self.find(&id) {
            Some(i) => {
                self.entries.set(i, CacheEntry { id, bytes });
                proof {
                    pos = i as int;
                }
            },
            None => {
                self.entries.push(CacheEntry { id, bytes });
                proof {
                    pos = old(self).entries@.len() as int;
                }
            },
        }
        self.contents = Ghost(self.contents@.insert(key, val));
        assert(self.entries@[pos].id@ == key);
        assert forall|i: int|
            0 <= i < self.entries@.len() && i != pos implies #[trigger] self.entries@[i]
            == old(self).entries@[i] && self.entries@[i].id@ != key by {}
        assert forall|k: Seq<char>| #[trigger] self.contents@.contains_key(k) implies exists|i: int|
            0 <= i < self.entries@.len() && (#[trigger] self.entries@[i]).id@ == k by {
            if k != key {
                let i = choose|i: int|
                    0 <= i < old(self).entries@.len() && (#[trigger] old(self).entries@[i]).id@ == k;
                assert(self.entries@[i].id@ == k);
            } else {
                assert(self.entries@[pos].id@ == k);
            }
        }
    }

    /// The bytes stored under `id`, if any.
    pub fn get(&self, id: &String) -> (r: Option<Vec<u8>>)
        requires
            self.wf(),
        ensures
            r.is_some() == self@.contains_key(id@),
            r.is_some() ==> r.unwrap()@ == self@[id@],
    {
        match self.find(id) {
            Some(i) => {
                let b = self.entries[i].bytes.clone();
                assert(b@ =~= self.entries@[i as int].bytes@);
                Some(b)
            },
            None => None,
        }
    }

    /// Whether anything is stored under `id`.
    pub fn contains(&self, id: &String) -> (r: bool)
        requires
            self.wf(),
        ensures
            r == self@.contains_key(id@),
    {
        self.find(id).is_some()
    }
}

} // verus!
