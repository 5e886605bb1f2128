//! A store of immutable blocks, each under the identifier of its content.

use vstd::prelude::*;
use crate::bytes::bytes_copy;
use crate::error::{ActorError, ExitCode};
use crate::ipld::{block_cid, cid_matches, compute_cid, Cid, CidView};

verus! {

/// A block to store: the codec of its content and the content.
#[derive(Debug)]
pub struct Block {
    pub codec: u64,
    pub data: Vec<u8>,
}

impl Block {
    /// A block of the given codec and content.
    pub fn new(codec: u64, data: Vec<u8>) -> (b: Block)
        ensures
            b.codec == codec,
            b.data@ == data@,
    {
        Block { codec, data }
    }
}

/// A blockstore suitable for use within actors.
pub struct ActorBlockstore {
    keys: Vec<Cid>,
    values: Vec<Vec<u8>>,
    model: Ghost<Map<CidView, Seq<u8>>>,
}

impl View for ActorBlockstore {
    type V = Map<CidView, Seq<u8>>;

    closed spec fn view(&self) -> Map<CidView, Seq<u8>> {
        self.model@
    }
}

impl ActorBlockstore {
    /// The store holds each block once, and its model is what it holds.
    pub closed spec fn wf(&self) -> bool {
        &&& self.keys@.len() == self.values@.len()
        &&& forall|i: int|
            0 <= i < self.keys@.len() ==> self.model@.contains_key(#[trigger] self.keys@[i]@)
                && self.model@[self.keys@[i]@] == self.values@[i]@
        &&& forall|k: CidView| #[trigger]
            self.model@.contains_key(k) ==> exists|i: int|
                0 <= i < self.keys@.len() && #[trigger] self.keys@[i]@ == k
        &&& forall|i: int, j: int|
            0 <= i < j < self.keys@.len() ==> #[trigger] self.keys@[i]@ != #[trigger] self.keys@[j]@
        &&& forall|k: CidView| #[trigger]
            self.model@.contains_key(k) ==> cid_matches(k, self.model@[k])
    }

    /// The store is content-addressed: every block in it lies under the
    /// identifier that its own content has. No block can be replaced by
    /// another content without the identifier telling.
    pub proof fn lemma_content_addressed(&self)
        requires
            self.wf(),
        ensures
            forall|k: CidView| #[trigger] self@.contains_key(k) ==> cid_matches(k, self@[k]),
    {
    }

    /// An empty store.
    pub fn new() -> (s: ActorBlockstore)
        ensures
            s.wf(),
            s@ == Map::<CidView, Seq<u8>>::empty(),
    {
        ActorBlockstore { keys: Vec::new(), values: Vec::new(), model: Ghost(Map::empty()) }
    }

    fn position(&self, cid: &Cid) -> (r: Option<usize>)
        requires
            self.wf(),
        ensures
            match r {
                Some(i) => i < self.keys@.len() && self.keys@[i as int]@ == cid@,
                None => !self@.contains_key(cid@),
            },
    {
        let mut i: usize = 0;
        while i < self.keys.len()
            invariant
                self.wf(),
                i <= self.keys@.len(),
                forall|j: int| 0 <= j < i ==> self.keys@[j]@ != cid@,
            decreases self.keys@.len() - i,
        {
            if self.keys[i].same_as(cid) {
                return Some(i);
            }
            i = i + 1;
        }
        None
    }

    /// Whether the store holds a block under `cid`.
    pub fn has(&self, cid: &Cid) -> (b: bool)
        requires
            self.wf(),
        ensures
            b == self@.contains_key(cid@),
    {
        self.position(cid).is_some()
    }

    /// The block stored under `cid`, if there is one.
    pub fn get(&self, cid: &Cid) -> (r: Result<Option<Vec<u8>>, ActorError>)
        requires
            self.wf(),
        ensures
            r matches Ok(found) && match found {
                Some(data) => self@.contains_key(cid@) && self@[cid@] == data@,
                None => !self@.contains_key(cid@),
            },
    {
        match self.position(cid) {
            Some(i) => Ok(Some(bytes_copy(self.values[i].as_slice()))),
            None => Ok(None),
        }
    }

    fn insert(&mut self, cid: Cid, data: &[u8])
        requires
            old(self).wf(),
            cid_matches(cid@, data@),
        ensures
            final(self).wf(),
            final(self)@ == old(self)@.insert(cid@, data@),
    {
        match self.position(&cid) {
            Some(i) => {
                let copy = bytes_copy(data);
                self.values.set(i, copy);
                proof {
                    self.model = Ghost(self.model@.insert(cid@, data@));
                }
            },
            None => {
                let copy = bytes_copy(data);
                proof {
                    self.model = Ghost(self.model@.insert(cid@, data@));
                }
                self.keys.push(cid);
                self.values.push(copy);
                assert forall|k: CidView| #[trigger] self.model@.contains_key(k) implies exists|
                    i: int,
                |
                    0 <= i < self.keys@.len() && #[trigger] self.keys@[i]@ == k by {
                    if k == cid@ {
                        assert(self.keys@[self.keys@.len() - 1]@ == k);
                    } else {
                        let i = choose|i: int|
                            0 <= i < old(self).keys@.len() && #[trigger] old(self).keys@[i]@ == k;
                        assert(self.keys@[i]@ == k);
                    }
                }
            },
        }
    }

    /// Stores a block under the identifier that its content has with the hash
    /// function `hash_code`, and returns the identifier. A hash code that is
    /// not supported is a serialization error, and nothing is stored.
    pub fn put(&mut self, hash_code: u64, block: &Block) -> (r: Result<Cid, ActorError>)
        requires
            old(self).wf(),
        ensures
            final(self).wf(),
            match block_cid(block.codec, hash_code, block.data@) {
                Some(cid) => r matches Ok(k) && k@ == cid && final(self)@ == old(self)@.insert(
                    cid,
                    block.data@,
                ),
                None => r matches Err(e) && e.exit_code == ExitCode::ErrSerialization
                    && final(self)@ == old(self)@,
            },
    {
        match compute_cid(block.codec, hash_code, block.data.as_slice()) {
            Some(cid) => {
                self.insert(cid.duplicate(), block.data.as_slice());
                Ok(cid)
            },
            None => Err(
                ActorError::new(ExitCode::ErrSerialization, "unsupported hash code".to_owned()),
            ),
        }
    }

    /// Stores `block` under `k`, after checking that `k` is the identifier of
    /// `block`: the block is hashed with the hash function and the codec that
    /// `k` names, and the result has to be `k` itself. Anything else is a
    /// serialization error. A block that was hashed but belongs to another
    /// identifier stays in the store under its own identifier.
    pub fn put_keyed(&mut self, k: &Cid, block: &[u8]) -> (r: Result<(), ActorError>)
        requires
            old(self).wf(),
        ensures
            final(self).wf(),
            r is Ok <==> cid_matches(k@, block@),
            r is Ok ==> final(self)@ == old(self)@.insert(k@, block@),
            r matches Err(e) ==> e.exit_code == ExitCode::ErrSerialization,
            r is Err ==> final(self)@ == match block_cid(k@.codec, k@.hash_code, block@) {
                Some(actual) => old(self)@.insert(actual, block@),
                None => old(self)@,
            },
    {
        let k2 = match compute_cid(k.codec(), k.hash_code(), block) {
            Some(cid) => cid,
            None => {
                return Err(
                    ActorError::new(ExitCode::ErrSerialization, "unsupported hash code".to_owned()),
                );
            },
        };
        let same = k.same_as(&k2);
        self.insert(k2, block);
        if !same {
            Err(
                ActorError::new(
                    ExitCode::ErrSerialization,
                    "put block with a cid that its content does not have".to_owned(),
                ),
            )
        } else {
            Ok(())
        }
    }

    /// The number of blocks in the store.
    pub fn len(&self) -> (n: usize)
        requires
            self.wf(),
        ensures
            n == self@.dom().len(),
            self@.dom().finite(),
    {
        proof {
            self.lemma_len();
        }
        self.keys.len()
    }

    proof fn lemma_len(&self)
        requires
            self.wf(),
        ensures
            self@.dom().finite(),
            self@.dom().len() == self.keys@.len(),
    {
        let views = self.keys@.map_values(|c: Cid| c@);
        assert(views.no_duplicates());
        assert(views.to_set() =~= self@.dom()) by {
            assert forall|k: CidView| views.to_set().contains(k) implies self@.dom().contains(
                k,
            ) by {
                let i = choose|i: int| 0 <= i < views.len() && views[i] == k;
                assert(self.keys@[i]@ == k);
            }
            assert forall|k: CidView| self@.dom().contains(k) implies views.to_set().contains(
                k,
            ) by {
                let i = choose|i: int| 0 <= i < self.keys@.len() && #[trigger] self.keys@[i]@ == k;
                assert(views[i] == k);
            }
        }
        views.unique_seq_to_set();
    }
}

} // verus!
