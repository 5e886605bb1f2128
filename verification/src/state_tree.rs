//! The state tree: the record of every actor, by actor identifier.

use vstd::prelude::*;
use crate::blockstore::{ActorBlockstore, Block};
use crate::encoding::{
    actor_state_bytes, cbor_cid, cbor_head, decode_actor_state, encode_actor_state,
    lemma_actor_state_round_trip, lemma_parse_cbor_cid, lemma_parse_head, parse_actor_state,
    parse_cbor_cid, parse_head, read_cbor_cid, read_head, storable, write_cbor_cid, write_head,
    MAJOR_ARRAY, MAJOR_UNSIGNED,
};
use crate::error::{ExecutionError, FailureView, FatalCause};
use crate::ipld::{block_cid, Cid, CidView, BLAKE2B_256, DAG_CBOR, MAX_DIGEST_LEN};

verus! {

/// The identifier of an actor.
pub type ActorID = u64;

/// An amount of tokens, in the smallest unit.
pub type TokenAmount = u128;

/// The record of an actor as plain values.
pub ghost struct ActorStateView {
    pub code: CidView,
    pub state: CidView,
    pub sequence: u64,
    pub balance: u128,
}

/// The record of an actor: its code, the root of its state, the number of
/// messages it has sent, and its balance.
#[derive(Debug)]
pub struct ActorState {
    /// Identifier of the actor's code.
    pub code: Cid,
    /// Identifier of the root of the actor's state.
    pub state: Cid,
    /// Number of top-level messages that the actor has sent.
    pub sequence: u64,
    /// Tokens that the actor holds.
    pub balance: TokenAmount,
}

impl View for ActorState {
    type V = ActorStateView;

    open spec fn view(&self) -> ActorStateView {
        ActorStateView {
            code: self.code@,
            state: self.state@,
            sequence: self.sequence,
            balance: self.balance,
        }
    }
}

impl ActorState {
    /// A record made of the given parts.
    pub fn new(code: Cid, state: Cid, sequence: u64, balance: TokenAmount) -> (a: ActorState)
        ensures
            a@ == (ActorStateView { code: code@, state: state@, sequence, balance }),
    {
        ActorState { code, state, sequence, balance }
    }

    /// A copy of the record.
    pub fn duplicate(&self) -> (a: ActorState)
        ensures
            a@ == self@,
    {
        ActorState {
            code: self.code.duplicate(),
            state: self.state.duplicate(),
            sequence: self.sequence,
            balance: self.balance,
        }
    }

    /// Whether two records are the same.
    pub fn same_as(&self, other: &ActorState) -> (same: bool)
        ensures
            same == (self@ == other@),
    {
        self.code.same_as(&other.code) && self.state.same_as(&other.state) && self.sequence
            == other.sequence && self.balance == other.balance
    }
}

impl PartialEq for ActorState {
    fn eq(&self, other: &ActorState) -> (same: bool) {
        self.same_as(other)
    }
}

impl vstd::std_specs::cmp::PartialEqSpecImpl for ActorState {
    open spec fn obeys_eq_spec() -> bool {
        true
    }

    open spec fn eq_spec(&self, other: &ActorState) -> bool {
        self@ == other@
    }
}

impl Clone for ActorState {
    fn clone(&self) -> (a: ActorState)
        ensures
            a@ == self@,
    {
        self.duplicate()
    }
}

/// What a list of records holds.
pub open spec fn record_views(records: Seq<ActorState>) -> Seq<ActorStateView> {
    records.map_values(|r: ActorState| r@)
}

/// The mapping from actor identifier to actor record, kept in the order of
/// the identifiers.
pub struct StateTree {
    ids: Vec<ActorID>,
    records: Vec<ActorState>,
    model: Ghost<Map<ActorID, ActorStateView>>,
}

/// A state of the tree to which it can be taken back.
pub struct Checkpoint {
    tree: StateTree,
}

impl View for StateTree {
    type V = Map<ActorID, ActorStateView>;

    closed spec fn view(&self) -> Map<ActorID, ActorStateView> {
        self.model@
    }
}

impl View for Checkpoint {
    type V = Map<ActorID, ActorStateView>;

    closed spec fn view(&self) -> Map<ActorID, ActorStateView> {
        self.tree@
    }
}

impl Checkpoint {
    /// A checkpoint holds a well-formed tree.
    pub closed spec fn wf(&self) -> bool {
        self.tree.wf()
    }
}

impl StateTree {
    /// The identifiers rise strictly, each has its record, and the model is
    /// what the two lists hold.
    pub closed spec fn wf(&self) -> bool {
        &&& self.ids@.len() == self.records@.len()
        &&& forall|i: int, j: int| 0 <= i < j < self.ids@.len() ==> self.ids@[i] < self.ids@[j]
        &&& forall|i: int|
            0 <= i < self.ids@.len() ==> self.model@.contains_key(#[trigger] self.ids@[i])
                && self.model@[self.ids@[i]] == self.records@[i]@
        &&& forall|k: ActorID| #[trigger]
            self.model@.contains_key(k) ==> exists|i: int|
                0 <= i < self.ids@.len() && #[trigger] self.ids@[i] == k
    }

    /// The identifiers of the tree, rising.
    pub closed spec fn spec_ids(&self) -> Seq<ActorID> {
        self.ids@
    }

    /// The records of the tree, in the order of their identifiers.
    pub closed spec fn spec_records(&self) -> Seq<ActorStateView> {
        record_views(self.records@)
    }

    /// An empty tree.
    pub fn new() -> (t: StateTree)
        ensures
            t.wf(),
            t@ == Map::<ActorID, ActorStateView>::empty(),
    {
        StateTree { ids: Vec::new(), records: Vec::new(), model: Ghost(Map::empty()) }
    }

    /// The first position whose identifier is not below `id`.
    fn lower_bound(&self, id: ActorID) -> (p: usize)
        requires
            self.wf(),
        ensures
            p <= self.ids@.len(),
            forall|j: int| 0 <= j < p ==> self.ids@[j] < id,
            forall|j: int| p <= j < self.ids@.len() ==> self.ids@[j] >= id,
            self@.contains_key(id) <==> (p < self.ids@.len() && self.ids@[p as int] == id),
    {
        let mut p: usize = 0;
        while p < self.ids.len() && self.ids[p] < id
            invariant
                self.wf(),
                p <= self.ids@.len(),
                forall|j: int| 0 <= j < p ==> self.ids@[j] < id,
            decreases self.ids@.len() - p,
        {
            p = p + 1;
        }
        proof {
            if self@.contains_key(id) {
                let i = choose|i: int| 0 <= i < self.ids@.len() && #[trigger] self.ids@[i] == id;
                assert(i >= p);
                if i > p {
                    assert(self.ids@[p as int] < self.ids@[i]);
                }
            }
            if p < self.ids@.len() && self.ids@[p as int] == id {
                assert(self.model@.contains_key(self.ids@[p as int]));
            }
        }
        p
    }

    /// Whether the tree has a record for `id`.
    pub fn contains(&self, id: ActorID) -> (b: bool)
        requires
            self.wf(),
        ensures
            b == self@.contains_key(id),
    {
        let p = self.lower_bound(id);
        p < self.ids.len() && self.ids[p] == id
    }

    /// The record of actor `id`, if it has one.
    pub fn get(&self, id: ActorID) -> (r: Option<ActorState>)
        requires
            self.wf(),
        ensures
            match r {
                Some(a) => self@.contains_key(id) && self@[id] == a@,
                None => !self@.contains_key(id),
            },
    {
        let p = self.lower_bound(id);
        if p < self.ids.len() && self.ids[p] == id {
            Some(self.records[p].duplicate())
        } else {
            None
        }
    }

    /// The balance of actor `id`, if it has a record.
    pub fn balance_of(&self, id: ActorID) -> (r: Option<TokenAmount>)
        requires
            self.wf(),
        ensures
            match r {
                Some(b) => self@.contains_key(id) && self@[id].balance == b,
                None => !self@.contains_key(id),
            },
    {
        let p = self.lower_bound(id);
        if p < self.ids.len() && self.ids[p] == id {
            Some(self.records[p].balance)
        } else {
            None
        }
    }

    /// Gives actor `id` the record `record`, whether it had one or not.
    pub fn set(&mut self, id: ActorID, record: ActorState)
        requires
            old(self).wf(),
        ensures
            final(self).wf(),
            final(self)@ == old(self)@.insert(id, record@),
    {
        let p = self.lower_bound(id);
        let ghost view = record@;
        if p < self.ids.len() && self.ids[p] == id {
            self.records.set(p, record);
            proof {
                self.model = Ghost(self.model@.insert(id, view));
            }
            assert forall|i: int| 0 <= i < self.ids@.len() implies self.model@.contains_key(
                #[trigger] self.ids@[i],
            ) && self.model@[self.ids@[i]] == self.records@[i]@ by {
                if i != p {
                    assert(self.ids@[i] != id);
                    assert(old(self).model@.contains_key(old(self).ids@[i]));
                }
            }
        } else {
            self.ids.insert(p, id);
            self.records.insert(p, record);
            proof {
                self.model = Ghost(self.model@.insert(id, view));
            }
            assert forall|i: int, j: int| 0 <= i < j < self.ids@.len() implies self.ids@[i]
                < self.ids@[j] by {
                let oi = if i < p { i } else { i - 1 };
                let oj = if j < p { j } else { j - 1 };
                if i != p && j != p {
                    assert(old(self).ids@[oi] < old(self).ids@[oj]);
                }
            }
            assert forall|i: int| 0 <= i < self.ids@.len() implies self.model@.contains_key(
                #[trigger] self.ids@[i],
            ) && self.model@[self.ids@[i]] == self.records@[i]@ by {
                if i != p {
                    let oi = if i < p { i } else { i - 1 };
                    assert(old(self).model@.contains_key(old(self).ids@[oi]));
                    assert(self.ids@[i] == old(self).ids@[oi]);
                    assert(self.records@[i] == old(self).records@[oi]);
                }
            }
            assert forall|k: ActorID| #[trigger] self.model@.contains_key(k) implies exists|i: int|
                0 <= i < self.ids@.len() && #[trigger] self.ids@[i] == k by {
                if k == id {
                    assert(self.ids@[p as int] == k);
                } else {
                    let oi = choose|i: int|
                        0 <= i < old(self).ids@.len() && #[trigger] old(self).ids@[i] == k;
                    let i = if oi < p { oi } else { oi + 1 };
                    assert(self.ids@[i] == k);
                }
            }
        }
    }

    /// Takes the record of actor `id` out of the tree, if it has one, and
    /// says whether it had one.
    pub fn remove(&mut self, id: ActorID) -> (had: bool)
        requires
            old(self).wf(),
        ensures
            final(self).wf(),
            had == old(self)@.contains_key(id),
            final(self)@ == old(self)@.remove(id),
    {
        let p = self.lower_bound(id);
        if p < self.ids.len() && self.ids[p] == id {
            self.ids.remove(p);
            self.records.remove(p);
            proof {
                self.model = Ghost(self.model@.remove(id));
            }
            assert forall|i: int, j: int| 0 <= i < j < self.ids@.len() implies self.ids@[i]
                < self.ids@[j] by {
                let oi = if i < p { i } else { i + 1 };
                let oj = if j < p { j } else { j + 1 };
                assert(old(self).ids@[oi] < old(self).ids@[oj]);
            }
            assert forall|i: int| 0 <= i < self.ids@.len() implies self.model@.contains_key(
                #[trigger] self.ids@[i],
            ) && self.model@[self.ids@[i]] == self.records@[i]@ by {
                let oi = if i < p { i } else { i + 1 };
                assert(old(self).model@.contains_key(old(self).ids@[oi]));
                assert(self.ids@[i] == old(self).ids@[oi]);
                assert(self.records@[i] == old(self).records@[oi]);
                if oi < p {
                    assert(old(self).ids@[oi] < old(self).ids@[p as int]);
                } else {
                    assert(old(self).ids@[p as int] < old(self).ids@[oi]);
                }
            }
            assert forall|k: ActorID| #[trigger] self.model@.contains_key(k) implies exists|i: int|
                0 <= i < self.ids@.len() && #[trigger] self.ids@[i] == k by {
                let oi = choose|i: int|
                    0 <= i < old(self).ids@.len() && #[trigger] old(self).ids@[i] == k;
                let i = if oi < p { oi } else { oi - 1 };
                assert(self.ids@[i] == k);
            }
            true
        } else {
            assert(self.model@.remove(id) =~= self.model@);
            false
        }
    }

    /// A copy of the tree.
    pub fn duplicate(&self) -> (t: StateTree)
        requires
            self.wf(),
        ensures
            t.wf(),
            t@ == self@,
            t.spec_ids() == self.spec_ids(),
            t.spec_records() == self.spec_records(),
    {
        let mut ids: Vec<ActorID> = Vec::new();
        let mut records: Vec<ActorState> = Vec::new();
        let mut i: usize = 0;
        while i < self.ids.len()
            invariant
                self.wf(),
                i <= self.ids@.len(),
                ids@ == self.ids@.subrange(0, i as int),
                records@.len() == i,
                forall|j: int| 0 <= j < i ==> records@[j]@ == self.records@[j]@,
            decreases self.ids@.len() - i,
        {
            ids.push(self.ids[i]);
            records.push(self.records[i].duplicate());
            assert(self.ids@.subrange(0, i + 1) =~= self.ids@.subrange(0, i as int).push(
                self.ids@[i as int],
            ));
            i = i + 1;
        }
        assert(self.ids@.subrange(0, self.ids@.len() as int) =~= self.ids@);
        assert(record_views(records@) =~= record_views(self.records@));
        StateTree { ids, records, model: Ghost(self.model@) }
    }

    /// Captures the tree as it is now.
    pub fn snapshot(&self) -> (c: Checkpoint)
        requires
            self.wf(),
        ensures
            c.wf(),
            c@ == self@,
    {
        Checkpoint { tree: self.duplicate() }
    }

    /// Takes the tree back to a checkpoint: whatever was changed since the
    /// checkpoint was made is gone.
    pub fn revert(&mut self, checkpoint: Checkpoint)
        requires
            checkpoint.wf(),
        ensures
            final(self).wf(),
            final(self)@ == checkpoint@,
    {
        *self = checkpoint.tree;
    }

    /// The number of actors in the tree.
    pub fn len(&self) -> (n: usize)
        requires
            self.wf(),
        ensures
            n == self.spec_ids().len(),
    {
        self.ids.len()
    }
}

/// The identifier under which an actor record is stored: that of its bytes
/// as a block of IPLD CBOR, hashed with BLAKE2b-256.
pub open spec fn record_cid(record: ActorStateView) -> Option<CidView> {
    block_cid(DAG_CBOR, BLAKE2B_256, actor_state_bytes(record))
}

/// One entry of the root block: an array of the actor's identifier and the
/// link to its record.
pub open spec fn entry_bytes(id: ActorID, link: CidView) -> Seq<u8> {
    cbor_head(MAJOR_ARRAY, 2) + cbor_head(MAJOR_UNSIGNED, id) + cbor_cid(link)
}

/// The entries of the root block, one after the other.
pub open spec fn entries_bytes(ids: Seq<ActorID>, links: Seq<CidView>) -> Seq<u8>
    decreases ids.len(),
{
    if ids.len() == 0 || links.len() == 0 {
        Seq::empty()
    } else {
        entries_bytes(ids.drop_last(), links.drop_last()) + entry_bytes(ids.last(), links.last())
    }
}

/// The root block of a state tree: an array with one entry for each actor,
/// in the order of the identifiers.
pub open spec fn root_bytes(ids: Seq<ActorID>, links: Seq<CidView>) -> Seq<u8> {
    cbor_head(MAJOR_ARRAY, ids.len() as u64) + entries_bytes(ids, links)
}

/// The links to the records, where each record has an identifier.
pub open spec fn record_links(records: Seq<ActorStateView>) -> Option<Seq<CidView>> {
    if forall|i: int| 0 <= i < records.len() ==> (#[trigger] record_cid(records[i])) is Some {
        Some(Seq::new(records.len(), |i: int| record_cid(records[i])->0))
    } else {
        None
    }
}

/// The root of a state tree: the identifier of its root block. It depends
/// on nothing but the records and their identifiers.
pub open spec fn state_root(ids: Seq<ActorID>, records: Seq<ActorStateView>) -> Option<CidView> {
    match record_links(records) {
        Some(links) => block_cid(DAG_CBOR, BLAKE2B_256, root_bytes(ids, links)),
        None => None,
    }
}

proof fn lemma_rising_equal(a: Seq<ActorID>, b: Seq<ActorID>)
    requires
        forall|i: int, j: int| 0 <= i < j < a.len() ==> a[i] < a[j],
        forall|i: int, j: int| 0 <= i < j < b.len() ==> b[i] < b[j],
        forall|x: ActorID| a.contains(x) <==> b.contains(x),
    ensures
        a == b,
    decreases a.len(),
{
    if a.len() == 0 {
        if b.len() > 0 {
            assert(b.contains(b[0]));
            assert(a.contains(b[0]));
        }
        assert(a =~= b);
    } else {
        assert(a.contains(a.last()));
        assert(b.contains(a.last()));
        assert(b.len() > 0);
        assert(b.contains(b.last()));
        assert(a.contains(b.last()));
        let ia = choose|i: int| 0 <= i < a.len() && a[i] == b.last();
        let ib = choose|i: int| 0 <= i < b.len() && b[i] == a.last();
        assert(a.last() == b.last()) by {
            if ia < a.len() - 1 {
                assert(a[ia] < a.last());
            }
            if ib < b.len() - 1 {
                assert(b[ib] < b.last());
            }
        }
        let a2 = a.drop_last();
        let b2 = b.drop_last();
        assert forall|x: ActorID| a2.contains(x) <==> b2.contains(x) by {
            if a2.contains(x) {
                let i = choose|i: int| 0 <= i < a2.len() && a2[i] == x;
                assert(a[i] == x);
                assert(a[i] < a.last());
                assert(a.contains(x));
                let j = choose|j: int| 0 <= j < b.len() && b[j] == x;
                assert(j < b.len() - 1);
                assert(b2[j] == x);
            }
            if b2.contains(x) {
                let i = choose|i: int| 0 <= i < b2.len() && b2[i] == x;
                assert(b[i] == x);
                assert(b[i] < b.last());
                assert(b.contains(x));
                let j = choose|j: int| 0 <= j < a.len() && a[j] == x;
                assert(j < a.len() - 1);
                assert(a2[j] == x);
            }
        }
        lemma_rising_equal(a2, b2);
        assert(a =~= a2.push(a.last()));
        assert(b =~= b2.push(b.last()));
    }
}

impl StateTree {
    /// Two trees that map the same actors to the same records hold them in
    /// the same order, and so have the same root: equal states have equal
    /// identifiers.
    pub proof fn lemma_same_state_same_root(&self, other: &StateTree)
        requires
            self.wf(),
            other.wf(),
            self@ == other@,
        ensures
            self.spec_ids() == other.spec_ids(),
            self.spec_records() == other.spec_records(),
            state_root(self.spec_ids(), self.spec_records()) == state_root(
                other.spec_ids(),
                other.spec_records(),
            ),
    {
        assert forall|x: ActorID| self.ids@.contains(x) <==> other.ids@.contains(x) by {
            if self.ids@.contains(x) {
                let i = choose|i: int| 0 <= i < self.ids@.len() && self.ids@[i] == x;
                assert(self.model@.contains_key(self.ids@[i]));
                let j = choose|j: int| 0 <= j < other.ids@.len() && #[trigger] other.ids@[j] == x;
                assert(other.ids@[j] == x);
            }
            if other.ids@.contains(x) {
                let i = choose|i: int| 0 <= i < other.ids@.len() && other.ids@[i] == x;
                assert(other.model@.contains_key(other.ids@[i]));
                let j = choose|j: int| 0 <= j < self.ids@.len() && #[trigger] self.ids@[j] == x;
                assert(self.ids@[j] == x);
            }
        }
        lemma_rising_equal(self.ids@, other.ids@);
        assert forall|i: int| 0 <= i < self.records@.len() implies self.records@[i]@
            == other.records@[i]@ by {
            assert(self.model@.contains_key(self.ids@[i]));
            assert(other.model@.contains_key(other.ids@[i]));
        }
        assert(record_views(self.records@) =~= record_views(other.records@));
    }

    /// Writes the tree to the store: each record as a block of its own, and
    /// a root block that links to them. Returns the identifier of the root
    /// block, which names the whole state.
    pub fn flush(&self, store: &mut ActorBlockstore) -> (r: Result<Cid, ExecutionError>)
        requires
            self.wf(),
            old(store).wf(),
        ensures
            final(store).wf(),
            forall|k: CidView| old(store)@.contains_key(k) ==> final(store)@.contains_key(k),
            match state_root(self.spec_ids(), self.spec_records()) {
                Some(root) => r matches Ok(c) && c@ == root && final(store)@.contains_key(root)
                    && final(store)@[root] == root_bytes(
                    self.spec_ids(),
                    record_links(self.spec_records())->0,
                ) && forall|i: int|
                    0 <= i < self.spec_records().len() ==> final(store)@.contains_key(
                        #[trigger] record_links(self.spec_records())->0[i],
                    ),
                None => r matches Err(e) && e@ == FailureView::Fatal(
                    FatalCause::CorruptIdentifier,
                ),
            },
    {
        let ghost records = self.spec_records();
        let mut entries: Vec<u8> = Vec::new();
        let ghost mut links: Seq<CidView> = Seq::empty();
        let mut i: usize = 0;
        while i < self.ids.len()
            invariant
                self.wf(),
                store.wf(),
                records == self.spec_records(),
                i <= self.ids@.len(),
                links.len() == i,
                forall|j: int| 0 <= j < i ==> record_cid(records[j]) == Some(#[trigger] links[j]),
                entries@ == entries_bytes(self.ids@.subrange(0, i as int), links),
                forall|k: CidView| old(store)@.contains_key(k) ==> store@.contains_key(k),
                forall|j: int| 0 <= j < i ==> store@.contains_key(#[trigger] links[j]),
            decreases self.ids@.len() - i,
        {
            let bytes = encode_actor_state(&self.records[i]);
            assert(records[i as int] == self.records@[i as int]@);
            let link = match store.put(BLAKE2B_256, &Block::new(DAG_CBOR, bytes)) {
                Ok(link) => link,
                Err(_) => {
                    assert(record_cid(records[i as int]) is None);
                    return Err(ExecutionError::Fatal(FatalCause::CorruptIdentifier));
                },
            };
            let ghost before = entries@;
            write_head(&mut entries, MAJOR_ARRAY, 2);
            write_head(&mut entries, MAJOR_UNSIGNED, self.ids[i]);
            write_cbor_cid(&mut entries, &link);
            proof {
                let ids_next = self.ids@.subrange(0, i + 1);
                let links_next = links.push(link@);
                assert(ids_next.drop_last() =~= self.ids@.subrange(0, i as int));
                assert(links_next.drop_last() =~= links);
                assert(entries@ =~= before + entry_bytes(self.ids@[i as int], link@));
                links = links_next;
            }
            i = i + 1;
        }
        proof {
            assert(self.ids@.subrange(0, i as int) =~= self.ids@);
            assert(records.len() == self.ids@.len());
            assert forall|j: int| 0 <= j < records.len() implies (#[trigger] record_cid(
                records[j],
            )) is Some by {
                assert(record_cid(records[j]) == Some(links[j]));
            }
            assert(record_links(records) is Some);
            assert(record_links(records)->0 =~= links);
        }
        let mut root: Vec<u8> = Vec::new();
        write_head(&mut root, MAJOR_ARRAY, self.ids.len() as u64);
        let mut k: usize = 0;
        let ghost headed = root@;
        while k < entries.len()
            invariant
                k <= entries@.len(),
                root@ == headed + entries@.subrange(0, k as int),
            decreases entries@.len() - k,
        {
            root.push(entries[k]);
            assert(entries@.subrange(0, k + 1) =~= entries@.subrange(0, k as int).push(
                entries@[k as int],
            ));
            assert(root@ =~= headed + entries@.subrange(0, k + 1));
            k = k + 1;
        }
        assert(entries@.subrange(0, entries@.len() as int) =~= entries@);
        assert(root@ =~= root_bytes(self.ids@, links));
        let ghost filled = store@;
        match store.put(BLAKE2B_256, &Block::new(DAG_CBOR, root)) {
            Ok(cid) => {
                assert forall|i: int| 0 <= i < self.spec_records().len() implies store@.contains_key(
                    #[trigger] record_links(self.spec_records())->0[i],
                ) by {
                    assert(filled.contains_key(links[i]));
                }
                Ok(cid)
            },
            Err(_) => Err(ExecutionError::Fatal(FatalCause::CorruptIdentifier)),
        }
    }
}

/// Reads one entry of a root block from the start of `s`: the actor's
/// identifier, the link to its record, and the count of bytes of the entry.
pub open spec fn parse_entry(s: Seq<u8>) -> Option<(ActorID, CidView, nat)> {
    match parse_head(s) {
        Some((major, count, a)) => match parse_head(s.skip(a as int)) {
            Some((kind, id, b)) => match parse_cbor_cid(s.skip((a + b) as int)) {
                Some((link, c)) => if major == MAJOR_ARRAY && count == 2 && kind
                    == MAJOR_UNSIGNED {
                    Some((id, link, (a + b + c) as nat))
                } else {
                    None
                },
                None => None,
            },
            None => None,
        },
        None => None,
    }
}

/// Reads `count` entries from the start of `s`, after the entries `ids` and
/// `links` that were read before: all the identifiers, all the links, and
/// what is left of `s`.
pub open spec fn parse_entries(
    s: Seq<u8>,
    count: nat,
    ids: Seq<ActorID>,
    links: Seq<CidView>,
) -> Option<(Seq<ActorID>, Seq<CidView>, Seq<u8>)>
    decreases count,
{
    if count == 0 {
        Some((ids, links, s))
    } else {
        match parse_entry(s) {
            Some((id, link, used)) => parse_entries(
                s.skip(used as int),
                (count - 1) as nat,
                ids.push(id),
                links.push(link),
            ),
            None => None,
        }
    }
}

/// Reads a root block: the identifiers of the actors and the links to
/// their records. The block has to hold the array and nothing else.
pub open spec fn parse_root(s: Seq<u8>) -> Option<(Seq<ActorID>, Seq<CidView>)> {
    match parse_head(s) {
        Some((major, count, h)) => if major == MAJOR_ARRAY {
            match parse_entries(s.skip(h as int), count as nat, Seq::empty(), Seq::empty()) {
                Some((ids, links, rest)) => if rest.len() == 0 {
                    Some((ids, links))
                } else {
                    None
                },
                None => None,
            }
        } else {
            None
        },
        None => None,
    }
}

/// Whether the identifiers rise strictly.
pub open spec fn rising(ids: Seq<ActorID>) -> bool {
    forall|i: int, j: int| 0 <= i < j < ids.len() ==> ids[i] < ids[j]
}

/// The records that the links of a root block lead to, by actor; or what is
/// wrong with the first link that leads to none: its block is missing, or
/// its block holds no record.
pub open spec fn linked_records(
    store: Map<CidView, Seq<u8>>,
    ids: Seq<ActorID>,
    links: Seq<CidView>,
) -> Result<Map<ActorID, ActorStateView>, FatalCause>
    decreases ids.len(),
{
    if ids.len() == 0 || links.len() == 0 {
        Ok(Map::empty())
    } else {
        match linked_records(store, ids.drop_last(), links.drop_last()) {
            Err(cause) => Err(cause),
            Ok(before) => if !store.contains_key(links.last()) {
                Err(FatalCause::MissingBlock)
            } else {
                match parse_actor_state(store[links.last()]) {
                    Some(record) => Ok(before.insert(ids.last(), record)),
                    None => Err(FatalCause::CorruptIdentifier),
                }
            },
        }
    }
}

/// The state that the root `root` names in a store; or what is wrong: a
/// block is missing, or a block holds not what its place asks for.
pub open spec fn stored_state(store: Map<CidView, Seq<u8>>, root: CidView) -> Result<
    Map<ActorID, ActorStateView>,
    FatalCause,
> {
    if !store.contains_key(root) {
        Err(FatalCause::MissingBlock)
    } else {
        match parse_root(store[root]) {
            Some((ids, links)) => if rising(ids) {
                linked_records(store, ids, links)
            } else {
                Err(FatalCause::CorruptIdentifier)
            },
            None => Err(FatalCause::CorruptIdentifier),
        }
    }
}

proof fn lemma_entries_front(ids: Seq<ActorID>, links: Seq<CidView>)
    requires
        ids.len() == links.len(),
        ids.len() > 0,
    ensures
        entries_bytes(ids, links) == entry_bytes(ids[0], links[0]) + entries_bytes(
            ids.skip(1),
            links.skip(1),
        ),
    decreases ids.len(),
{
    if ids.len() == 1 {
        assert(ids.drop_last() =~= Seq::empty());
        assert(ids.skip(1) =~= Seq::empty());
        assert(entries_bytes(ids.drop_last(), links.drop_last()) =~= Seq::empty());
        assert(entries_bytes(ids.skip(1), links.skip(1)) =~= Seq::empty());
        assert(entries_bytes(ids, links) =~= entry_bytes(ids[0], links[0]) + Seq::<u8>::empty());
    } else {
        lemma_entries_front(ids.drop_last(), links.drop_last());
        assert(ids.drop_last().skip(1) =~= ids.skip(1).drop_last());
        assert(links.drop_last().skip(1) =~= links.skip(1).drop_last());
        assert(ids.skip(1).last() == ids.last());
        assert(links.skip(1).last() == links.last());
        assert(entries_bytes(ids, links) =~= entry_bytes(ids[0], links[0]) + entries_bytes(
            ids.skip(1),
            links.skip(1),
        ));
    }
}

proof fn lemma_parse_entry(id: ActorID, link: CidView, rest: Seq<u8>)
    requires
        link.digest.len() <= MAX_DIGEST_LEN,
    ensures
        parse_entry(entry_bytes(id, link) + rest) == Some(
            (id, link, entry_bytes(id, link).len()),
        ),
{
    let h = cbor_head(MAJOR_ARRAY, 2);
    let n = cbor_head(MAJOR_UNSIGNED, id);
    let c = cbor_cid(link);
    let s = entry_bytes(id, link) + rest;
    assert(s =~= h + (n + c + rest));
    lemma_parse_head(MAJOR_ARRAY, 2, n + c + rest);
    assert(s.skip(h.len() as int) =~= n + (c + rest));
    lemma_parse_head(MAJOR_UNSIGNED, id, c + rest);
    assert(s.skip((h.len() + n.len()) as int) =~= c + rest);
    lemma_parse_cbor_cid(link, rest);
}

proof fn lemma_parse_entries(
    ids: Seq<ActorID>,
    links: Seq<CidView>,
    rest: Seq<u8>,
    read_ids: Seq<ActorID>,
    read_links: Seq<CidView>,
)
    requires
        ids.len() == links.len(),
        forall|i: int| 0 <= i < links.len() ==> (#[trigger] links[i]).digest.len() <= MAX_DIGEST_LEN,
    ensures
        parse_entries(entries_bytes(ids, links) + rest, ids.len(), read_ids, read_links) == Some(
            (read_ids + ids, read_links + links, rest),
        ),
    decreases ids.len(),
{
    if ids.len() == 0 {
        assert(entries_bytes(ids, links) + rest =~= rest);
        assert(read_ids + ids =~= read_ids);
        assert(read_links + links =~= read_links);
    } else {
        lemma_entries_front(ids, links);
        let first = entry_bytes(ids[0], links[0]);
        let tail = entries_bytes(ids.skip(1), links.skip(1));
        let s = entries_bytes(ids, links) + rest;
        assert(s =~= first + (tail + rest));
        lemma_parse_entry(ids[0], links[0], tail + rest);
        assert(s.skip(first.len() as int) =~= tail + rest);
        lemma_parse_entries(
            ids.skip(1),
            links.skip(1),
            rest,
            read_ids.push(ids[0]),
            read_links.push(links[0]),
        );
        assert(read_ids.push(ids[0]) + ids.skip(1) =~= read_ids + ids);
        assert(read_links.push(links[0]) + links.skip(1) =~= read_links + links);
    }
}

/// Reading a root block gives the identifiers and the links back.
pub proof fn lemma_parse_root(ids: Seq<ActorID>, links: Seq<CidView>)
    requires
        ids.len() == links.len(),
        ids.len() <= u64::MAX,
        forall|i: int| 0 <= i < links.len() ==> (#[trigger] links[i]).digest.len() <= MAX_DIGEST_LEN,
    ensures
        parse_root(root_bytes(ids, links)) == Some((ids, links)),
{
    let h = cbor_head(MAJOR_ARRAY, ids.len() as u64);
    let s = root_bytes(ids, links);
    lemma_parse_head(MAJOR_ARRAY, ids.len() as u64, entries_bytes(ids, links));
    assert(s.skip(h.len() as int) =~= entries_bytes(ids, links) + Seq::<u8>::empty());
    lemma_parse_entries(ids, links, Seq::empty(), Seq::empty(), Seq::empty());
    assert(Seq::<ActorID>::empty() + ids =~= ids);
    assert(Seq::<CidView>::empty() + links =~= links);
}

fn read_entry(bytes: &[u8], pos: usize) -> (r: Option<(ActorID, Cid, usize)>)
    requires
        pos <= bytes@.len(),
    ensures
        match r {
            Some((id, link, next)) => parse_entry(bytes@.skip(pos as int)) == Some(
                (id, link@, (next - pos) as nat),
            ) && pos < next <= bytes@.len(),
            None => parse_entry(bytes@.skip(pos as int)) is None,
        },
{
    let ghost s = bytes@.skip(pos as int);
    let (major, count, at1) = match read_head(bytes, pos) {
        Some(found) => found,
        None => {
            return None;
        },
    };
    assert(s.skip(at1 - pos) =~= bytes@.skip(at1 as int));
    let (kind, id, at2) = match read_head(bytes, at1) {
        Some(found) => found,
        None => {
            return None;
        },
    };
    assert(s.skip((at1 - pos) + (at2 - at1)) =~= bytes@.skip(at2 as int));
    let (link, at3) = match read_cbor_cid(bytes, at2) {
        Some(found) => found,
        None => {
            return None;
        },
    };
    if major != MAJOR_ARRAY || count != 2 || kind != MAJOR_UNSIGNED {
        return None;
    }
    Some((id, link, at3))
}

impl StateTree {
    /// What `wf` says of the model: it is the map that the two lists spell.
    proof fn lemma_model_of_entries(&self, n: int)
        requires
            self.wf(),
            0 <= n <= self.ids@.len(),
        ensures
            forall|k: ActorID|
                entries_map(
                    self.ids@.subrange(0, n),
                    self.spec_records().subrange(0, n),
                ).contains_key(k) <==> exists|i: int| 0 <= i < n && #[trigger] self.ids@[i] == k,
            forall|i: int|
                0 <= i < n ==> entries_map(
                    self.ids@.subrange(0, n),
                    self.spec_records().subrange(0, n),
                )[#[trigger] self.ids@[i]] == self.records@[i]@,
            n == self.ids@.len() ==> entries_map(self.ids@, self.spec_records()) == self@,
        decreases n,
    {
        let ids_n = self.ids@.subrange(0, n);
        let recs_n = self.spec_records().subrange(0, n);
        let m = entries_map(ids_n, recs_n);
        if n == 0 {
            assert(ids_n =~= Seq::empty());
        } else {
            self.lemma_model_of_entries(n - 1);
            assert(ids_n.drop_last() =~= self.ids@.subrange(0, n - 1));
            assert(recs_n.drop_last() =~= self.spec_records().subrange(0, n - 1));
            assert(ids_n.last() == self.ids@[n - 1]);
            assert(recs_n.last() == self.records@[n - 1]@);
            let prev = entries_map(
                self.ids@.subrange(0, n - 1),
                self.spec_records().subrange(0, n - 1),
            );
            assert(m == prev.insert(self.ids@[n - 1], self.records@[n - 1]@));
            assert forall|k: ActorID| m.contains_key(k) implies exists|i: int|
                0 <= i < n && #[trigger] self.ids@[i] == k by {
                if k == self.ids@[n - 1] {
                } else {
                    assert(prev.contains_key(k));
                    let i = choose|i: int| 0 <= i < n - 1 && #[trigger] self.ids@[i] == k;
                    assert(self.ids@[i] == k);
                }
            }
            assert forall|k: ActorID| (exists|i: int|
                0 <= i < n && #[trigger] self.ids@[i] == k) implies m.contains_key(k) by {
                let i = choose|i: int| 0 <= i < n && #[trigger] self.ids@[i] == k;
                if i < n - 1 {
                    assert(self.ids@[i] == k);
                    assert(prev.contains_key(k));
                }
            }
            assert forall|i: int| 0 <= i < n implies m[#[trigger] self.ids@[i]]
                == self.records@[i]@ by {
                if i < n - 1 {
                    assert(self.ids@[i] < self.ids@[n - 1]);
                    assert(prev[self.ids@[i]] == self.records@[i]@);
                }
            }
        }
        if n == self.ids@.len() {
            assert(ids_n =~= self.ids@);
            assert(recs_n =~= self.spec_records());
            assert forall|k: ActorID| self.model@.contains_key(k) implies m.contains_key(k) by {
                let i = choose|i: int| 0 <= i < self.ids@.len() && #[trigger] self.ids@[i] == k;
                assert(self.ids@[i] == k);
            }
            assert forall|k: ActorID| m.contains_key(k) implies self.model@.contains_key(k)
                && self.model@[k] == m[k] by {
                let i = choose|i: int| 0 <= i < n && #[trigger] self.ids@[i] == k;
                assert(self.model@.contains_key(self.ids@[i]));
            }
            assert(m =~= self.model@);
        }
    }

    /// Reads the state that `root` names from the store: the root block,
    /// and the block of each record that it links to. A block that is not
    /// there, or that holds not what its place asks for, is fatal: the root
    /// was made by the engine itself.
    pub fn load(store: &ActorBlockstore, root: &Cid) -> (r: Result<StateTree, ExecutionError>)
        requires
            store.wf(),
        ensures
            match stored_state(store@, root@) {
                Ok(state) => r matches Ok(tree) && tree.wf() && tree@ == state,
                Err(cause) => r matches Err(e) && e@ == FailureView::Fatal(cause),
            },
    {
        let bytes = match store.get(root) {
            Ok(Some(bytes)) => bytes,
            _ => {
                return Err(ExecutionError::Fatal(FatalCause::MissingBlock));
            },
        };
        let (ids, links) = match read_root(bytes.as_slice()) {
            Some(found) => found,
            None => {
                return Err(ExecutionError::Fatal(FatalCause::CorruptIdentifier));
            },
        };
        // The identifiers have to rise: each actor once, in order.
        if !is_rising(&ids) {
            return Err(ExecutionError::Fatal(FatalCause::CorruptIdentifier));
        }
        load_records(store, &ids, &links)
    }

    /// What was flushed can be loaded: where the store holds the root block
    /// of this tree under `root`, and under the link of each record the
    /// bytes of the record, `load` gives a tree with the same state.
    pub proof fn lemma_load_after_flush(&self, store: Map<CidView, Seq<u8>>, root: CidView)
        requires
            self.wf(),
            self.spec_ids().len() <= u64::MAX,
            forall|i: int|
                0 <= i < self.spec_records().len() ==> storable(#[trigger] self.spec_records()[i]),
            record_links(self.spec_records()) is Some,
            store.contains_key(root),
            store[root] == root_bytes(self.spec_ids(), record_links(self.spec_records())->0),
            forall|i: int|
                0 <= i < self.spec_records().len() ==> store.contains_key(
                    #[trigger] record_links(self.spec_records())->0[i],
                ) && store[record_links(self.spec_records())->0[i]] == actor_state_bytes(
                    self.spec_records()[i],
                ) && record_links(self.spec_records())->0[i].digest.len() <= MAX_DIGEST_LEN,
        ensures
            stored_state(store, root) == Ok::<Map<ActorID, ActorStateView>, FatalCause>(self@),
    {
        let links = record_links(self.spec_records())->0;
        lemma_parse_root(self.spec_ids(), links);
        lemma_linked_all(store, self.ids@, self.spec_records(), links);
        self.lemma_model_of_entries(self.ids@.len() as int);
    }
}

/// The map that a list of identifiers and a list of records spell.
pub open spec fn entries_map(ids: Seq<ActorID>, records: Seq<ActorStateView>) -> Map<
    ActorID,
    ActorStateView,
>
    decreases ids.len(),
{
    if ids.len() == 0 || records.len() == 0 {
        Map::empty()
    } else {
        entries_map(ids.drop_last(), records.drop_last()).insert(ids.last(), records.last())
    }
}

proof fn lemma_linked_all(
    store: Map<CidView, Seq<u8>>,
    ids: Seq<ActorID>,
    records: Seq<ActorStateView>,
    links: Seq<CidView>,
)
    requires
        ids.len() == records.len(),
        ids.len() == links.len(),
        forall|i: int| 0 <= i < records.len() ==> storable(#[trigger] records[i]),
        forall|i: int|
            0 <= i < links.len() ==> store.contains_key(#[trigger] links[i]) && store[links[i]]
                == actor_state_bytes(records[i]),
    ensures
        linked_records(store, ids, links) == Ok::<Map<ActorID, ActorStateView>, FatalCause>(
            entries_map(ids, records),
        ),
    decreases ids.len(),
{
    if ids.len() > 0 {
        lemma_linked_all(store, ids.drop_last(), records.drop_last(), links.drop_last());
        assert(store.contains_key(links[links.len() - 1]));
        assert(storable(records[records.len() - 1]));
        lemma_actor_state_round_trip(records.last());
    }
}

/// What a list of identifiers holds.
pub open spec fn link_views(links: Seq<Cid>) -> Seq<CidView> {
    links.map_values(|c: Cid| c@)
}

proof fn lemma_linked_records_prefix(
    store: Map<CidView, Seq<u8>>,
    ids: Seq<ActorID>,
    links: Seq<CidView>,
    n: int,
)
    requires
        0 <= n <= ids.len(),
        ids.len() == links.len(),
    ensures
        linked_records(store, ids.subrange(0, n), links.subrange(0, n)) matches Err(cause)
            ==> linked_records(store, ids, links) == Err::<
            Map<ActorID, ActorStateView>,
            FatalCause,
        >(cause),
    decreases ids.len() - n,
{
    if n < ids.len() {
        assert(ids.subrange(0, n + 1).drop_last() =~= ids.subrange(0, n));
        assert(links.subrange(0, n + 1).drop_last() =~= links.subrange(0, n));
        lemma_linked_records_prefix(store, ids, links, n + 1);
    } else {
        assert(ids.subrange(0, n) =~= ids);
        assert(links.subrange(0, n) =~= links);
    }
}

fn read_root(block: &[u8]) -> (r: Option<(Vec<ActorID>, Vec<Cid>)>)
    ensures
        match r {
            Some((ids, links)) => parse_root(block@) == Some((ids@, link_views(links@)))
                && ids@.len() == links@.len(),
            None => parse_root(block@) is None,
        },
{
    assert(block@.skip(0) =~= block@);
    let (major, count, start) = match read_head(block, 0) {
        Some(found) => found,
        None => {
            return None;
        },
    };
    if major != MAJOR_ARRAY {
        return None;
    }
    let mut ids: Vec<ActorID> = Vec::new();
    let mut links: Vec<Cid> = Vec::new();
    let mut pos = start;
    let mut i: u64 = 0;
    let ghost whole = parse_entries(
        block@.skip(start as int),
        count as nat,
        Seq::empty(),
        Seq::empty(),
    );
    assert(link_views(links@) =~= Seq::empty());
    while i < count
        invariant
            i <= count,
            start <= pos <= block@.len(),
            ids@.len() == links@.len(),
            parse_head(block@) == Some((MAJOR_ARRAY, count, start as nat)),
            whole == parse_entries(
                block@.skip(start as int),
                count as nat,
                Seq::empty(),
                Seq::empty(),
            ),
            whole == parse_entries(
                block@.skip(pos as int),
                (count - i) as nat,
                ids@,
                link_views(links@),
            ),
        decreases count - i,
    {
        let (id, link, next) = match read_entry(block, pos) {
            Some(found) => found,
            None => {
                return None;
            },
        };
        proof {
            assert(block@.skip(pos as int).skip(next - pos) =~= block@.skip(next as int));
            assert(link_views(links@.push(link)) =~= link_views(links@).push(link@));
        }
        ids.push(id);
        links.push(link);
        pos = next;
        i = i + 1;
    }
    if pos != block.len() {
        return None;
    }
    Some((ids, links))
}

fn is_rising(ids: &Vec<ActorID>) -> (b: bool)
    ensures
        b == rising(ids@),
{
    let mut k: usize = 1;
    while k < ids.len()
        invariant
            1 <= k,
            forall|a: int, b: int| 0 <= a < b < k && b < ids@.len() ==> ids@[a] < ids@[b],
        decreases ids@.len() - k,
    {
        if ids[k - 1] >= ids[k] {
            return false;
        }
        assert forall|a: int, b: int| 0 <= a < b < k + 1 && b < ids@.len() implies ids@[a]
            < ids@[b] by {
            if b == k && a < k - 1 {
                assert(ids@[a] < ids@[k - 1]);
            }
        }
        k = k + 1;
    }
    true
}

fn load_records(store: &ActorBlockstore, ids: &Vec<ActorID>, links: &Vec<Cid>) -> (r: Result<
    StateTree,
    ExecutionError,
>)
    requires
        store.wf(),
        ids@.len() == links@.len(),
    ensures
        match linked_records(store@, ids@, link_views(links@)) {
            Ok(state) => r matches Ok(tree) && tree.wf() && tree@ == state,
            Err(cause) => r matches Err(e) && e@ == FailureView::Fatal(cause),
        },
{
    let mut tree = StateTree::new();
    let mut j: usize = 0;
    assert(ids@.subrange(0, 0) =~= Seq::empty());
    while j < ids.len()
        invariant
            j <= ids@.len(),
            ids@.len() == links@.len(),
            store.wf(),
            tree.wf(),
            linked_records(
                store@,
                ids@.subrange(0, j as int),
                link_views(links@).subrange(0, j as int),
            ) == Ok::<Map<ActorID, ActorStateView>, FatalCause>(tree@),
        decreases ids@.len() - j,
    {
        proof {
            let next_ids = ids@.subrange(0, j + 1);
            let next_links = link_views(links@).subrange(0, j + 1);
            assert(next_ids.drop_last() =~= ids@.subrange(0, j as int));
            assert(next_links.drop_last() =~= link_views(links@).subrange(0, j as int));
            assert(next_links.last() == links@[j as int]@);
            assert(next_ids.last() == ids@[j as int]);
            lemma_linked_records_prefix(store@, ids@, link_views(links@), j + 1);
        }
        let record_bytes = match store.get(&links[j]) {
            Ok(Some(found)) => found,
            _ => {
                return Err(ExecutionError::Fatal(FatalCause::MissingBlock));
            },
        };
        let record = match decode_actor_state(record_bytes.as_slice()) {
            Some(found) => found,
            None => {
                return Err(ExecutionError::Fatal(FatalCause::CorruptIdentifier));
            },
        };
        tree.set(ids[j], record);
        j = j + 1;
    }
    assert(ids@.subrange(0, ids@.len() as int) =~= ids@);
    assert(link_views(links@).subrange(0, ids@.len() as int) =~= link_views(links@));
    Ok(tree)
}

} // verus!
