//! Content identifiers and the hash functions that make them.

use vstd::prelude::*;
use multihash_codetable::MultihashDigest;
use crate::bytes::{bytes_copy, bytes_equal};

verus! {

/// Codec of CBOR data whose links need not be reachable.
pub const CBOR: u64 = 0x51;

/// Codec of IPLD CBOR data whose links have to be reachable.
pub const DAG_CBOR: u64 = 0x71;

/// Codec of raw data.
pub const IPLD_RAW: u64 = 0x55;

/// Hash code of the identity function: the digest is the data.
pub const IDENTITY_HASH: u64 = 0x0;

/// Hash code of BLAKE2b with a digest of 256 bits.
pub const BLAKE2B_256: u64 = 0xb220;

/// Hash code of SHA-256.
pub const SHA2_256: u64 = 0x12;

/// The longest digest that an identifier can hold.
pub const MAX_DIGEST_LEN: usize = 64;

/// A content identifier as plain values.
pub ghost struct CidView {
    pub codec: u64,
    pub hash_code: u64,
    pub digest: Seq<u8>,
}

/// A content identifier of version 1: the codec of a block, the code of a
/// hash function, and the digest of the block's bytes under that function.
#[derive(Debug)]
pub struct Cid {
    codec: u64,
    hash_code: u64,
    digest: Vec<u8>,
}

impl View for Cid {
    type V = CidView;

    closed spec fn view(&self) -> CidView {
        CidView { codec: self.codec, hash_code: self.hash_code, digest: self.digest@ }
    }
}

impl Cid {
    /// An identifier made of the given parts.
    pub fn new_v1(codec: u64, hash_code: u64, digest: Vec<u8>) -> (c: Cid)
        ensures
            c@ == (CidView { codec, hash_code, digest: digest@ }),
    {
        Cid { codec, hash_code, digest }
    }

    /// The codec of the block.
    pub fn codec(&self) -> (c: u64)
        ensures
            c == self@.codec,
    {
        self.codec
    }

    /// The code of the hash function.
    pub fn hash_code(&self) -> (c: u64)
        ensures
            c == self@.hash_code,
    {
        self.hash_code
    }

    /// The digest.
    pub fn digest(&self) -> (d: &[u8])
        ensures
            d@ == self@.digest,
    {
        self.digest.as_slice()
    }

    /// Whether two identifiers are the same.
    pub fn same_as(&self, other: &Cid) -> (same: bool)
        ensures
            same == (self@ == other@),
    {
        self.codec == other.codec && self.hash_code == other.hash_code && bytes_equal(
            self.digest.as_slice(),
            other.digest.as_slice(),
        )
    }

    /// A copy of the identifier.
    pub fn duplicate(&self) -> (c: Cid)
        ensures
            c@ == self@,
    {
        Cid {
            codec: self.codec,
            hash_code: self.hash_code,
            digest: bytes_copy(self.digest.as_slice()),
        }
    }
}

impl PartialEq for Cid {
    fn eq(&self, other: &Cid) -> (same: bool) {
        self.same_as(other)
    }
}

impl vstd::std_specs::cmp::PartialEqSpecImpl for Cid {
    open spec fn obeys_eq_spec() -> bool {
        true
    }

    open spec fn eq_spec(&self, other: &Cid) -> bool {
        self@ == other@
    }
}

impl Clone for Cid {
    fn clone(&self) -> (c: Cid)
        ensures
            c@ == self@,
    {
        self.duplicate()
    }
}

/// The digest of `data` under the hash function that the table of
/// `multihash_codetable` lists for `code`; `None` for a code it does not list.
pub uninterp spec fn multihash_digest(code: u64, data: Seq<u8>) -> Option<Seq<u8>>;

/// Looks `code` up with `multihash_codetable::Code::try_from` and, where the
/// table lists it, hashes `data` with `Code::digest`. A digest of the table
/// is at most 64 bytes long.
#[verifier::external_body]
pub(crate) fn multihash(code: u64, data: &[u8]) -> (r: Option<Vec<u8>>)
    ensures
        match r {
            Some(d) => multihash_digest(code, data@) == Some(d@) && d@.len() <= MAX_DIGEST_LEN,
            None => multihash_digest(code, data@) is None,
        },
{
    match multihash_codetable::Code::try_from(code) {
        Ok(table_code) => Some(table_code.digest(data).digest().to_vec()),
        Err(_) => None,
    }
}

/// The identifier of a block: its codec, the hash code, and the digest of its
/// bytes; `None` for a hash code that is not supported.
pub open spec fn block_cid(codec: u64, hash_code: u64, data: Seq<u8>) -> Option<CidView> {
    match multihash_digest(hash_code, data) {
        Some(digest) => Some(CidView { codec, hash_code, digest }),
        None => None,
    }
}

/// Whether `data` holds exactly the content that `cid` names.
pub open spec fn cid_matches(cid: CidView, data: Seq<u8>) -> bool {
    block_cid(cid.codec, cid.hash_code, data) == Some(cid)
}

/// Computes the identifier of a block.
pub fn compute_cid(codec: u64, hash_code: u64, data: &[u8]) -> (r: Option<Cid>)
    ensures
        match r {
            Some(c) => block_cid(codec, hash_code, data@) == Some(c@) && c@.digest.len()
                <= MAX_DIGEST_LEN,
            None => block_cid(codec, hash_code, data@) is None,
        },
{
    match multihash(hash_code, data) {
        Some(digest) => Some(Cid::new_v1(codec, hash_code, digest)),
        None => None,
    }
}

} // verus!
