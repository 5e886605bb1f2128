//! Actor addresses: an identifier, or the hash or key that stands for one.

use vstd::prelude::*;
use vstd::slice::slice_subrange;
use crate::bytes::{bytes_copy, bytes_equal};
use crate::encoding::{
    lemma_parse_varint, lemma_parse_varint_sound, parse_varint, read_varint, varint, write_varint,
};

verus! {

/// Length of an uncompressed secp256k1 public key.
pub const SECP_PUB_LEN: usize = 65;

/// Length of a BLS public key.
pub const BLS_PUB_LEN: usize = 48;

/// Length of the hash that a secp256k1 or actor address carries.
pub const PAYLOAD_HASH_LEN: usize = 20;

/// The scheme of an address.
#[derive(Clone, Copy, Debug, PartialEq, Eq, Structural)]
pub enum Protocol {
    ID,
    Secp256k1,
    Actor,
    BLS,
}

/// Why an address could not be built.
#[derive(Clone, Copy, Debug, PartialEq, Eq, Structural)]
pub enum AddressError {
    /// A secp256k1 public key that is not 65 bytes long; holds its length.
    InvalidSECPLength(usize),
    /// A BLS public key that is not 48 bytes long; holds its length.
    InvalidBLSLength(usize),
    /// Bytes that start with no known protocol, or that are empty.
    UnknownProtocol,
    /// Bytes whose payload has not the form of their protocol.
    InvalidPayload,
}

/// What an address is, as plain values.
pub ghost struct AddressView {
    pub protocol: Protocol,
    pub id: u64,
    pub payload: Seq<u8>,
}

/// The digest that `blake2b_simd` computes for `data`, `len` bytes long.
pub uninterp spec fn blake2b_digest(len: nat, data: Seq<u8>) -> Seq<u8>;

/// Hashes `data` with BLAKE2b through `blake2b_simd::Params::hash`, asking for
/// a digest of `len` bytes. The crate documents that the digest has the length
/// asked for and panics on a length outside 1 to 64, which `requires` excludes.
#[verifier::external_body]
pub(crate) fn blake2b_hash(len: usize, data: &[u8]) -> (out: Vec<u8>)
    requires
        1 <= len <= 64,
    ensures
        out@ == blake2b_digest(len as nat, data@),
        out@.len() == len,
{
    blake2b_simd::Params::new().hash_length(len).hash(data).as_bytes().to_vec()
}

/// The 32-byte BLAKE2b digest of `data`.
pub open spec fn blake2b_256_spec(data: Seq<u8>) -> Seq<u8> {
    blake2b_digest(32, data)
}

/// Computes the 32-byte BLAKE2b digest of `data`.
pub fn blake2b_256(data: &[u8]) -> (out: Vec<u8>)
    ensures
        out@ == blake2b_256_spec(data@),
        out@.len() == 32,
{
    blake2b_hash(32, data)
}

/// The address of an actor.
#[derive(Debug)]
pub struct Address {
    protocol: Protocol,
    id: u64,
    payload: Vec<u8>,
}

impl View for Address {
    type V = AddressView;

    closed spec fn view(&self) -> AddressView {
        AddressView { protocol: self.protocol, id: self.id, payload: self.payload@ }
    }
}

/// The view of the identifier address `id`.
pub open spec fn id_address(id: u64) -> AddressView {
    AddressView { protocol: Protocol::ID, id, payload: Seq::empty() }
}

/// The view of the address that stands for the secp256k1 public key `key`.
pub open spec fn secp256k1_address(key: Seq<u8>) -> AddressView {
    AddressView {
        protocol: Protocol::Secp256k1,
        id: 0,
        payload: blake2b_digest(PAYLOAD_HASH_LEN as nat, key),
    }
}

/// The view of the address that holds the BLS public key `key`.
pub open spec fn bls_address(key: Seq<u8>) -> AddressView {
    AddressView { protocol: Protocol::BLS, id: 0, payload: key }
}

/// An address view is well formed when its payload has the length of its
/// scheme and only an identifier address carries an identifier.
pub open spec fn address_wf(a: AddressView) -> bool {
    match a.protocol {
        Protocol::ID => a.payload.len() == 0,
        Protocol::Secp256k1 => a.id == 0 && a.payload.len() == PAYLOAD_HASH_LEN,
        Protocol::Actor => a.id == 0 && a.payload.len() == PAYLOAD_HASH_LEN,
        Protocol::BLS => a.id == 0 && a.payload.len() == BLS_PUB_LEN,
    }
}

impl Address {
    /// The identifier address of actor `id`.
    pub fn new_id(id: u64) -> (a: Address)
        ensures
            a@ == id_address(id),
            address_wf(a@),
    {
        Address { protocol: Protocol::ID, id, payload: Vec::new() }
    }

    /// The address of a secp256k1 public key: the 20-byte BLAKE2b digest of
    /// the key, which has to be 65 bytes long.
    pub fn new_secp256k1(pubkey: &[u8]) -> (r: Result<Address, AddressError>)
        ensures
            pubkey@.len() == SECP_PUB_LEN ==> (r matches Ok(a) && a@ == secp256k1_address(pubkey@)
                && address_wf(a@)),
            pubkey@.len() != SECP_PUB_LEN ==> r == Err::<Address, AddressError>(
                AddressError::InvalidSECPLength(pubkey.len()),
            ),
    {
        if pubkey.len() != SECP_PUB_LEN {
            return Err(AddressError::InvalidSECPLength(pubkey.len()));
        }
        let payload = blake2b_hash(PAYLOAD_HASH_LEN, pubkey);
        Ok(Address { protocol: Protocol::Secp256k1, id: 0, payload })
    }

    /// The address that holds a BLS public key, which has to be 48 bytes long.
    pub fn new_bls(pubkey: &[u8]) -> (r: Result<Address, AddressError>)
        ensures
            pubkey@.len() == BLS_PUB_LEN ==> (r matches Ok(a) && a@ == bls_address(pubkey@)
                && address_wf(a@)),
            pubkey@.len() != BLS_PUB_LEN ==> r == Err::<Address, AddressError>(
                AddressError::InvalidBLSLength(pubkey.len()),
            ),
    {
        if pubkey.len() != BLS_PUB_LEN {
            return Err(AddressError::InvalidBLSLength(pubkey.len()));
        }
        let payload = bytes_copy(pubkey);
        Ok(Address { protocol: Protocol::BLS, id: 0, payload })
    }

    /// The scheme of the address.
    pub fn protocol(&self) -> (p: Protocol)
        ensures
            p == self@.protocol,
    {
        self.protocol
    }

    /// The actor identifier, for an identifier address.
    pub fn id(&self) -> (r: Option<u64>)
        ensures
            r == if self@.protocol == Protocol::ID {
                Some(self@.id)
            } else {
                None
            },
    {
        match self.protocol {
            Protocol::ID => Some(self.id),
            _ => None,
        }
    }

    /// A copy of the payload: a hash or a key; empty for an identifier address.
    pub fn payload_bytes(&self) -> (out: Vec<u8>)
        ensures
            out@ == self@.payload,
    {
        bytes_copy(self.payload.as_slice())
    }

    /// Whether two addresses are the same.
    pub fn same_as(&self, other: &Address) -> (same: bool)
        ensures
            same == (self@ == other@),
    {
        let same_protocol = match (self.protocol, other.protocol) {
            (Protocol::ID, Protocol::ID) => true,
            (Protocol::Secp256k1, Protocol::Secp256k1) => true,
            (Protocol::Actor, Protocol::Actor) => true,
            (Protocol::BLS, Protocol::BLS) => true,
            _ => false,
        };
        same_protocol && self.id == other.id && bytes_equal(
            self.payload.as_slice(),
            other.payload.as_slice(),
        )
    }

    /// A copy of the address.
    pub fn duplicate(&self) -> (a: Address)
        ensures
            a@ == self@,
    {
        Address {
            protocol: self.protocol,
            id: self.id,
            payload: bytes_copy(self.payload.as_slice()),
        }
    }
}

impl Clone for Address {
    fn clone(&self) -> (a: Address)
        ensures
            a@ == self@,
    {
        self.duplicate()
    }
}

impl PartialEq for Address {
    fn eq(&self, other: &Address) -> (same: bool) {
        self.same_as(other)
    }
}

impl vstd::std_specs::cmp::PartialEqSpecImpl for Address {
    open spec fn obeys_eq_spec() -> bool {
        true
    }

    open spec fn eq_spec(&self, other: &Address) -> bool {
        self@ == other@
    }
}

/// The byte that stands for a protocol at the start of an address.
pub open spec fn protocol_byte(p: Protocol) -> u8 {
    match p {
        Protocol::ID => 0,
        Protocol::Secp256k1 => 1,
        Protocol::Actor => 2,
        Protocol::BLS => 3,
    }
}

/// The bytes of an address: the byte of its protocol, then the identifier
/// as a variable-length number, or the hash, or the key.
pub open spec fn address_bytes(a: AddressView) -> Seq<u8> {
    seq![protocol_byte(a.protocol)] + (if a.protocol == Protocol::ID {
        varint(a.id as nat)
    } else {
        a.payload
    })
}

/// Reads an address from bytes that hold the address and nothing else.
pub open spec fn parse_address(s: Seq<u8>) -> Result<AddressView, AddressError> {
    if s.len() == 0 || s[0] > 3 {
        Err(AddressError::UnknownProtocol)
    } else if s[0] == 0 {
        match parse_varint(s.skip(1)) {
            Some((id, used)) => if used + 1 == s.len() {
                Ok(id_address(id))
            } else {
                Err(AddressError::InvalidPayload)
            },
            None => Err(AddressError::InvalidPayload),
        }
    } else if s[0] == 3 {
        if s.len() == 1 + BLS_PUB_LEN {
            Ok(bls_address(s.skip(1)))
        } else {
            Err(AddressError::InvalidPayload)
        }
    } else if s.len() == 1 + PAYLOAD_HASH_LEN {
        Ok(
            AddressView {
                protocol: if s[0] == 1 {
                    Protocol::Secp256k1
                } else {
                    Protocol::Actor
                },
                id: 0,
                payload: s.skip(1),
            },
        )
    } else {
        Err(AddressError::InvalidPayload)
    }
}

/// Writing an address and reading the bytes gives the address back.
pub proof fn lemma_address_round_trip(a: AddressView)
    requires
        address_wf(a),
    ensures
        parse_address(address_bytes(a)) == Ok::<AddressView, AddressError>(a),
{
    let s = address_bytes(a);
    if a.protocol == Protocol::ID {
        assert(s.skip(1) =~= varint(a.id as nat) + Seq::<u8>::empty());
        lemma_parse_varint(a.id, Seq::empty());
        assert(a.payload =~= Seq::empty());
    } else {
        assert(s.skip(1) =~= a.payload);
    }
}

/// What `parse_address` reads is the bytes of the address it gives.
pub proof fn lemma_parse_address_sound(s: Seq<u8>)
    ensures
        parse_address(s) matches Ok(a) ==> address_bytes(a) == s && address_wf(a),
{
    match parse_address(s) {
        Ok(a) => {
            if s[0] == 0 {
                lemma_parse_varint_sound(s.skip(1));
                assert(s.skip(1).subrange(0, s.len() - 1) =~= s.skip(1));
            }
            assert(address_bytes(a) =~= s);
        },
        Err(_) => {},
    }
}

impl Address {
    /// The address of an actor that is named by the hash of `data`.
    pub fn new_actor(data: &[u8]) -> (a: Address)
        ensures
            a@ == (AddressView {
                protocol: Protocol::Actor,
                id: 0,
                payload: blake2b_digest(PAYLOAD_HASH_LEN as nat, data@),
            }),
            address_wf(a@),
    {
        Address {
            protocol: Protocol::Actor,
            id: 0,
            payload: blake2b_hash(PAYLOAD_HASH_LEN, data),
        }
    }

    /// The bytes of the address.
    pub fn to_bytes(&self) -> (out: Vec<u8>)
        ensures
            out@ == address_bytes(self@),
    {
        let mut out: Vec<u8> = Vec::new();
        match self.protocol {
            Protocol::ID => {
                out.push(0u8);
                write_varint(&mut out, self.id);
            },
            Protocol::Secp256k1 => {
                out.push(1u8);
            },
            Protocol::Actor => {
                out.push(2u8);
            },
            Protocol::BLS => {
                out.push(3u8);
            },
        }
        let ghost headed = out@;
        match self.protocol {
            Protocol::ID => {},
            _ => {
                let mut i: usize = 0;
                while i < self.payload.len()
                    invariant
                        i <= self.payload@.len(),
                        out@ == headed + self.payload@.subrange(0, i as int),
                    decreases self.payload@.len() - i,
                {
                    out.push(self.payload[i]);
                    assert(self.payload@.subrange(0, i + 1) =~= self.payload@.subrange(
                        0,
                        i as int,
                    ).push(self.payload@[i as int]));
                    assert(out@ =~= headed + self.payload@.subrange(0, i + 1));
                    i = i + 1;
                }
                assert(self.payload@.subrange(0, self.payload@.len() as int) =~= self.payload@);
            },
        }
        assert(out@ =~= address_bytes(self@));
        out
    }

    /// Reads an address from its bytes.
    pub fn from_bytes(bytes: &[u8]) -> (r: Result<Address, AddressError>)
        ensures
            match r {
                Ok(a) => parse_address(bytes@) == Ok::<AddressView, AddressError>(a@)
                    && address_wf(a@) && address_bytes(a@) == bytes@,
                Err(e) => parse_address(bytes@) == Err::<AddressView, AddressError>(e),
            },
    {
        proof {
            lemma_parse_address_sound(bytes@);
        }
        if bytes.len() == 0 || bytes[0] > 3 {
            return Err(AddressError::UnknownProtocol);
        }
        let body = slice_subrange(bytes, 1, bytes.len());
        assert(body@ =~= bytes@.skip(1));
        let protocol = bytes[0];
        if protocol == 0 {
            assert(body@.skip(0) =~= body@);
            match read_varint(body, 0) {
                Some((id, used)) => {
                    if used == body.len() {
                        Ok(Address::new_id(id))
                    } else {
                        Err(AddressError::InvalidPayload)
                    }
                },
                None => Err(AddressError::InvalidPayload),
            }
        } else if protocol == 3 {
            if body.len() == BLS_PUB_LEN {
                Ok(Address { protocol: Protocol::BLS, id: 0, payload: bytes_copy(body) })
            } else {
                Err(AddressError::InvalidPayload)
            }
        } else if body.len() == PAYLOAD_HASH_LEN {
            let p = if protocol == 1 {
                Protocol::Secp256k1
            } else {
                Protocol::Actor
            };
            Ok(Address { protocol: p, id: 0, payload: bytes_copy(body) })
        } else {
            Err(AddressError::InvalidPayload)
        }
    }
}

} // verus!
