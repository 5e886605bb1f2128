//! The miner actor.

use vstd::prelude::*;
use crate::address::{address_bytes, Address, AddressView};
use crate::encoding::{
    byte_string_views, cbor_bytes, cbor_bytes_array, cbor_head, cbor_int,
    cbor_uint_array, write_bytes, write_bytes_array, write_head, write_int, write_uint_array,
    MAJOR_ARRAY,
};

verus! {

/// The method that confirms that the proofs of sectors are valid.
pub const CONFIRM_SECTOR_PROOFS_VALID_METHOD: u64 = 17;

/// The method that a deferred cron event runs.
pub const ON_DEFERRED_CRON_EVENT_METHOD: u64 = 12;

/// The number of a sector.
pub type SectorNumber = u64;

/// The sectors whose proofs are confirmed.
#[derive(Debug)]
pub struct ConfirmSectorProofsParams {
    pub sectors: Vec<SectorNumber>,
}

/// What the constructor of a miner is given.
#[derive(Debug)]
pub struct MinerConstructorParams {
    pub owner: Address,
    pub worker: Address,
    pub control_addresses: Vec<Address>,
    /// The kind of proof of spacetime, by its number.
    pub window_post_proof_type: i64,
    pub peer_id: Vec<u8>,
    pub multi_addresses: Vec<Vec<u8>>,
}

/// The tuple that `ConfirmSectorProofsParams` is sent as: one array of
/// sector numbers.
pub open spec fn confirm_sector_proofs_bytes(sectors: Seq<SectorNumber>) -> Seq<u8> {
    cbor_head(MAJOR_ARRAY, 1) + cbor_uint_array(sectors)
}

/// The bytes of each address of a list.
pub open spec fn addresses_bytes(addresses: Seq<Address>) -> Seq<Seq<u8>> {
    addresses.map_values(|a: Address| address_bytes(a@))
}

/// The tuple that `MinerConstructorParams` is sent as: the six fields in
/// their order, each address as a byte string.
pub open spec fn miner_constructor_bytes(
    owner: AddressView,
    worker: AddressView,
    control_addresses: Seq<Seq<u8>>,
    window_post_proof_type: i64,
    peer_id: Seq<u8>,
    multi_addresses: Seq<Seq<u8>>,
) -> Seq<u8> {
    cbor_head(MAJOR_ARRAY, 6) + cbor_bytes(address_bytes(owner)) + cbor_bytes(
        address_bytes(worker),
    ) + cbor_bytes_array(control_addresses) + cbor_int(window_post_proof_type) + cbor_bytes(peer_id)
        + cbor_bytes_array(multi_addresses)
}

impl ConfirmSectorProofsParams {
    /// The bytes that the parameters are sent as.
    pub fn encode(&self) -> (out: Vec<u8>)
        ensures
            out@ == confirm_sector_proofs_bytes(self.sectors@),
    {
        let mut out: Vec<u8> = Vec::new();
        write_head(&mut out, MAJOR_ARRAY, 1);
        write_uint_array(&mut out, self.sectors.as_slice());
        assert(out@ =~= confirm_sector_proofs_bytes(self.sectors@));
        out
    }
}

impl MinerConstructorParams {
    /// The bytes that the parameters are sent as.
    pub fn encode(&self) -> (out: Vec<u8>)
        ensures
            out@ == miner_constructor_bytes(
                self.owner@,
                self.worker@,
                addresses_bytes(self.control_addresses@),
                self.window_post_proof_type,
                self.peer_id@,
                byte_string_views(self.multi_addresses@),
            ),
    {
        let mut control: Vec<Vec<u8>> = Vec::new();
        let mut i: usize = 0;
        while i < self.control_addresses.len()
            invariant
                i <= self.control_addresses@.len(),
                control@.len() == i,
                forall|j: int|
                    0 <= j < i ==> (#[trigger] control@[j])@ == address_bytes(
                        self.control_addresses@[j]@,
                    ),
            decreases self.control_addresses@.len() - i,
        {
            control.push(self.control_addresses[i].to_bytes());
            i = i + 1;
        }
        assert(byte_string_views(control@) =~= addresses_bytes(self.control_addresses@));
        let mut out: Vec<u8> = Vec::new();
        write_head(&mut out, MAJOR_ARRAY, 6);
        write_bytes(&mut out, self.owner.to_bytes().as_slice());
        write_bytes(&mut out, self.worker.to_bytes().as_slice());
        write_bytes_array(&mut out, &control);
        write_int(&mut out, self.window_post_proof_type);
        write_bytes(&mut out, self.peer_id.as_slice());
        write_bytes_array(&mut out, &self.multi_addresses);
        assert(out@ =~= miner_constructor_bytes(
            self.owner@,
            self.worker@,
            addresses_bytes(self.control_addresses@),
            self.window_post_proof_type,
            self.peer_id@,
            byte_string_views(self.multi_addresses@),
        ));
        out
    }
}

} // verus!
