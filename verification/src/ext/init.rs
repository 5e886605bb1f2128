//! The init actor, which creates actors.

use vstd::prelude::*;
use crate::address::{address_bytes, Address, AddressView};
use crate::encoding::{
    cbor_bytes, cbor_cid, cbor_head, write_bytes, write_cbor_cid, write_head, MAJOR_ARRAY,
};
use crate::ipld::{Cid, CidView};

verus! {

/// The method that creates an actor.
pub const EXEC_METHOD: u64 = 2;

/// Init actor Exec Params.
#[derive(Debug)]
pub struct ExecParams {
    /// The code of the actor to create.
    pub code_cid: Cid,
    /// The parameters of its constructor, already encoded.
    pub constructor_params: Vec<u8>,
}

/// Init actor Exec Return value.
#[derive(Debug)]
pub struct ExecReturn {
    /// ID based address for created actor.
    pub id_address: Address,
    /// Reorg safe address for actor.
    pub robust_address: Address,
}

/// The tuple that `ExecParams` is sent as: the code, then the parameters
/// as a byte string.
pub open spec fn exec_params_bytes(code_cid: CidView, constructor_params: Seq<u8>) -> Seq<u8> {
    cbor_head(MAJOR_ARRAY, 2) + cbor_cid(code_cid) + cbor_bytes(constructor_params)
}

/// The tuple that `ExecReturn` comes as: the two addresses, each as a byte
/// string.
pub open spec fn exec_return_bytes(id_address: AddressView, robust_address: AddressView) -> Seq<
    u8,
> {
    cbor_head(MAJOR_ARRAY, 2) + cbor_bytes(address_bytes(id_address)) + cbor_bytes(
        address_bytes(robust_address),
    )
}

impl ExecParams {
    /// The bytes that the parameters are sent as.
    pub fn encode(&self) -> (out: Vec<u8>)
        ensures
            out@ == exec_params_bytes(self.code_cid@, self.constructor_params@),
    {
        let mut out: Vec<u8> = Vec::new();
        write_head(&mut out, MAJOR_ARRAY, 2);
        write_cbor_cid(&mut out, &self.code_cid);
        write_bytes(&mut out, self.constructor_params.as_slice());
        assert(out@ =~= exec_params_bytes(self.code_cid@, self.constructor_params@));
        out
    }
}

impl ExecReturn {
    /// The bytes that the return value comes as.
    pub fn encode(&self) -> (out: Vec<u8>)
        ensures
            out@ == exec_return_bytes(self.id_address@, self.robust_address@),
    {
        let mut out: Vec<u8> = Vec::new();
        write_head(&mut out, MAJOR_ARRAY, 2);
        write_bytes(&mut out, self.id_address.to_bytes().as_slice());
        write_bytes(&mut out, self.robust_address.to_bytes().as_slice());
        assert(out@ =~= exec_return_bytes(self.id_address@, self.robust_address@));
        out
    }
}

} // verus!
