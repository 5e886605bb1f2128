//! What the engine has to know of accounts to create one on first transfer.

use vstd::prelude::*;
use crate::address::{id_address, Address};
use crate::bytes::bytes_copy;
use crate::call_manager::{ConfigView, EngineConfig};
use crate::gas::PriceList;
use crate::ipld::{
    block_cid, compute_cid, Cid, CidView, BLAKE2B_256, DAG_CBOR, IDENTITY_HASH, IPLD_RAW,
};
use crate::state_tree::{ActorID, ActorState, ActorStateView};

verus! {

/// The identifier of the system actor.
pub const SYSTEM_ACTOR_ID: ActorID = 0;

/// The address of the system actor.
pub fn system_actor_addr() -> (a: Address)
    ensures
        a@ == id_address(SYSTEM_ACTOR_ID),
{
    Address::new_id(SYSTEM_ACTOR_ID)
}

/// The name of the code of an account: the text `fil/5/account`.
pub open spec fn account_code_name() -> Seq<u8> {
    seq![102u8, 105u8, 108u8, 47u8, 53u8, 47u8, 97u8, 99u8, 99u8, 111u8, 117u8, 110u8, 116u8]
}

/// The bytes of an empty array in CBOR.
pub open spec fn empty_array_bytes() -> Seq<u8> {
    seq![0x80u8]
}

/// The identifier of the code of an account: raw data under the identity
/// hash, so that the digest is the name of the code itself.
pub open spec fn account_code_view() -> CidView {
    CidView { codec: IPLD_RAW, hash_code: IDENTITY_HASH, digest: account_code_name() }
}

/// The identifier of the code of an account.
pub fn account_code_cid() -> (c: Cid)
    ensures
        c@ == account_code_view(),
{
    let name: [u8; 13] = [102, 105, 108, 47, 53, 47, 97, 99, 99, 111, 117, 110, 116];
    let digest = bytes_copy(name.as_slice());
    assert(digest@ =~= account_code_name());
    Cid::new_v1(IPLD_RAW, IDENTITY_HASH, digest)
}

/// The identifier of the block that holds an empty CBOR array: the state of
/// an actor that has none yet. `None` only where BLAKE2b-256 is not to be
/// had.
pub fn empty_arr_cid() -> (r: Option<Cid>)
    ensures
        match r {
            Some(c) => block_cid(DAG_CBOR, BLAKE2B_256, empty_array_bytes()) == Some(c@),
            None => block_cid(DAG_CBOR, BLAKE2B_256, empty_array_bytes()) is None,
        },
{
    let empty: [u8; 1] = [0x80];
    assert(empty@ =~= empty_array_bytes());
    compute_cid(DAG_CBOR, BLAKE2B_256, empty.as_slice())
}

/// The record of an account that has just been created: the code of an
/// account, the empty state, no message sent and no tokens.
pub fn zero_state() -> (r: Option<ActorState>)
    ensures
        match r {
            Some(a) => block_cid(DAG_CBOR, BLAKE2B_256, empty_array_bytes()) == Some(a@.state)
                && a@ == (ActorStateView {
                code: account_code_view(),
                state: a@.state,
                sequence: 0,
                balance: 0,
            }),
            None => block_cid(DAG_CBOR, BLAKE2B_256, empty_array_bytes()) is None,
        },
{
    match empty_arr_cid() {
        Some(state) => Some(ActorState::new(account_code_cid(), state, 0, 0)),
        None => None,
    }
}

impl EngineConfig {
    /// The configuration with the given limits and prices, and with the code
    /// and the state of an account as this engine creates them.
    pub fn standard(max_call_depth: u32, price_list: PriceList) -> (r: Option<EngineConfig>)
        ensures
            match r {
                Some(c) => block_cid(DAG_CBOR, BLAKE2B_256, empty_array_bytes()) == Some(
                    c@.empty_state,
                ) && c@ == (ConfigView {
                    max_call_depth,
                    price_list,
                    account_code: account_code_view(),
                    empty_state: c@.empty_state,
                }),
                None => block_cid(DAG_CBOR, BLAKE2B_256, empty_array_bytes()) is None,
            },
    {
        match empty_arr_cid() {
            Some(empty_state) => Some(
                EngineConfig {
                    max_call_depth,
                    price_list,
                    account_code: account_code_cid(),
                    empty_state,
                },
            ),
            None => None,
        }
    }
}

} // verus!
