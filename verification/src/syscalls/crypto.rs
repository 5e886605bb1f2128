//! The system calls that hash and that check signatures.

use vstd::prelude::*;
use vstd::slice::slice_subrange;
use crate::address::{blake2b_256_spec, parse_address, Address, AddressView};
use crate::bytes::bytes_copy;
use crate::call_manager::{
    entry_failure, entry_view, verify_cost, CallManager, EngineView, Trap,
};
use crate::crypto::{verify_spec, Signature, SignatureType};
use crate::error::{ExecutionError, ExitCode, FailureView};
use crate::syscalls::{in_bounds, memory_with, or_trap, settled, try_slice, try_write};

verus! {

/// The length of the digest that `hash_blake2b` writes.
pub const BLAKE2B_256_LEN: u32 = 32;

/// How `hash_blake2b` ends: the failure that stops the running code, if
/// there is one.
pub open spec fn hash_failure(
    v: EngineView,
    memory_len: nat,
    data_off: u32,
    data_len: u32,
    obuf_off: u32,
) -> Option<FailureView> {
    if !in_bounds(memory_len, data_off, data_len) {
        Some(FailureView::Syscall(ExitCode::SysErrIllegalArgument))
    } else if entry_failure(v, v.config.price_list.spec_on_hashing(data_len as nat)) is Some {
        entry_failure(v, v.config.price_list.spec_on_hashing(data_len as nat))
    } else if !in_bounds(memory_len, obuf_off, BLAKE2B_256_LEN) {
        Some(FailureView::Syscall(ExitCode::SysErrIllegalArgument))
    } else {
        None
    }
}

/// How `hash_blake2b` ends, by the memory it is given.
pub open spec fn hash_blake2b_failure(
    v: EngineView,
    memory: Seq<u8>,
    data_off: u32,
    data_len: u32,
    obuf_off: u32,
) -> Option<FailureView> {
    hash_failure(v, memory.len(), data_off, data_len, obuf_off)
}

/// The call manager after `hash_blake2b`.
pub open spec fn hash_blake2b_view(
    v: EngineView,
    memory: Seq<u8>,
    data_off: u32,
    data_len: u32,
    obuf_off: u32,
) -> EngineView {
    settled(
        if in_bounds(memory.len(), data_off, data_len) {
            entry_view(v, v.config.price_list.spec_on_hashing(data_len as nat))
        } else {
            v
        },
        hash_failure(v, memory.len(), data_off, data_len, obuf_off),
    )
}

/// The memory after `hash_blake2b`: the digest is written where the call
/// succeeds, and nothing where it fails.
pub open spec fn hash_blake2b_memory(
    v: EngineView,
    memory: Seq<u8>,
    data_off: u32,
    data_len: u32,
    obuf_off: u32,
) -> Seq<u8> {
    if hash_failure(v, memory.len(), data_off, data_len, obuf_off) is None {
        memory_with(
            memory,
            obuf_off,
            blake2b_256_spec(memory.subrange(data_off as int, data_off + data_len)),
        )
    } else {
        memory
    }
}

/// Hashes the `data_len` bytes at `data_off` with BLAKE2b-256 and writes the
/// 32 bytes of the digest at `obuf_off`.
pub fn hash_blake2b(
    kernel: &mut CallManager,
    memory: &mut [u8],
    data_off: u32,
    data_len: u32,
    obuf_off: u32,
) -> (r: Result<(), Trap>)
    requires
        old(kernel).wf(),
    ensures
        final(kernel).wf(),
        final(memory)@.len() == old(memory)@.len(),
        (hash_blake2b_failure(old(kernel)@, old(memory)@, data_off, data_len, obuf_off) is None) == (r
            is Ok),
        final(kernel)@ == hash_blake2b_view(old(kernel)@, old(memory)@, data_off, data_len, obuf_off),
        final(memory)@ == hash_blake2b_memory(
            old(kernel)@,
            old(memory)@,
            data_off,
            data_len,
            obuf_off,
        ),
{
    let data = match try_slice(memory, data_off, data_len) {
        Ok(bytes) => bytes_copy(bytes),
        Err(e) => {
            return Err(kernel.fail(e));
        },
    };
    let outcome = kernel.hash_blake2b(data.as_slice());
    let digest = match or_trap(kernel, outcome) {
        Ok(digest) => digest,
        Err(trap) => {
            return Err(trap);
        },
    };
    let written = try_write(memory, obuf_off, digest.as_slice());
    or_trap(kernel, written)
}

/// The signature that a system call is handed in memory: a byte for the
/// scheme, 1 for secp256k1 and 2 for BLS, and then the bytes of the
/// signature.
pub open spec fn signature_argument(memory: Seq<u8>, offset: u32, len: u32) -> Option<
    (SignatureType, Seq<u8>),
> {
    if !in_bounds(memory.len(), offset, len) || len == 0 {
        None
    } else {
        let bytes = memory.subrange(offset as int, offset + len);
        if bytes[0] == 1 {
            Some((SignatureType::Secp256k1, bytes.skip(1)))
        } else if bytes[0] == 2 {
            Some((SignatureType::BLS, bytes.skip(1)))
        } else {
            None
        }
    }
}

/// The address that a system call is handed in memory.
pub open spec fn address_argument(memory: Seq<u8>, offset: u32, len: u32) -> Option<AddressView> {
    if in_bounds(memory.len(), offset, len) {
        match parse_address(memory.subrange(offset as int, offset + len)) {
            Ok(a) => Some(a),
            Err(_) => None,
        }
    } else {
        None
    }
}

fn read_signature(memory: &[u8], offset: u32, len: u32) -> (r: Option<Signature>)
    ensures
        match r {
            Some(s) => signature_argument(memory@, offset, len) == Some(
                (s.spec_type(), s.spec_bytes()),
            ),
            None => signature_argument(memory@, offset, len) is None,
        },
{
    let bytes = match try_slice(memory, offset, len) {
        Ok(bytes) => bytes,
        Err(_) => {
            return None;
        },
    };
    if bytes.len() == 0 {
        return None;
    }
    let body = slice_subrange(bytes, 1, bytes.len());
    assert(body@ =~= bytes@.skip(1));
    if bytes[0] == 1 {
        Some(Signature::new_secp256k1(bytes_copy(body)))
    } else if bytes[0] == 2 {
        Some(Signature::new_bls(bytes_copy(body)))
    } else {
        None
    }
}

fn read_address(memory: &[u8], offset: u32, len: u32) -> (r: Option<Address>)
    ensures
        match r {
            Some(a) => address_argument(memory@, offset, len) == Some(a@),
            None => address_argument(memory@, offset, len) is None,
        },
{
    match try_slice(memory, offset, len) {
        Ok(bytes) => match Address::from_bytes(bytes) {
            Ok(address) => Some(address),
            Err(_) => None,
        },
        Err(_) => None,
    }
}

/// Checks the signature at `sig_off` over the plaintext at `plaintext_off`
/// against the address at `signer_off`. An argument that cannot be read is
/// an illegal argument. A signature that does not verify is no failure: the
/// call returns false.
pub fn verify_signature(
    kernel: &mut CallManager,
    memory: &[u8],
    sig_off: u32,
    sig_len: u32,
    signer_off: u32,
    signer_len: u32,
    plaintext_off: u32,
    plaintext_len: u32,
) -> (r: Result<bool, Trap>)
    requires
        old(kernel).wf(),
    ensures
        final(kernel).wf(),
        ({
            let v = old(kernel)@;
            let signature = signature_argument(memory@, sig_off, sig_len);
            let signer = address_argument(memory@, signer_off, signer_len);
            let readable = signature is Some && signer is Some && in_bounds(
                memory@.len(),
                plaintext_off,
                plaintext_len,
            );
            let parts = signature->0;
            let cost = verify_cost(v.config.price_list, parts.0);
            let plaintext = memory@.subrange(plaintext_off as int, plaintext_off + plaintext_len);
            if !readable {
                r is Err && final(kernel)@ == settled(
                    v,
                    Some(FailureView::Syscall(ExitCode::SysErrIllegalArgument)),
                )
            } else {
                &&& final(kernel)@ == settled(entry_view(v, cost), entry_failure(v, cost))
                &&& entry_failure(v, cost) is Some ==> r is Err
                &&& entry_failure(v, cost) is None ==> r == Ok::<bool, Trap>(
                    verify_spec(parts.1, plaintext, signer->0) is Ok,
                )
            }
        }),
{
    let signature = read_signature(memory, sig_off, sig_len);
    let signer = read_address(memory, signer_off, signer_len);
    let plaintext = try_slice(memory, plaintext_off, plaintext_len);
    match (signature, signer, plaintext) {
        (Some(signature), Some(signer), Ok(plaintext)) => {
            let outcome = kernel.verify_signature(&signature, &signer, plaintext);
            or_trap(kernel, outcome)
        },
        _ => Err(
            kernel.fail(
                ExecutionError::syscall(ExitCode::SysErrIllegalArgument, "unreadable argument"),
            ),
        ),
    }
}

} // verus!
