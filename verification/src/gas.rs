//! Gas accounting for one top-level message.

use vstd::prelude::*;

verus! {

/// The fault raised when a charge does not fit in the remaining budget.
#[derive(Clone, Copy, Debug, PartialEq, Eq, Structural)]
pub struct OutOfGas {
    /// Gas that was still available when the charge was refused.
    pub available: u64,
    /// Gas that the refused operation asked for.
    pub required: u64,
}

/// The budget of one message, shared by every frame of its call stack.
#[derive(Clone, Copy, Debug, PartialEq, Eq, Structural)]
pub struct GasTracker {
    limit: u64,
    used: u64,
}

impl GasTracker {
    /// The tracker never records more gas than its limit.
    pub open spec fn wf(&self) -> bool {
        self.spec_used() <= self.spec_limit()
    }

    /// The gas limit of the message.
    pub closed spec fn spec_limit(&self) -> u64 {
        self.limit
    }

    /// The gas used so far.
    pub closed spec fn spec_used(&self) -> u64 {
        self.used
    }

    /// The gas that is left.

    pub open spec fn spec_available(&self) -> nat {
        (self.spec_limit() - self.spec_used()) as nat
    }

    /// A fresh tracker with nothing used.
    pub fn new(limit: u64) -> (t: GasTracker)
        ensures
            t.wf(),
            t.spec_limit() == limit,
            t.spec_used() == 0,
    {
        GasTracker { limit, used: 0 }
    }

    pub fn gas_limit(&self) -> (l: u64)
        ensures
            l == self.spec_limit(),
    {
        self.limit
    }

    pub fn gas_used(&self) -> (u: u64)
        ensures
            u == self.spec_used(),
    {
        self.used
    }

    pub fn gas_available(&self) -> (a: u64)
        requires
            self.wf(),
        ensures
            a == self.spec_available(),
    {
        self.limit - self.used
    }

    /// Takes `amount` from the budget. A charge that fits is added to the gas
    /// used; one that does not fit uses up the whole budget and is refused.
    pub fn charge(&mut self, amount: u64) -> (r: Result<(), OutOfGas>)
        requires
            old(self).wf(),
        ensures
            final(self).wf(),
            final(self).spec_limit() == old(self).spec_limit(),
            old(self).spec_used() <= final(self).spec_used(),
            r is Ok <==> amount <= old(self).spec_available(),
            r is Ok ==> final(self).spec_used() == old(self).spec_used() + amount,
            r matches Err(e) ==> {
                &&& final(self).spec_used() == old(self).spec_limit()
                &&& e.available == old(self).spec_available()
                &&& e.required == amount
            },
    {
        let available = self.limit - self.used;
        if amount <= available {
            self.used = self.used + amount;
            Ok(())
        } else {
            self.used = self.limit;
            Err(OutOfGas { available, required: amount })
        }
    }
}

/// The sum of two costs, held at the largest cost where it would pass it.
pub open spec fn saturating_sum(a: u64, b: u64) -> u64 {
    if a + b > u64::MAX {
        u64::MAX
    } else {
        (a + b) as u64
    }
}

/// A base cost and a cost for each of `n` units, held at the largest cost
/// where the sum would pass it.
pub open spec fn linear_cost(base: u64, per_unit: u64, n: nat) -> u64 {
    if base + per_unit * n > u64::MAX {
        u64::MAX
    } else {
        (base + per_unit * n) as u64
    }
}

/// Computes `linear_cost`.
pub fn linear_cost_of(base: u64, per_unit: u64, n: usize) -> (c: u64)
    ensures
        c == linear_cost(base, per_unit, n as nat),
{
    let wide: u128 = per_unit as u128;
    let count: u128 = n as u128;
    assert(wide * count <= 0xFFFF_FFFF_FFFF_FFFF * 0xFFFF_FFFF_FFFF_FFFF) by (nonlinear_arith)
        requires
            0 <= wide <= 0xFFFF_FFFF_FFFF_FFFF,
            0 <= count <= 0xFFFF_FFFF_FFFF_FFFF,
    ;
    let total: u128 = base as u128 + wide * count;
    if total > u64::MAX as u128 {
        u64::MAX
    } else {
        total as u64
    }
}

/// The cost of each kind of operation. Every cost depends on nothing but
/// the operation's own inputs.
#[derive(Clone, Copy, Debug, PartialEq, Eq, Structural)]
pub struct PriceList {
    /// Any operation of the kernel that only reads the running invocation.
    pub syscall_base: u64,
    /// Sending a message.
    pub send_base: u64,
    /// Added where a message moves tokens.
    pub send_transfer_funds: u64,
    /// Added where a message runs a method of the receiver.
    pub send_invoke_method: u64,
    /// Creating the record of an account on first transfer.
    pub create_actor: u64,
    /// Reading the record of the running actor.
    pub state_read: u64,
    /// Changing the record of the running actor.
    pub state_write: u64,
    /// Deleting the running actor.
    pub self_destruct: u64,
    /// Reading a block.
    pub block_read_base: u64,
    /// Writing a block, and for each byte of it.
    pub block_write_base: u64,
    pub block_write_per_byte: u64,
    /// Hashing, and for each byte hashed.
    pub hashing_base: u64,
    pub hashing_per_byte: u64,
    /// Checking a secp256k1 signature.
    pub verify_secp256k1: u64,
    /// Checking a BLS signature, and for each signer of an aggregate.
    pub verify_bls: u64,
}

impl PriceList {
    /// The cost of sending a message that moves `value` to method `method`.
    pub open spec fn spec_on_send(&self, value: u128, method: u64) -> u64 {
        saturating_sum(
            saturating_sum(
                self.send_base,
                if value > 0 {
                    self.send_transfer_funds
                } else {
                    0
                },
            ),
            if method != 0 {
                self.send_invoke_method
            } else {
                0
            },
        )
    }

    /// The cost of sending a message that moves `value` to method `method`.
    pub fn on_send(&self, value: u128, method: u64) -> (c: u64)
        ensures
            c == self.spec_on_send(value, method),
    {
        let transfer = if value > 0 {
            self.send_transfer_funds
        } else {
            0
        };
        let invoke = if method != 0 {
            self.send_invoke_method
        } else {
            0
        };
        self.send_base.saturating_add(transfer).saturating_add(invoke)
    }

    /// The cost of hashing `len` bytes.
    pub open spec fn spec_on_hashing(&self, len: nat) -> u64 {
        linear_cost(self.hashing_base, self.hashing_per_byte, len)
    }

    /// The cost of hashing `len` bytes.
    pub fn on_hashing(&self, len: usize) -> (c: u64)
        ensures
            c == self.spec_on_hashing(len as nat),
    {
        linear_cost_of(self.hashing_base, self.hashing_per_byte, len)
    }

    /// The cost of writing a block of `len` bytes.
    pub open spec fn spec_on_block_write(&self, len: nat) -> u64 {
        linear_cost(self.block_write_base, self.block_write_per_byte, len)
    }

    /// The cost of writing a block of `len` bytes.
    pub fn on_block_write(&self, len: usize) -> (c: u64)
        ensures
            c == self.spec_on_block_write(len as nat),
    {
        linear_cost_of(self.block_write_base, self.block_write_per_byte, len)
    }

    /// The cost of checking an aggregate BLS signature of `signers` signers.
    pub open spec fn spec_on_verify_aggregate(&self, signers: nat) -> u64 {
        linear_cost(0, self.verify_bls, signers)
    }

    /// The cost of checking an aggregate BLS signature of `signers` signers.
    pub fn on_verify_aggregate(&self, signers: usize) -> (c: u64)
        ensures
            c == self.spec_on_verify_aggregate(signers as nat),
    {
        linear_cost_of(0, self.verify_bls, signers)
    }

    /// A price list that charges nothing.
    pub fn free() -> (p: PriceList)
        ensures
            p == Self::spec_free(),
    {
        PriceList {
            syscall_base: 0,
            send_base: 0,
            send_transfer_funds: 0,
            send_invoke_method: 0,
            create_actor: 0,
            state_read: 0,
            state_write: 0,
            self_destruct: 0,
            block_read_base: 0,
            block_write_base: 0,
            block_write_per_byte: 0,
            hashing_base: 0,
            hashing_per_byte: 0,
            verify_secp256k1: 0,
            verify_bls: 0,
        }
    }

    /// The price list that charges nothing.
    pub open spec fn spec_free() -> PriceList {
        PriceList {
            syscall_base: 0,
            send_base: 0,
            send_transfer_funds: 0,
            send_invoke_method: 0,
            create_actor: 0,
            state_read: 0,
            state_write: 0,
            self_destruct: 0,
            block_read_base: 0,
            block_write_base: 0,
            block_write_per_byte: 0,
            hashing_base: 0,
            hashing_per_byte: 0,
            verify_secp256k1: 0,
            verify_bls: 0,
        }
    }
}

} // verus!
