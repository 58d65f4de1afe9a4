//! The execution context a smart contract runs under: caller, block
//! coordinates, a storage handle, and a gas meter.

use vstd::prelude::*;

verus! {

/// The execution context of one contract call.
#[derive(Debug)]
pub struct Context<S> {
    /// The calling address.
    pub caller: String,
    /// The contract's own address.
    pub contract_address: String,
    /// The height of the block the call runs in.
    pub block_height: u64,
    /// The timestamp of the block the call runs in.
    pub block_timestamp: u64,
    /// The hash of the carrying transaction.
    pub tx_hash: String,
    /// The contract's storage.
    pub storage: S,
    /// The gas limit of the call.
    pub gas_limit: u64,
    /// The gas used so far.
    pub gas_used: u64,
}

impl<S> Context<S> {
    /// Create a context with no gas used yet.
    pub fn new(
        caller: String,
        contract_address: String,
        block_height: u64,
        block_timestamp: u64,
        tx_hash: String,
        storage: S,
        gas_limit: u64,
    ) -> (r: Context<S>)
        ensures
            r.caller == caller,
            r.contract_address == contract_address,
            r.block_height == block_height,
            r.block_timestamp == block_timestamp,
            r.tx_hash == tx_hash,
            r.storage == storage,
            r.gas_limit == gas_limit,
            r.gas_used == 0,
    {
        Context {
            caller,
            contract_address,
            block_height,
            block_timestamp,
            tx_hash,
            storage,
            gas_limit,
            gas_used: 0,
        }
    }

    /// Whether the caller is the contract owner. Ownership records are not
    /// kept yet, so every caller is treated as the owner.
    pub fn is_owner(&self) -> (r: bool)
        ensures
            r,
    {
        true
    }

    /// Consume gas. Fails on arithmetic overflow of the meter, and when
    /// the limit would be exceeded; on failure the meter is unchanged.
    pub fn use_gas(&mut self, amount: u64) -> (r: Result<(), String>)
        ensures
            old(self).gas_used + amount > u64::MAX ==> r is Err && r->Err_0@ == "Gas overflow"@
                && final(self).gas_used == old(self).gas_used,
            old(self).gas_used + amount <= u64::MAX && old(self).gas_used + amount > old(
                self,
            ).gas_limit ==> r is Err && r->Err_0@ == "Out of gas"@ && final(self).gas_used == old(
                self,
            ).gas_used,
            old(self).gas_used + amount <= u64::MAX && old(self).gas_used + amount <= old(
                self,
            ).gas_limit ==> r is Ok && final(self).gas_used == old(self).gas_used + amount,
            final(self).caller == old(self).caller,
            final(self).contract_address == old(self).contract_address,
            final(self).block_height == old(self).block_height,
            final(self).block_timestamp == old(self).block_timestamp,
            final(self).tx_hash == old(self).tx_hash,
            final(self).storage == old(self).storage,
            final(self).gas_limit == old(self).gas_limit,
    {
        let new_gas_used = match self.gas_used.checked_add(amount) {
            Some(v) => v,
            None => {
                return Err("Gas overflow".to_owned());
            },
        };
        if new_gas_used > self.gas_limit {
            return Err("Out of gas".to_owned());
        }
        self.gas_used = new_gas_used;
        Ok(())
    }

    /// The gas still available: the limit less what is used, and 0 where
    /// the meter stands past the limit.
    pub fn remaining_gas(&self) -> (r: u64)
        ensures
            self.gas_used <= self.gas_limit ==> r == self.gas_limit - self.gas_used,
            self.gas_used > self.gas_limit ==> r == 0,
    {
        self.gas_limit.saturating_sub(self.gas_used)
    }
}

} // verus!
