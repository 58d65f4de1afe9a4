//! The standard token contract: a named supply with per-address balances.

use vstd::prelude::*;

verus! {

use crate::contract::{ContractMetadata, ContractMethod, ContractParam, MethodType};
use crate::table::{spec_table_get, spec_table_view, table_get, table_set};
use crate::contract::ContractError;

/// A token: name, symbol, supply, and per-address balances.
#[derive(Debug)]
pub struct Token {
    /// Token name.
    pub name: String,
    /// Token symbol.
    pub symbol: String,
    /// Token decimals.
    pub decimals: u8,
    /// Total supply.
    pub total_supply: u64,
    /// Token owner.
    pub owner: String,
    /// Balances by address; each address holds at most one entry.
    pub balances: Vec<(String, u64)>,
    /// Allowances by owner and spender; reserved for delegated transfers.
    pub allowances: Vec<(String, Vec<(String, u64)>)>,
}

impl Token {
    /// The balances table.
    pub open spec fn balances_view(&self) -> Seq<(Seq<char>, u64)> {
        spec_table_view(self.balances@)
    }

    /// Create a token whose whole initial supply is held by the owner.
    pub fn new(name: String, symbol: String, decimals: u8, initial_supply: u64, owner: String) -> (r:
        Token)
        ensures
            r.name == name,
            r.symbol == symbol,
            r.decimals == decimals,
            r.total_supply == initial_supply,
            r.owner == owner,
            spec_table_get(r.balances_view(), owner@) == initial_supply,
            forall|a: Seq<char>| a != owner@ ==> spec_table_get(r.balances_view(), a) == 0,
            r.allowances@.len() == 0,
    {
        let mut balances: Vec<(String, u64)> = Vec::new();
        table_set(&mut balances, owner.as_str(), initial_supply);
        proof {
            assert(spec_table_view(Seq::<(String, u64)>::empty()) =~= Seq::<
                (Seq<char>, u64),
            >::empty());
        }
        Token {
            name,
            symbol,
            decimals,
            total_supply: initial_supply,
            owner,
            balances,
            allowances: Vec::new(),
        }
    }

    /// What this contract publishes about itself: its two methods,
    /// `transfer` and `balance_of`.
    pub fn metadata() -> (r: ContractMetadata)
        ensures
            r.name@ == "HyperNova Token"@,
            r.version@ == "0.1.0"@,
            r.methods@.len() == 2,
            r.methods@[0].name@ == "transfer"@,
            r.methods@[0].method_type == MethodType::Execute,
            r.methods@[0].params@.len() == 2,
            r.methods@[1].name@ == "balance_of"@,
            r.methods@[1].method_type == MethodType::Query,
            r.methods@[1].params@.len() == 1,
    {
        let mut transfer_params: Vec<ContractParam> = Vec::new();
        transfer_params.push(
            ContractParam {
                name: "to".to_owned(),
                param_type: "string".to_owned(),
                description: "Recipient address".to_owned(),
            },
        );
        transfer_params.push(
            ContractParam {
                name: "amount".to_owned(),
                param_type: "u64".to_owned(),
                description: "Amount to transfer".to_owned(),
            },
        );
        let mut balance_params: Vec<ContractParam> = Vec::new();
        balance_params.push(
            ContractParam {
                name: "address".to_owned(),
                param_type: "string".to_owned(),
                description: "Address to query".to_owned(),
            },
        );
        let mut methods: Vec<ContractMethod> = Vec::new();
        methods.push(
            ContractMethod {
                name: "transfer".to_owned(),
                method_type: MethodType::Execute,
                description: "Transfer tokens to another address".to_owned(),
                params: transfer_params,
                return_type: "bool".to_owned(),
            },
        );
        methods.push(
            ContractMethod {
                name: "balance_of".to_owned(),
                method_type: MethodType::Query,
                description: "Get the balance of an address".to_owned(),
                params: balance_params,
                return_type: "u64".to_owned(),
            },
        );
        ContractMetadata {
            name: "HyperNova Token".to_owned(),
            version: "0.1.0".to_owned(),
            author: "HyperNova Chain Team".to_owned(),
            description: "Standard token implementation for HyperNova Chain".to_owned(),
            methods,
        }
    }

    /// Transfer tokens from the owner to an address. Fails when the owner's
    /// balance does not cover the amount; on failure nothing changes.
    pub fn transfer(&mut self, to: String, amount: u64) -> (r: Result<bool, ContractError>)
        requires
            to@ != old(self).owner@ ==> spec_table_get(old(self).balances_view(), to@) + amount
                <= u64::MAX,
        ensures
            spec_table_get(old(self).balances_view(), old(self).owner@) < amount ==> r is Err
                && r->Err_0 is InsufficientFunds && final(self).balances_view() == old(
                self,
            ).balances_view(),
            spec_table_get(old(self).balances_view(), old(self).owner@) >= amount ==> r
                == Ok::<bool, ContractError>(true) && ({
                let b0 = old(self).balances_view();
                let b1 = final(self).balances_view();
                let owner = old(self).owner@;
                &&& (to@ == owner ==> spec_table_get(b1, owner) == spec_table_get(b0, owner))
                &&& (to@ != owner ==> spec_table_get(b1, owner) == spec_table_get(b0, owner)
                    - amount && spec_table_get(b1, to@) == spec_table_get(b0, to@) + amount)
                &&& forall|a: Seq<char>|
                    a != owner && a != to@ ==> spec_table_get(b1, a) == spec_table_get(b0, a)
            }),
            final(self).name == old(self).name,
            final(self).symbol == old(self).symbol,
            final(self).decimals == old(self).decimals,
            final(self).total_supply == old(self).total_supply,
            final(self).owner == old(self).owner,
    {
        let from_balance = table_get(&self.balances, self.owner.as_str());
        if from_balance < amount {
            return Err(ContractError::InsufficientFunds("insufficient balance".to_owned()));
        }
        let owner = self.owner.clone();
        table_set(&mut self.balances, owner.as_str(), from_balance - amount);
        let to_balance = table_get(&self.balances, to.as_str());
        table_set(&mut self.balances, to.as_str(), to_balance + amount);
        Ok(true)
    }

    /// The balance of an address, 0 where none is registered.
    pub fn balance_of(&self, address: String) -> (r: Result<u64, ContractError>)
        ensures
            r == Ok::<u64, ContractError>(spec_table_get(self.balances_view(), address@)),
    {
        Ok(table_get(&self.balances, address.as_str()))
    }
}

} // verus!
