//! The smart-contract interface: the contract capability set, the metadata
//! a contract describes itself with, and the contract error taxonomy.

use vstd::prelude::*;

verus! {

use crate::context::Context;

/// Smart contract error kinds.
#[derive(Debug, Clone)]
pub enum ContractError {
    /// A result could not be serialized.
    Serialization(String),
    /// An argument could not be deserialized.
    Deserialization(String),
    /// The contract's storage failed.
    Storage(String),
    /// The caller is not allowed to do this.
    Unauthorized(String),
    /// An argument is out of range or malformed.
    InvalidArgument(String),
    /// The named method does not exist.
    MethodNotFound(String),
    /// The balance does not cover the transfer.
    InsufficientFunds(String),
    /// The gas limit is exhausted.
    OutOfGas,
    /// A contract-specific failure.
    ContractError(String),
    /// An AI-model-specific failure.
    AIModelError(String),
}

/// A smart contract: initialized once, driven by `execute` calls that may
/// change state and `query` calls that may not.
pub trait Contract<S>: Sized {
    /// Initialize the contract under the given context.
    fn init(&mut self, ctx: &mut Context<S>) -> (r: Result<(), ContractError>);

    /// Execute a state-changing method.
    fn execute(&mut self, ctx: &mut Context<S>, method: &str, args: &[u8]) -> (r: Result<
        Vec<u8>,
        ContractError,
    >);

    /// Query contract state.
    fn query(&self, ctx: &Context<S>, method: &str, args: &[u8]) -> (r: Result<
        Vec<u8>,
        ContractError,
    >);
}

/// What a contract publishes about itself.
#[derive(Debug)]
pub struct ContractMetadata {
    /// Contract name.
    pub name: String,
    /// Contract version.
    pub version: String,
    /// Contract author.
    pub author: String,
    /// Contract description.
    pub description: String,
    /// The methods the contract supports.
    pub methods: Vec<ContractMethod>,
}

/// One method of a contract.
#[derive(Debug)]
pub struct ContractMethod {
    /// Method name.
    pub name: String,
    /// Whether the method executes or queries.
    pub method_type: MethodType,
    /// Method description.
    pub description: String,
    /// The parameters the method takes.
    pub params: Vec<ContractParam>,
    /// The type the method returns.
    pub return_type: String,
}

/// Whether a method changes state.
#[derive(Debug, Clone, Copy, PartialEq, Eq, Structural)]
pub enum MethodType {
    /// The method modifies contract state.
    Execute,
    /// The method only reads contract state.
    Query,
}

/// One parameter of a contract method.
#[derive(Debug)]
pub struct ContractParam {
    /// Parameter name.
    pub name: String,
    /// Parameter type, as text.
    pub param_type: String,
    /// Parameter description.
    pub description: String,
}

} // verus!
