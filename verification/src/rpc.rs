//! The settings of the node's Ethereum-compatible interface.

use vstd::prelude::*;

verus! {

/// How the node answers Ethereum-style queries.
#[derive(Clone, Copy, Debug, PartialEq, Eq)]
pub struct EthConfiguration {
    /// Maximum number of logs in a query.
    pub max_past_logs: u32,
    /// Maximum fee history cache size.
    pub fee_history_limit: u64,
    /// Whether the development signer is on.
    pub enable_dev_signer: bool,
    /// The factor of the block's gas limit that a call or an estimate may use.
    pub execute_gas_limit_multiplier: u64,
}

impl Default for EthConfiguration {
    /// The settings of a node that was given none.
    fn default() -> (config: Self)
        ensures
            config.max_past_logs == 10000,
            config.fee_history_limit == 2048,
            !config.enable_dev_signer,
            config.execute_gas_limit_multiplier == 10,
    {
        EthConfiguration {
            max_past_logs: 10000,
            fee_history_limit: 2048,
            enable_dev_signer: false,
            execute_gas_limit_multiplier: 10,
        }
    }
}

} // verus!
