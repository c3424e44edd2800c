//! Default settings of the rollup operator and of the network it runs on.

use vstd::prelude::*;

verus! {

/// The settings of a rollup operator.
#[derive(Clone, Debug)]
pub struct ZkRollupConfig {
    pub chain_id: u32,
    pub contract_address: Vec<u8>,
    pub min_stake: u128,
    pub max_validators: u32,
    pub max_transactions_per_batch: u32,
    /// In milliseconds.
    pub batch_submission_interval: u64,
    /// In milliseconds.
    pub proof_generation_timeout: u64,
    pub min_confirmations: u32,
    pub rpc_endpoint: String,
    pub ws_endpoint: String,
    pub operator_address: Vec<u8>,
    pub private_key: Vec<u8>,
    pub state_db_path: String,
    pub proof_params_path: String,
}

impl Default for ZkRollupConfig {
    fn default() -> (config: Self)
        ensures
            config.chain_id == 1,
            config.contract_address@ == Seq::<u8>::empty(),
            config.min_stake == 1000,
            config.max_validators == 100,
            config.max_transactions_per_batch == 1000,
            config.batch_submission_interval == 60_000,
            config.proof_generation_timeout == 30_000,
            config.min_confirmations == 6,
            config.rpc_endpoint@ == "http://localhost:9933"@,
            config.ws_endpoint@ == "ws://localhost:9944"@,
            config.operator_address@ == Seq::<u8>::empty(),
            config.private_key@ == Seq::<u8>::empty(),
            config.state_db_path@ == "./state_db"@,
            config.proof_params_path@ == "./proof_params"@,
    {
        ZkRollupConfig {
            chain_id: 1,
            contract_address: Vec::new(),
            min_stake: 1000,
            max_validators: 100,
            max_transactions_per_batch: 1000,
            batch_submission_interval: 60_000,
            proof_generation_timeout: 30_000,
            min_confirmations: 6,
            rpc_endpoint: "http://localhost:9933".to_owned(),
            ws_endpoint: "ws://localhost:9944".to_owned(),
            operator_address: Vec::new(),
            private_key: Vec::new(),
            state_db_path: "./state_db".to_owned(),
            proof_params_path: "./proof_params".to_owned(),
        }
    }
}

/// The parameters of the network that the rollup runs on.
#[derive(Clone, Copy, Debug, PartialEq, Eq, Structural)]
pub struct NetworkParameters {
    /// In milliseconds.
    pub block_time: u64,
    pub epoch_length: u32,
    pub max_block_size: u32,
    pub max_state_size: u64,
    pub challenge_period: u32,
}

impl Default for NetworkParameters {
    fn default() -> (parameters: Self)
        ensures
            parameters == (NetworkParameters {
                block_time: 3_000,
                epoch_length: 4_800,
                max_block_size: 5_242_880,
                max_state_size: 1_073_741_824,
                challenge_period: 100,
            }),
    {
        NetworkParameters {
            block_time: 3_000,
            epoch_length: 4_800,
            max_block_size: 5_242_880,
            max_state_size: 1_073_741_824,
            challenge_period: 100,
        }
    }
}

} // verus!
