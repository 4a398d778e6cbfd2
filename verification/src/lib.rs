//! Verified models of Filecoin built-in actor state and the arithmetic and
//! bookkeeping that inspects and updates it.

pub mod addr_map;
pub mod address;
pub mod balance_table;
pub mod batch;
pub mod bitfield;
pub mod id_map;
pub mod init_state;
pub mod eam;
pub mod error;
pub mod evm_actor;
pub mod evm_memory;
pub mod evm_modexp;
pub mod evm_precompiles;
pub mod evm_u256;
pub mod market;
pub mod miner_activation;
pub mod miner_batch;
pub mod miner_checks;
pub mod miner_cron;
pub mod miner_extension;
pub mod miner_flows;
pub mod miner_info;
pub mod miner_monies;
pub mod miner_policy;
pub mod miner_sectors;
pub mod multisig;
pub mod miner_state;
pub mod policy;
pub mod proofs;
pub mod reward_bootstrap;
pub mod text;
pub mod varint;
pub mod verifreg_state;

