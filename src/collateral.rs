//! Event records of the collateral manager, one per decoded log.
use vstd::prelude::*;

verus! {

/// The collateral-manager events of one block, each list in log order.
#[derive(Clone, Debug, PartialEq, Default)]
pub struct Events {
    pub collateral_manager_collateral_escrow_deployeds: Vec<CollateralmanagerCollateralEscrowDeployed>,
    pub collateral_manager_collateral_deposited: Vec<CollateralmanagerCollateralDeposited>,
    pub collateral_manager_collateral_withdrawn: Vec<CollateralmanagerCollateralWithdrawn>,
}

/// An escrow was deployed for a bid.
#[derive(Clone, Debug, PartialEq, Default)]
pub struct CollateralmanagerCollateralEscrowDeployed {
    pub evt_tx_hash: String,
    pub evt_index: u32,
    pub evt_block_time: u64,
    pub evt_block_number: u64,
    pub bid_id: String,
    pub collateral_escrow: Vec<u8>,
}

/// Collateral was deposited for a bid.
#[derive(Clone, Debug, PartialEq, Default)]
pub struct CollateralmanagerCollateralDeposited {
    pub evt_tx_hash: String,
    pub evt_index: u32,
    pub evt_block_time: u64,
    pub evt_block_number: u64,
    pub bid_id: String,
    pub collateral_type: u32,
    pub collateral_address: Vec<u8>,
    pub amount: String,
    pub token_id: String,
}

/// Collateral was withdrawn from a bid.
#[derive(Clone, Debug, PartialEq, Default)]
pub struct CollateralmanagerCollateralWithdrawn {
    pub evt_tx_hash: String,
    pub evt_index: u32,
    pub evt_block_time: u64,
    pub evt_block_number: u64,
    pub bid_id: String,
    pub collateral_type: u32,
    pub collateral_address: Vec<u8>,
    pub amount: String,
    pub token_id: String,
    pub recipient: Vec<u8>,
}

} // verus!
