//! Event records of the lender-group factory and of lender-group pools, one
//! per decoded log. Amounts are decimal texts and addresses raw bytes;
//! `evt_address` is the emitting pool as lower-case hex.
use vstd::prelude::*;

verus! {

/// The events of one block, grouped by kind, each list in log order.
#[derive(Clone, Debug, PartialEq, Default)]
pub struct Events {
    pub factory_admin_changeds: Vec<FactoryAdminChanged>,
    pub factory_beacon_upgradeds: Vec<FactoryBeaconUpgraded>,
    pub factory_deployed_lender_group_contracts: Vec<FactoryDeployedLenderGroupContract>,
    pub factory_upgradeds: Vec<FactoryUpgraded>,
    pub lendergroup_borrower_accepted_funds: Vec<LendergroupBorrowerAcceptedFunds>,
    pub lendergroup_defaulted_loan_liquidateds: Vec<LendergroupDefaultedLoanLiquidated>,
    pub lendergroup_earnings_withdrawns: Vec<LendergroupEarningsWithdrawn>,
    pub lendergroup_initializeds: Vec<LendergroupInitialized>,
    pub lendergroup_lender_added_principals: Vec<LendergroupLenderAddedPrincipal>,
    pub lendergroup_loan_repaids: Vec<LendergroupLoanRepaid>,
    pub lendergroup_ownership_transferreds: Vec<LendergroupOwnershipTransferred>,
    pub lendergroup_pauseds: Vec<LendergroupPaused>,
    pub lendergroup_pool_initializeds: Vec<LendergroupPoolInitialized>,
    pub lendergroup_unpauseds: Vec<LendergroupUnpaused>,
}

/// The factory changed its admin.
#[derive(Clone, Debug, PartialEq, Default)]
pub struct FactoryAdminChanged {
    pub evt_tx_hash: String,
    pub evt_index: u32,
    pub evt_block_time: u64,
    pub evt_block_number: u64,
    pub previous_admin: Vec<u8>,
    pub new_admin: Vec<u8>,
}

/// The factory upgraded its beacon.
#[derive(Clone, Debug, PartialEq, Default)]
pub struct FactoryBeaconUpgraded {
    pub evt_tx_hash: String,
    pub evt_index: u32,
    pub evt_block_time: u64,
    pub evt_block_number: u64,
    pub beacon: Vec<u8>,
}

/// The factory deployed a lender-group pool.
#[derive(Clone, Debug, PartialEq, Default)]
pub struct FactoryDeployedLenderGroupContract {
    pub evt_tx_hash: String,
    pub evt_index: u32,
    pub evt_block_time: u64,
    pub evt_block_number: u64,
    pub group_contract: Vec<u8>,
}

/// The factory was upgraded.
#[derive(Clone, Debug, PartialEq, Default)]
pub struct FactoryUpgraded {
    pub evt_tx_hash: String,
    pub evt_index: u32,
    pub evt_block_time: u64,
    pub evt_block_number: u64,
    pub implementation: Vec<u8>,
}

/// A borrower took a loan from a pool.
#[derive(Clone, Debug, PartialEq, Default)]
pub struct LendergroupBorrowerAcceptedFunds {
    pub evt_tx_hash: String,
    pub evt_index: u32,
    pub evt_block_time: u64,
    pub evt_block_number: u64,
    pub evt_address: String,
    pub borrower: Vec<u8>,
    pub bid_id: String,
    pub principal_amount: String,
    pub collateral_amount: String,
    pub loan_duration: u64,
    pub interest_rate: u64,
}

/// A defaulted loan of a pool was liquidated.
#[derive(Clone, Debug, PartialEq, Default)]
pub struct LendergroupDefaultedLoanLiquidated {
    pub evt_tx_hash: String,
    pub evt_index: u32,
    pub evt_block_time: u64,
    pub evt_block_number: u64,
    pub evt_address: String,
    pub bid_id: String,
    pub liquidator: Vec<u8>,
    pub amount_due: String,
    pub token_amount_difference: String,
}

/// A lender withdrew principal from a pool.
#[derive(Clone, Debug, PartialEq, Default)]
pub struct LendergroupEarningsWithdrawn {
    pub evt_tx_hash: String,
    pub evt_index: u32,
    pub evt_block_time: u64,
    pub evt_block_number: u64,
    pub evt_address: String,
    pub lender: Vec<u8>,
    pub amount_pool_shares_tokens: String,
    pub principal_tokens_withdrawn: String,
    pub recipient: Vec<u8>,
}

/// A pool contract was initialized at a version.
#[derive(Clone, Debug, PartialEq, Default)]
pub struct LendergroupInitialized {
    pub evt_tx_hash: String,
    pub evt_index: u32,
    pub evt_block_time: u64,
    pub evt_block_number: u64,
    pub evt_address: String,
    pub version: u64,
}

/// A lender added principal to a pool.
#[derive(Clone, Debug, PartialEq, Default)]
pub struct LendergroupLenderAddedPrincipal {
    pub evt_tx_hash: String,
    pub evt_index: u32,
    pub evt_block_time: u64,
    pub evt_block_number: u64,
    pub evt_address: String,
    pub lender: Vec<u8>,
    pub amount: String,
    pub shares_amount: String,
    pub shares_recipient: Vec<u8>,
}

/// A loan of a pool was repaid.
#[derive(Clone, Debug, PartialEq, Default)]
pub struct LendergroupLoanRepaid {
    pub evt_tx_hash: String,
    pub evt_index: u32,
    pub evt_block_time: u64,
    pub evt_block_number: u64,
    pub evt_address: String,
    pub bid_id: String,
    pub repayer: Vec<u8>,
    pub principal_amount: String,
    pub interest_amount: String,
    pub total_principal_repaid: String,
    pub total_interest_collected: String,
}

/// A pool changed owner.
#[derive(Clone, Debug, PartialEq, Default)]
pub struct LendergroupOwnershipTransferred {
    pub evt_tx_hash: String,
    pub evt_index: u32,
    pub evt_block_time: u64,
    pub evt_block_number: u64,
    pub evt_address: String,
    pub previous_owner: Vec<u8>,
    pub new_owner: Vec<u8>,
}

/// A pool was paused.
#[derive(Clone, Debug, PartialEq, Default)]
pub struct LendergroupPaused {
    pub evt_tx_hash: String,
    pub evt_index: u32,
    pub evt_block_time: u64,
    pub evt_block_number: u64,
    pub evt_address: String,
    pub account: Vec<u8>,
}

/// A pool was configured; the last addresses are read from the pool.
#[derive(Clone, Debug, PartialEq, Default)]
pub struct LendergroupPoolInitialized {
    pub evt_tx_hash: String,
    pub evt_index: u32,
    pub evt_block_time: u64,
    pub evt_block_number: u64,
    pub evt_address: String,
    pub principal_token_address: Vec<u8>,
    pub collateral_token_address: Vec<u8>,
    pub market_id: String,
    pub max_loan_duration: u64,
    pub interest_rate_lower_bound: u64,
    pub interest_rate_upper_bound: u64,
    pub liquidity_threshold_percent: u64,
    pub loan_to_value_percent: u64,
    pub uniswap_pool_fee: u64,
    pub twap_interval: u64,
    pub pool_shares_token: Vec<u8>,
    pub uniswap_v3_pool_address: Vec<u8>,
    pub teller_v2_address: Vec<u8>,
    pub smart_commitment_forwarder_address: Vec<u8>,
}

/// A pool was unpaused.
#[derive(Clone, Debug, PartialEq, Default)]
pub struct LendergroupUnpaused {
    pub evt_tx_hash: String,
    pub evt_index: u32,
    pub evt_block_time: u64,
    pub evt_block_number: u64,
    pub evt_address: String,
    pub account: Vec<u8>,
}

} // verus!
