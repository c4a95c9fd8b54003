//! The event extractor: selects the logs of the tracked contracts in a block
//! and turns each into an event record. Factory and collateral-manager logs
//! are selected by their fixed address, pool logs by the registry of deployed
//! pools, at the log's own position.
use vstd::prelude::*;
use crate::block::{
    extends_with, lemma_extends_empty, lemma_extends_push, lemma_select_step, select, Block, Log,
    LogEvent,
};
use crate::collateral;
use crate::collateral::CollateralmanagerCollateralWithdrawn;
use crate::contract::{
    Events, FactoryDeployedLenderGroupContract, LendergroupBorrowerAcceptedFunds,
    LendergroupDefaultedLoanLiquidated, LendergroupEarningsWithdrawn, LendergroupInitialized,
    LendergroupLenderAddedPrincipal, LendergroupLoanRepaid, LendergroupOwnershipTransferred,
    LendergroupPaused, LendergroupPoolInitialized, LendergroupUnpaused,
};
use crate::registry::{before_position, recorded, AddressRegistry};
use crate::text::{be_value, bigint_from_be_bytes, hex_of, hex_text, int_text};

verus! {

/// The factory that deploys lender-group pools.
pub open spec fn factory_contract() -> Seq<u8> {
    seq![
        0x44u8, 0xCE, 0x8F, 0xA6, 0x6D, 0x6E, 0xDF, 0x0C, 0x5C, 0x66,
        0x8B, 0x81, 0x8A, 0x92, 0x2E, 0x77, 0x2C, 0x72, 0x56, 0x8B,
    ]
}

/// The collateral manager whose withdrawals are tracked.
pub open spec fn collateral_manager_contract() -> Seq<u8> {
    seq![
        0x76u8, 0x88, 0x8A, 0x88, 0x2A, 0x4F, 0xF5, 0x74, 0x55, 0xB5,
        0xE5, 0xB7, 0x4B, 0x79, 0x1D, 0xD1, 0x9D, 0xF3, 0xBA, 0x51,
    ]
}

fn factory_contract_bytes() -> (r: Vec<u8>)
    ensures
        r@ == factory_contract(),
{
    let r = vec![
        0x44u8, 0xCE, 0x8F, 0xA6, 0x6D, 0x6E, 0xDF, 0x0C, 0x5C, 0x66,
        0x8B, 0x81, 0x8A, 0x92, 0x2E, 0x77, 0x2C, 0x72, 0x56, 0x8B,
    ];
    assert(r@ =~= factory_contract());
    r
}

fn collateral_manager_contract_bytes() -> (r: Vec<u8>)
    ensures
        r@ == collateral_manager_contract(),
{
    let r = vec![
        0x76u8, 0x88, 0x8A, 0x88, 0x2A, 0x4F, 0xF5, 0x74, 0x55, 0xB5,
        0xE5, 0xB7, 0x4B, 0x79, 0x1D, 0xD1, 0x9D, 0xF3, 0xBA, 0x51,
    ];
    assert(r@ =~= collateral_manager_contract());
    r
}

/// Whether two byte strings are equal.
pub fn bytes_equal(a: &[u8], b: &[u8]) -> (r: bool)
    ensures
        r == (a@ == b@),
{
    if a.len() != b.len() {
        return false;
    }
    let mut i: usize = 0;
    while i < a.len()
        invariant
            a@.len() == b@.len(),
            i <= a@.len(),
            forall|j: int| 0 <= j < i ==> a@[j] == b@[j],
        decreases a@.len() - i,
    {
        if a[i] != b[i] {
            return false;
        }
        i = i + 1;
    }
    assert(a@ =~= b@);
    true
}

/// The fields every record takes from its log and block.
pub open spec fn header_matches(
    tx_hash: String,
    index: u32,
    time: u64,
    number: u64,
    l: Log,
    blk: &Block,
) -> bool {
    &&& tx_hash@ == hex_text(l.tx_hash@)
    &&& index == l.block_index
    &&& time == blk.timestamp_seconds
    &&& number == blk.number
}

/// A factory log announcing a deployed pool.
pub open spec fn is_factory_deploy(l: Log) -> bool {
    l.address@ == factory_contract() && l.event is DeployedLenderGroupContract
}

/// `is_factory_deploy` as a predicate value.
pub open spec fn factory_deploy_filter() -> spec_fn(Log) -> bool {
    |l: Log| is_factory_deploy(l)
}

/// The factory logs of a block that announce deployed pools.
pub open spec fn factory_deploy_logs(blk: &Block) -> Seq<Log> {
    select(blk.logs@, factory_deploy_filter())
}

/// A deployment record made from its log.
pub open spec fn factory_deploy_matches(blk: &Block) -> spec_fn(FactoryDeployedLenderGroupContract, Log) -> bool {
    |r: FactoryDeployedLenderGroupContract, l: Log| {
        &&& header_matches(r.evt_tx_hash, r.evt_index, r.evt_block_time, r.evt_block_number, l, blk)
        &&& l.event matches LogEvent::DeployedLenderGroupContract { group_contract }
        &&& r.group_contract@ == group_contract@
    }
}

/// The address, as lower-case hex, of the pool a deployment log announces.
pub open spec fn deployed_address(l: Log) -> Seq<char> {
    match l.event {
        LogEvent::DeployedLenderGroupContract { group_contract } => hex_text(group_contract@),
        _ => Seq::empty(),
    }
}

/// Whether a log comes from a pool registered strictly before the log.
pub open spec fn from_registered_pool(reg: Map<Seq<char>, (u64, u64)>, blk: &Block, l: Log) -> bool {
    &&& reg.contains_key(hex_text(l.address@))
    &&& before_position(reg[hex_text(l.address@)], blk.number, l.ordinal)
}

/// A pool-initialization read: the addresses a pool was configured with.
pub struct LenderGroupPoolInitializationDataFromRpc {
    pub teller_v2_address: Vec<u8>,
    pub smart_commitment_forwarder_address: Vec<u8>,
}

/// The outcome of the initialization read of one pool; `None` when it failed.
pub struct PoolInitializationRead {
    pub pool_address: String,
    pub data: Option<LenderGroupPoolInitializationDataFromRpc>,
}

/// The outcome of the first read for a pool, if there is one.
pub open spec fn read_for(
    reads: Seq<PoolInitializationRead>,
    pool: Seq<char>,
) -> Option<Option<LenderGroupPoolInitializationDataFromRpc>>
    decreases reads.len(),
{
    if reads.len() == 0 {
        None
    } else if reads[0].pool_address@ == pool {
        Some(reads[0].data)
    } else {
        read_for(reads.drop_first(), pool)
    }
}

/// Whether the initialization read of a pool succeeded.
pub open spec fn read_succeeded(reads: Seq<PoolInitializationRead>, pool: Seq<char>) -> bool {
    read_for(reads, pool) matches Some(Some(_))
}

fn find_read<'a>(reads: &'a Vec<PoolInitializationRead>, pool: &str) -> (r: Option<
    &'a LenderGroupPoolInitializationDataFromRpc,
>)
    ensures
        r matches Some(d) ==> read_for(reads@, pool@) == Some(Some(*d)),
        r is None ==> !read_succeeded(reads@, pool@),
{
    let mut i: usize = 0;
    proof {
        assert(reads@.skip(0) =~= reads@);
    }
    while i < reads.len()
        invariant
            i <= reads@.len(),
            read_for(reads@, pool@) == read_for(reads@.skip(i as int), pool@),
        decreases reads@.len() - i,
    {
        proof {
            assert(reads@.skip(i as int).drop_first() =~= reads@.skip(i as int + 1));
            assert(reads@.skip(i as int)[0] == reads@[i as int]);
        }
        if crate::store::str_equal(reads[i].pool_address.as_str(), pool) {
            return match &reads[i].data {
                Some(d) => Some(d),
                None => None,
            };
        }
        i = i + 1;
    }
    None
}

/// A pool log of a registered pool carrying `BorrowerAcceptedFunds`.
pub open spec fn is_borrower_accepted_funds(reg: Map<Seq<char>, (u64, u64)>, blk: &Block, l: Log) -> bool {
    from_registered_pool(reg, blk, l) && l.event is BorrowerAcceptedFunds
}

/// A `LendergroupBorrowerAcceptedFunds` record made from its log.
pub open spec fn borrower_accepted_funds_matches(blk: &Block) -> spec_fn(LendergroupBorrowerAcceptedFunds, Log) -> bool {
    |r: LendergroupBorrowerAcceptedFunds, l: Log| {
        &&& header_matches(r.evt_tx_hash, r.evt_index, r.evt_block_time, r.evt_block_number, l, blk)
        &&& r.evt_address@ == hex_text(l.address@)
        &&& l.event matches LogEvent::BorrowerAcceptedFunds { borrower, bid_id, principal_amount, collateral_amount, loan_duration, interest_rate }
        &&& r.borrower@ == borrower@
        &&& r.bid_id@ == bid_id@
        &&& r.principal_amount@ == principal_amount@
        &&& r.collateral_amount@ == collateral_amount@
        &&& r.loan_duration == loan_duration
        &&& r.interest_rate == interest_rate
    }
}

/// A pool log of a registered pool carrying `DefaultedLoanLiquidated`.
pub open spec fn is_defaulted_loan_liquidated(reg: Map<Seq<char>, (u64, u64)>, blk: &Block, l: Log) -> bool {
    from_registered_pool(reg, blk, l) && l.event is DefaultedLoanLiquidated
}

/// A `LendergroupDefaultedLoanLiquidated` record made from its log.
pub open spec fn defaulted_loan_liquidated_matches(blk: &Block) -> spec_fn(LendergroupDefaultedLoanLiquidated, Log) -> bool {
    |r: LendergroupDefaultedLoanLiquidated, l: Log| {
        &&& header_matches(r.evt_tx_hash, r.evt_index, r.evt_block_time, r.evt_block_number, l, blk)
        &&& r.evt_address@ == hex_text(l.address@)
        &&& l.event matches LogEvent::DefaultedLoanLiquidated { bid_id, liquidator, amount_due, token_amount_difference }
        &&& r.bid_id@ == bid_id@
        &&& r.liquidator@ == liquidator@
        &&& r.amount_due@ == amount_due@
        &&& r.token_amount_difference@ == token_amount_difference@
    }
}

/// A pool log of a registered pool carrying `EarningsWithdrawn`.
pub open spec fn is_earnings_withdrawn(reg: Map<Seq<char>, (u64, u64)>, blk: &Block, l: Log) -> bool {
    from_registered_pool(reg, blk, l) && l.event is EarningsWithdrawn
}

/// A `LendergroupEarningsWithdrawn` record made from its log.
pub open spec fn earnings_withdrawn_matches(blk: &Block) -> spec_fn(LendergroupEarningsWithdrawn, Log) -> bool {
    |r: LendergroupEarningsWithdrawn, l: Log| {
        &&& header_matches(r.evt_tx_hash, r.evt_index, r.evt_block_time, r.evt_block_number, l, blk)
        &&& r.evt_address@ == hex_text(l.address@)
        &&& l.event matches LogEvent::EarningsWithdrawn { lender, amount_pool_shares_tokens, principal_tokens_withdrawn, recipient }
        &&& r.lender@ == lender@
        &&& r.amount_pool_shares_tokens@ == amount_pool_shares_tokens@
        &&& r.principal_tokens_withdrawn@ == principal_tokens_withdrawn@
        &&& r.recipient@ == recipient@
    }
}

/// A pool log of a registered pool carrying `Initialized`.
pub open spec fn is_initialized(reg: Map<Seq<char>, (u64, u64)>, blk: &Block, l: Log) -> bool {
    from_registered_pool(reg, blk, l) && l.event is Initialized
}

/// A `LendergroupInitialized` record made from its log.
pub open spec fn initialized_matches(blk: &Block) -> spec_fn(LendergroupInitialized, Log) -> bool {
    |r: LendergroupInitialized, l: Log| {
        &&& header_matches(r.evt_tx_hash, r.evt_index, r.evt_block_time, r.evt_block_number, l, blk)
        &&& r.evt_address@ == hex_text(l.address@)
        &&& l.event matches LogEvent::Initialized { version }
        &&& r.version == version
    }
}

/// A pool log of a registered pool carrying `LenderAddedPrincipal`.
pub open spec fn is_lender_added_principal(reg: Map<Seq<char>, (u64, u64)>, blk: &Block, l: Log) -> bool {
    from_registered_pool(reg, blk, l) && l.event is LenderAddedPrincipal
}

/// A `LendergroupLenderAddedPrincipal` record made from its log.
pub open spec fn lender_added_principal_matches(blk: &Block) -> spec_fn(LendergroupLenderAddedPrincipal, Log) -> bool {
    |r: LendergroupLenderAddedPrincipal, l: Log| {
        &&& header_matches(r.evt_tx_hash, r.evt_index, r.evt_block_time, r.evt_block_number, l, blk)
        &&& r.evt_address@ == hex_text(l.address@)
        &&& l.event matches LogEvent::LenderAddedPrincipal { lender, amount, shares_amount, shares_recipient }
        &&& r.lender@ == lender@
        &&& r.amount@ == amount@
        &&& r.shares_amount@ == shares_amount@
        &&& r.shares_recipient@ == shares_recipient@
    }
}

/// A pool log of a registered pool carrying `LoanRepaid`.
pub open spec fn is_loan_repaid(reg: Map<Seq<char>, (u64, u64)>, blk: &Block, l: Log) -> bool {
    from_registered_pool(reg, blk, l) && l.event is LoanRepaid
}

/// A `LendergroupLoanRepaid` record made from its log.
pub open spec fn loan_repaid_matches(blk: &Block) -> spec_fn(LendergroupLoanRepaid, Log) -> bool {
    |r: LendergroupLoanRepaid, l: Log| {
        &&& header_matches(r.evt_tx_hash, r.evt_index, r.evt_block_time, r.evt_block_number, l, blk)
        &&& r.evt_address@ == hex_text(l.address@)
        &&& l.event matches LogEvent::LoanRepaid { bid_id, repayer, principal_amount, interest_amount, total_principal_repaid, total_interest_collected }
        &&& r.bid_id@ == bid_id@
        &&& r.repayer@ == repayer@
        &&& r.principal_amount@ == principal_amount@
        &&& r.interest_amount@ == interest_amount@
        &&& r.total_principal_repaid@ == total_principal_repaid@
        &&& r.total_interest_collected@ == total_interest_collected@
    }
}

/// A pool log of a registered pool carrying `OwnershipTransferred`.
pub open spec fn is_ownership_transferred(reg: Map<Seq<char>, (u64, u64)>, blk: &Block, l: Log) -> bool {
    from_registered_pool(reg, blk, l) && l.event is OwnershipTransferred
}

/// A `LendergroupOwnershipTransferred` record made from its log.
pub open spec fn ownership_transferred_matches(blk: &Block) -> spec_fn(LendergroupOwnershipTransferred, Log) -> bool {
    |r: LendergroupOwnershipTransferred, l: Log| {
        &&& header_matches(r.evt_tx_hash, r.evt_index, r.evt_block_time, r.evt_block_number, l, blk)
        &&& r.evt_address@ == hex_text(l.address@)
        &&& l.event matches LogEvent::OwnershipTransferred { previous_owner, new_owner }
        &&& r.previous_owner@ == previous_owner@
        &&& r.new_owner@ == new_owner@
    }
}

/// A pool log of a registered pool carrying `Paused`.
pub open spec fn is_paused(reg: Map<Seq<char>, (u64, u64)>, blk: &Block, l: Log) -> bool {
    from_registered_pool(reg, blk, l) && l.event is Paused
}

/// A `LendergroupPaused` record made from its log.
pub open spec fn paused_matches(blk: &Block) -> spec_fn(LendergroupPaused, Log) -> bool {
    |r: LendergroupPaused, l: Log| {
        &&& header_matches(r.evt_tx_hash, r.evt_index, r.evt_block_time, r.evt_block_number, l, blk)
        &&& r.evt_address@ == hex_text(l.address@)
        &&& l.event matches LogEvent::Paused { account }
        &&& r.account@ == account@
    }
}

/// A pool log of a registered pool carrying `Unpaused`.
pub open spec fn is_unpaused(reg: Map<Seq<char>, (u64, u64)>, blk: &Block, l: Log) -> bool {
    from_registered_pool(reg, blk, l) && l.event is Unpaused
}

/// A `LendergroupUnpaused` record made from its log.
pub open spec fn unpaused_matches(blk: &Block) -> spec_fn(LendergroupUnpaused, Log) -> bool {
    |r: LendergroupUnpaused, l: Log| {
        &&& header_matches(r.evt_tx_hash, r.evt_index, r.evt_block_time, r.evt_block_number, l, blk)
        &&& r.evt_address@ == hex_text(l.address@)
        &&& l.event matches LogEvent::Unpaused { account }
        &&& r.account@ == account@
    }
}

/// A pool log of a registered pool announcing its configuration, whose
/// initialization read succeeded.
pub open spec fn is_pool_initialized(
    reg: Map<Seq<char>, (u64, u64)>,
    reads: Seq<PoolInitializationRead>,
    blk: &Block,
    l: Log,
) -> bool {
    &&& from_registered_pool(reg, blk, l)
    &&& l.event is PoolInitialized
    &&& read_succeeded(reads, hex_text(l.address@))
}

/// A `LendergroupPoolInitialized` record made from its log and its read.
pub open spec fn pool_initialized_matches(
    blk: &Block,
    reads: Seq<PoolInitializationRead>,
) -> spec_fn(LendergroupPoolInitialized, Log) -> bool {
    |r: LendergroupPoolInitialized, l: Log| {
        &&& header_matches(r.evt_tx_hash, r.evt_index, r.evt_block_time, r.evt_block_number, l, blk)
        &&& r.evt_address@ == hex_text(l.address@)
        &&& l.event matches LogEvent::PoolInitialized { principal_token_address, collateral_token_address, market_id, max_loan_duration, interest_rate_lower_bound, interest_rate_upper_bound, liquidity_threshold_percent, loan_to_value_percent, pool_shares_token }
        &&& r.principal_token_address@ == principal_token_address@
        &&& r.collateral_token_address@ == collateral_token_address@
        &&& r.market_id@ == market_id@
        &&& r.max_loan_duration == max_loan_duration
        &&& r.interest_rate_lower_bound == interest_rate_lower_bound
        &&& r.interest_rate_upper_bound == interest_rate_upper_bound
        &&& r.liquidity_threshold_percent == liquidity_threshold_percent
        &&& r.loan_to_value_percent == loan_to_value_percent
        &&& r.pool_shares_token@ == pool_shares_token@
        &&& read_for(reads, hex_text(l.address@)) matches Some(Some(d))
        &&& r.teller_v2_address@ == d.teller_v2_address@
        &&& r.smart_commitment_forwarder_address@ == d.smart_commitment_forwarder_address@
        &&& r.uniswap_pool_fee == 0
        &&& r.twap_interval == 0
        &&& r.uniswap_v3_pool_address@ == Seq::<u8>::empty()
    }
}

/// Appends a record for each factory log of the block that announces a
/// deployed pool.
pub fn map_factory_events(blk: &Block, events: &mut Events)
    ensures
        extends_with(
            final(events).factory_deployed_lender_group_contracts@,
            old(events).factory_deployed_lender_group_contracts@,
            factory_deploy_logs(blk),
            factory_deploy_matches(blk),
        ),
        final(events).lendergroup_borrower_accepted_funds == old(events).lendergroup_borrower_accepted_funds,
        final(events).factory_admin_changeds == old(events).factory_admin_changeds,
        final(events).factory_beacon_upgradeds == old(events).factory_beacon_upgradeds,
        final(events).factory_upgradeds == old(events).factory_upgradeds,
        final(events).lendergroup_defaulted_loan_liquidateds == old(events).lendergroup_defaulted_loan_liquidateds,
        final(events).lendergroup_earnings_withdrawns == old(events).lendergroup_earnings_withdrawns,
        final(events).lendergroup_initializeds == old(events).lendergroup_initializeds,
        final(events).lendergroup_lender_added_principals == old(events).lendergroup_lender_added_principals,
        final(events).lendergroup_loan_repaids == old(events).lendergroup_loan_repaids,
        final(events).lendergroup_ownership_transferreds == old(events).lendergroup_ownership_transferreds,
        final(events).lendergroup_pauseds == old(events).lendergroup_pauseds,
        final(events).lendergroup_pool_initializeds == old(events).lendergroup_pool_initializeds,
        final(events).lendergroup_unpauseds == old(events).lendergroup_unpauseds,
{
    let factory = factory_contract_bytes();
    let ghost before = events.factory_deployed_lender_group_contracts@;
    proof {
        lemma_extends_empty(before, factory_deploy_matches(blk));
        assert(blk.logs@.take(0) =~= Seq::<Log>::empty());
    }
    let mut i: usize = 0;
    while i < blk.logs.len()
        invariant
            i <= blk.logs@.len(),
            factory@ == factory_contract(),
            extends_with(
                events.factory_deployed_lender_group_contracts@,
                before,
                select(blk.logs@.take(i as int), factory_deploy_filter()),
                factory_deploy_matches(blk),
            ),
            events.lendergroup_borrower_accepted_funds == old(events).lendergroup_borrower_accepted_funds,
            events.factory_admin_changeds == old(events).factory_admin_changeds,
            events.factory_beacon_upgradeds == old(events).factory_beacon_upgradeds,
            events.factory_upgradeds == old(events).factory_upgradeds,
            events.lendergroup_defaulted_loan_liquidateds == old(events).lendergroup_defaulted_loan_liquidateds,
            events.lendergroup_earnings_withdrawns == old(events).lendergroup_earnings_withdrawns,
            events.lendergroup_initializeds == old(events).lendergroup_initializeds,
            events.lendergroup_lender_added_principals == old(events).lendergroup_lender_added_principals,
            events.lendergroup_loan_repaids == old(events).lendergroup_loan_repaids,
            events.lendergroup_ownership_transferreds == old(events).lendergroup_ownership_transferreds,
            events.lendergroup_pauseds == old(events).lendergroup_pauseds,
            events.lendergroup_pool_initializeds == old(events).lendergroup_pool_initializeds,
            events.lendergroup_unpauseds == old(events).lendergroup_unpauseds,
        decreases blk.logs@.len() - i,
    {
        let log = &blk.logs[i];
        proof {
            lemma_select_step(blk.logs@, i as int, factory_deploy_filter());
        }
        if bytes_equal(&log.address, &factory) {
            if let LogEvent::DeployedLenderGroupContract { group_contract } = &log.event {
                let r = FactoryDeployedLenderGroupContract {
                    evt_tx_hash: hex_of(&log.tx_hash),
                    evt_index: log.block_index,
                    evt_block_time: blk.timestamp_seconds,
                    evt_block_number: blk.number,
                    group_contract: group_contract.clone(),
                };
                proof {
                    assert(factory_deploy_filter()(blk.logs@[i as int]));
                    assert(factory_deploy_matches(blk)(r, blk.logs@[i as int]));
                    lemma_extends_push(
                        events.factory_deployed_lender_group_contracts@,
                        before,
                        select(blk.logs@.take(i as int), factory_deploy_filter()),
                        factory_deploy_matches(blk),
                        r,
                        blk.logs@[i as int],
                    );
                }
                events.factory_deployed_lender_group_contracts.push(r);
            } else {
                assert(!factory_deploy_filter()(blk.logs@[i as int]));
            }
        } else {
            assert(!factory_deploy_filter()(blk.logs@[i as int]));
        }
        i = i + 1;
    }
    proof {
        assert(blk.logs@.take(blk.logs@.len() as int) =~= blk.logs@);
    }
}

/// The registrations after recording each deployment log in order, at its
/// block and ordinal.
pub open spec fn record_all(
    m: Map<Seq<char>, (u64, u64)>,
    deploys: Seq<Log>,
    block_number: u64,
) -> Map<Seq<char>, (u64, u64)>
    decreases deploys.len(),
{
    if deploys.len() == 0 {
        m
    } else {
        recorded(
            record_all(m, deploys.drop_last(), block_number),
            deployed_address(deploys.last()),
            (block_number, deploys.last().ordinal),
        )
    }
}

proof fn lemma_record_all_grows(m: Map<Seq<char>, (u64, u64)>, deploys: Seq<Log>, block_number: u64)
    ensures
        forall|k: Seq<char>| #[trigger] m.contains_key(k) ==> record_all(m, deploys, block_number).contains_key(k)
            && record_all(m, deploys, block_number)[k] == m[k],
        forall|j: int| 0 <= j < deploys.len() ==> record_all(m, deploys, block_number).contains_key(
            deployed_address(#[trigger] deploys[j]),
        ),
    decreases deploys.len(),
{
    if deploys.len() > 0 {
        let front = deploys.drop_last();
        lemma_record_all_grows(m, front, block_number);
        assert forall|j: int| 0 <= j < deploys.len() implies record_all(m, deploys, block_number).contains_key(
            deployed_address(#[trigger] deploys[j]),
        ) by {
            if j < front.len() {
                assert(deploys[j] == front[j]);
            }
        }
    }
}

proof fn lemma_record_all_known(m: Map<Seq<char>, (u64, u64)>, deploys: Seq<Log>, block_number: u64)
    requires
        forall|j: int| 0 <= j < deploys.len() ==> m.contains_key(deployed_address(#[trigger] deploys[j])),
    ensures
        record_all(m, deploys, block_number) == m,
    decreases deploys.len(),
{
    if deploys.len() > 0 {
        let front = deploys.drop_last();
        assert forall|j: int| 0 <= j < front.len() implies m.contains_key(deployed_address(#[trigger] front[j])) by {
            assert(front[j] == deploys[j]);
        }
        lemma_record_all_known(m, front, block_number);
        assert(m.contains_key(deployed_address(deploys[deploys.len() - 1])));
    }
}

/// Registering the deployments of a block twice is registering them once:
/// every deployed pool is registered after the first pass, and the second
/// pass changes no registration.
pub proof fn lemma_register_block_idempotent(m: Map<Seq<char>, (u64, u64)>, blk: &Block)
    ensures
        forall|j: int| 0 <= j < factory_deploy_logs(blk).len() ==> record_all(m, factory_deploy_logs(blk), blk.number)
            .contains_key(deployed_address(#[trigger] factory_deploy_logs(blk)[j])),
        record_all(record_all(m, factory_deploy_logs(blk), blk.number), factory_deploy_logs(blk), blk.number)
            == record_all(m, factory_deploy_logs(blk), blk.number),
{
    let d = factory_deploy_logs(blk);
    lemma_record_all_grows(m, d, blk.number);
    lemma_record_all_known(record_all(m, d, blk.number), d, blk.number);
}

/// Records, for each factory log of the block that announces a deployed
/// pool, the pool's address (lower-case hex) at the log's position.
pub fn store_factory_lendergroup_created(blk: &Block, registry: &mut AddressRegistry)
    requires
        old(registry).wf(),
    ensures
        final(registry).wf(),
        final(registry).registrations() == record_all(
            old(registry).registrations(),
            factory_deploy_logs(blk),
            blk.number,
        ),
{
    let factory = factory_contract_bytes();
    proof {
        assert(blk.logs@.take(0) =~= Seq::<Log>::empty());
    }
    let mut i: usize = 0;
    while i < blk.logs.len()
        invariant
            i <= blk.logs@.len(),
            factory@ == factory_contract(),
            registry.wf(),
            registry.registrations() == record_all(
                old(registry).registrations(),
                select(blk.logs@.take(i as int), factory_deploy_filter()),
                blk.number,
            ),
        decreases blk.logs@.len() - i,
    {
        let log = &blk.logs[i];
        proof {
            lemma_select_step(blk.logs@, i as int, factory_deploy_filter());
        }
        if bytes_equal(&log.address, &factory) {
            if let LogEvent::DeployedLenderGroupContract { group_contract } = &log.event {
                let address = hex_of(group_contract);
                let ghost prev = registry.registrations();
                registry.record(address.as_str(), blk.number, log.ordinal);
                proof {
                    let sel = select(blk.logs@.take(i as int), factory_deploy_filter());
                    assert(factory_deploy_filter()(blk.logs@[i as int]));
                    assert(deployed_address(blk.logs@[i as int]) == address@);
                    assert(sel.push(blk.logs@[i as int]).drop_last() =~= sel);
                    assert(record_all(old(registry).registrations(), sel.push(blk.logs@[i as int]), blk.number)
                        == recorded(prev, address@, (blk.number, log.ordinal)));
                }
            } else {
                assert(!factory_deploy_filter()(blk.logs@[i as int]));
            }
        } else {
            assert(!factory_deploy_filter()(blk.logs@[i as int]));
        }
        i = i + 1;
    }
    proof {
        assert(blk.logs@.take(blk.logs@.len() as int) =~= blk.logs@);
    }
}

/// Whether a log address belongs to a pool registered strictly before the
/// position (block number, ordinal).
pub fn is_declared_dds_address(
    addr: &Vec<u8>,
    block_number: u64,
    ordinal: u64,
    dds_store: &AddressRegistry,
) -> (r: bool)
    requires
        dds_store.wf(),
    ensures
        r == (dds_store.registrations().contains_key(hex_text(addr@)) && before_position(
            dds_store.registrations()[hex_text(addr@)],
            block_number,
            ordinal,
        )),
{
    let address = hex_of(addr);
    dds_store.is_registered_at(address.as_str(), block_number, ordinal)
}

/// `is_borrower_accepted_funds` as a predicate value.
pub open spec fn borrower_accepted_funds_filter(reg: Map<Seq<char>, (u64, u64)>, blk: &Block) -> spec_fn(Log) -> bool {
    |l: Log| is_borrower_accepted_funds(reg, blk, l)
}

/// `is_defaulted_loan_liquidated` as a predicate value.
pub open spec fn defaulted_loan_liquidated_filter(reg: Map<Seq<char>, (u64, u64)>, blk: &Block) -> spec_fn(Log) -> bool {
    |l: Log| is_defaulted_loan_liquidated(reg, blk, l)
}

/// `is_earnings_withdrawn` as a predicate value.
pub open spec fn earnings_withdrawn_filter(reg: Map<Seq<char>, (u64, u64)>, blk: &Block) -> spec_fn(Log) -> bool {
    |l: Log| is_earnings_withdrawn(reg, blk, l)
}

/// `is_initialized` as a predicate value.
pub open spec fn initialized_filter(reg: Map<Seq<char>, (u64, u64)>, blk: &Block) -> spec_fn(Log) -> bool {
    |l: Log| is_initialized(reg, blk, l)
}

/// `is_lender_added_principal` as a predicate value.
pub open spec fn lender_added_principal_filter(reg: Map<Seq<char>, (u64, u64)>, blk: &Block) -> spec_fn(Log) -> bool {
    |l: Log| is_lender_added_principal(reg, blk, l)
}

/// `is_loan_repaid` as a predicate value.
pub open spec fn loan_repaid_filter(reg: Map<Seq<char>, (u64, u64)>, blk: &Block) -> spec_fn(Log) -> bool {
    |l: Log| is_loan_repaid(reg, blk, l)
}

/// `is_ownership_transferred` as a predicate value.
pub open spec fn ownership_transferred_filter(reg: Map<Seq<char>, (u64, u64)>, blk: &Block) -> spec_fn(Log) -> bool {
    |l: Log| is_ownership_transferred(reg, blk, l)
}

/// `is_paused` as a predicate value.
pub open spec fn paused_filter(reg: Map<Seq<char>, (u64, u64)>, blk: &Block) -> spec_fn(Log) -> bool {
    |l: Log| is_paused(reg, blk, l)
}

/// `is_unpaused` as a predicate value.
pub open spec fn unpaused_filter(reg: Map<Seq<char>, (u64, u64)>, blk: &Block) -> spec_fn(Log) -> bool {
    |l: Log| is_unpaused(reg, blk, l)
}

/// `is_pool_initialized` as a predicate value.
pub open spec fn pool_initialized_filter(
    reg: Map<Seq<char>, (u64, u64)>,
    reads: Seq<PoolInitializationRead>,
    blk: &Block,
) -> spec_fn(Log) -> bool {
    |l: Log| is_pool_initialized(reg, reads, blk, l)
}

/// Appends a record for each log of a pool registered strictly before the
/// log, by the kind of its event. A pool-configuration log is kept only when
/// the initialization read of its pool succeeded (`reads`); otherwise the
/// event is dropped and the rest of the block goes on.
pub fn map_lendergroup_events(
    blk: &Block,
    dds_store: &AddressRegistry,
    reads: &Vec<PoolInitializationRead>,
    events: &mut Events,
)
    requires
        dds_store.wf(),
    ensures
        extends_with(
            final(events).lendergroup_borrower_accepted_funds@,
            old(events).lendergroup_borrower_accepted_funds@,
            select(blk.logs@, borrower_accepted_funds_filter(dds_store.registrations(), blk)),
            borrower_accepted_funds_matches(blk),
        ),
        extends_with(
            final(events).lendergroup_defaulted_loan_liquidateds@,
            old(events).lendergroup_defaulted_loan_liquidateds@,
            select(blk.logs@, defaulted_loan_liquidated_filter(dds_store.registrations(), blk)),
            defaulted_loan_liquidated_matches(blk),
        ),
        extends_with(
            final(events).lendergroup_earnings_withdrawns@,
            old(events).lendergroup_earnings_withdrawns@,
            select(blk.logs@, earnings_withdrawn_filter(dds_store.registrations(), blk)),
            earnings_withdrawn_matches(blk),
        ),
        extends_with(
            final(events).lendergroup_initializeds@,
            old(events).lendergroup_initializeds@,
            select(blk.logs@, initialized_filter(dds_store.registrations(), blk)),
            initialized_matches(blk),
        ),
        extends_with(
            final(events).lendergroup_lender_added_principals@,
            old(events).lendergroup_lender_added_principals@,
            select(blk.logs@, lender_added_principal_filter(dds_store.registrations(), blk)),
            lender_added_principal_matches(blk),
        ),
        extends_with(
            final(events).lendergroup_loan_repaids@,
            old(events).lendergroup_loan_repaids@,
            select(blk.logs@, loan_repaid_filter(dds_store.registrations(), blk)),
            loan_repaid_matches(blk),
        ),
        extends_with(
            final(events).lendergroup_ownership_transferreds@,
            old(events).lendergroup_ownership_transferreds@,
            select(blk.logs@, ownership_transferred_filter(dds_store.registrations(), blk)),
            ownership_transferred_matches(blk),
        ),
        extends_with(
            final(events).lendergroup_pauseds@,
            old(events).lendergroup_pauseds@,
            select(blk.logs@, paused_filter(dds_store.registrations(), blk)),
            paused_matches(blk),
        ),
        extends_with(
            final(events).lendergroup_unpauseds@,
            old(events).lendergroup_unpauseds@,
            select(blk.logs@, unpaused_filter(dds_store.registrations(), blk)),
            unpaused_matches(blk),
        ),
        extends_with(
            final(events).lendergroup_pool_initializeds@,
            old(events).lendergroup_pool_initializeds@,
            select(blk.logs@, pool_initialized_filter(dds_store.registrations(), reads@, blk)),
            pool_initialized_matches(blk, reads@),
        ),
        final(events).factory_deployed_lender_group_contracts == old(events).factory_deployed_lender_group_contracts,
        final(events).factory_admin_changeds == old(events).factory_admin_changeds,
        final(events).factory_beacon_upgradeds == old(events).factory_beacon_upgradeds,
        final(events).factory_upgradeds == old(events).factory_upgradeds,
{
    let ghost reg = dds_store.registrations();
    let ghost start = *events;
    proof {
        assert(blk.logs@.take(0) =~= Seq::<Log>::empty());
        lemma_extends_empty(events.lendergroup_borrower_accepted_funds@, borrower_accepted_funds_matches(blk));
        lemma_extends_empty(events.lendergroup_defaulted_loan_liquidateds@, defaulted_loan_liquidated_matches(blk));
        lemma_extends_empty(events.lendergroup_earnings_withdrawns@, earnings_withdrawn_matches(blk));
        lemma_extends_empty(events.lendergroup_initializeds@, initialized_matches(blk));
        lemma_extends_empty(events.lendergroup_lender_added_principals@, lender_added_principal_matches(blk));
        lemma_extends_empty(events.lendergroup_loan_repaids@, loan_repaid_matches(blk));
        lemma_extends_empty(events.lendergroup_ownership_transferreds@, ownership_transferred_matches(blk));
        lemma_extends_empty(events.lendergroup_pauseds@, paused_matches(blk));
        lemma_extends_empty(events.lendergroup_unpauseds@, unpaused_matches(blk));
        lemma_extends_empty(events.lendergroup_pool_initializeds@, pool_initialized_matches(blk, reads@));
    }
    let mut i: usize = 0;
    while i < blk.logs.len()
        invariant
            i <= blk.logs@.len(),
            dds_store.wf(),
            reg == dds_store.registrations(),
            extends_with(
                events.lendergroup_borrower_accepted_funds@,
                start.lendergroup_borrower_accepted_funds@,
                select(blk.logs@.take(i as int), borrower_accepted_funds_filter(reg, blk)),
                borrower_accepted_funds_matches(blk),
            ),
            extends_with(
                events.lendergroup_defaulted_loan_liquidateds@,
                start.lendergroup_defaulted_loan_liquidateds@,
                select(blk.logs@.take(i as int), defaulted_loan_liquidated_filter(reg, blk)),
                defaulted_loan_liquidated_matches(blk),
            ),
            extends_with(
                events.lendergroup_earnings_withdrawns@,
                start.lendergroup_earnings_withdrawns@,
                select(blk.logs@.take(i as int), earnings_withdrawn_filter(reg, blk)),
                earnings_withdrawn_matches(blk),
            ),
            extends_with(
                events.lendergroup_initializeds@,
                start.lendergroup_initializeds@,
                select(blk.logs@.take(i as int), initialized_filter(reg, blk)),
                initialized_matches(blk),
            ),
            extends_with(
                events.lendergroup_lender_added_principals@,
                start.lendergroup_lender_added_principals@,
                select(blk.logs@.take(i as int), lender_added_principal_filter(reg, blk)),
                lender_added_principal_matches(blk),
            ),
            extends_with(
                events.lendergroup_loan_repaids@,
                start.lendergroup_loan_repaids@,
                select(blk.logs@.take(i as int), loan_repaid_filter(reg, blk)),
                loan_repaid_matches(blk),
            ),
            extends_with(
                events.lendergroup_ownership_transferreds@,
                start.lendergroup_ownership_transferreds@,
                select(blk.logs@.take(i as int), ownership_transferred_filter(reg, blk)),
                ownership_transferred_matches(blk),
            ),
            extends_with(
                events.lendergroup_pauseds@,
                start.lendergroup_pauseds@,
                select(blk.logs@.take(i as int), paused_filter(reg, blk)),
                paused_matches(blk),
            ),
            extends_with(
                events.lendergroup_unpauseds@,
                start.lendergroup_unpauseds@,
                select(blk.logs@.take(i as int), unpaused_filter(reg, blk)),
                unpaused_matches(blk),
            ),
            extends_with(
                events.lendergroup_pool_initializeds@,
                start.lendergroup_pool_initializeds@,
                select(blk.logs@.take(i as int), pool_initialized_filter(reg, reads@, blk)),
                pool_initialized_matches(blk, reads@),
            ),
            events.factory_deployed_lender_group_contracts == start.factory_deployed_lender_group_contracts,
            events.factory_admin_changeds == start.factory_admin_changeds,
            events.factory_beacon_upgradeds == start.factory_beacon_upgradeds,
            events.factory_upgradeds == start.factory_upgradeds,
        decreases blk.logs@.len() - i,
    {
        let log = &blk.logs[i];
        proof {
            lemma_select_step(blk.logs@, i as int, borrower_accepted_funds_filter(reg, blk));
            lemma_select_step(blk.logs@, i as int, defaulted_loan_liquidated_filter(reg, blk));
            lemma_select_step(blk.logs@, i as int, earnings_withdrawn_filter(reg, blk));
            lemma_select_step(blk.logs@, i as int, initialized_filter(reg, blk));
            lemma_select_step(blk.logs@, i as int, lender_added_principal_filter(reg, blk));
            lemma_select_step(blk.logs@, i as int, loan_repaid_filter(reg, blk));
            lemma_select_step(blk.logs@, i as int, ownership_transferred_filter(reg, blk));
            lemma_select_step(blk.logs@, i as int, paused_filter(reg, blk));
            lemma_select_step(blk.logs@, i as int, unpaused_filter(reg, blk));
            lemma_select_step(blk.logs@, i as int, pool_initialized_filter(reg, reads@, blk));
        }
        let registered = is_declared_dds_address(&log.address, blk.number, log.ordinal, dds_store);
        if registered {
            match &log.event {
                LogEvent::BorrowerAcceptedFunds { borrower, bid_id, principal_amount, collateral_amount, loan_duration, interest_rate } => {
                    let r = LendergroupBorrowerAcceptedFunds {
                        evt_tx_hash: hex_of(&log.tx_hash),
                        evt_index: log.block_index,
                        evt_block_time: blk.timestamp_seconds,
                        evt_block_number: blk.number,
                        evt_address: hex_of(&log.address),
                        borrower: borrower.clone(),
                        bid_id: bid_id.clone(),
                        principal_amount: principal_amount.clone(),
                        collateral_amount: collateral_amount.clone(),
                        loan_duration: *loan_duration,
                        interest_rate: *interest_rate,
                    };
                    proof {
                        assert(borrower_accepted_funds_matches(blk)(r, blk.logs@[i as int]));
                        lemma_extends_push(
                            events.lendergroup_borrower_accepted_funds@,
                            start.lendergroup_borrower_accepted_funds@,
                            select(blk.logs@.take(i as int), borrower_accepted_funds_filter(reg, blk)),
                            borrower_accepted_funds_matches(blk),
                            r,
                            blk.logs@[i as int],
                        );
                    }
                    events.lendergroup_borrower_accepted_funds.push(r);
                },
                LogEvent::DefaultedLoanLiquidated { bid_id, liquidator, amount_due, token_amount_difference } => {
                    let r = LendergroupDefaultedLoanLiquidated {
                        evt_tx_hash: hex_of(&log.tx_hash),
                        evt_index: log.block_index,
                        evt_block_time: blk.timestamp_seconds,
                        evt_block_number: blk.number,
                        evt_address: hex_of(&log.address),
                        bid_id: bid_id.clone(),
                        liquidator: liquidator.clone(),
                        amount_due: amount_due.clone(),
                        token_amount_difference: token_amount_difference.clone(),
                    };
                    proof {
                        assert(defaulted_loan_liquidated_matches(blk)(r, blk.logs@[i as int]));
                        lemma_extends_push(
                            events.lendergroup_defaulted_loan_liquidateds@,
                            start.lendergroup_defaulted_loan_liquidateds@,
                            select(blk.logs@.take(i as int), defaulted_loan_liquidated_filter(reg, blk)),
                            defaulted_loan_liquidated_matches(blk),
                            r,
                            blk.logs@[i as int],
                        );
                    }
                    events.lendergroup_defaulted_loan_liquidateds.push(r);
                },
                LogEvent::EarningsWithdrawn { lender, amount_pool_shares_tokens, principal_tokens_withdrawn, recipient } => {
                    let r = LendergroupEarningsWithdrawn {
                        evt_tx_hash: hex_of(&log.tx_hash),
                        evt_index: log.block_index,
                        evt_block_time: blk.timestamp_seconds,
                        evt_block_number: blk.number,
                        evt_address: hex_of(&log.address),
                        lender: lender.clone(),
                        amount_pool_shares_tokens: amount_pool_shares_tokens.clone(),
                        principal_tokens_withdrawn: principal_tokens_withdrawn.clone(),
                        recipient: recipient.clone(),
                    };
                    proof {
                        assert(earnings_withdrawn_matches(blk)(r, blk.logs@[i as int]));
                        lemma_extends_push(
                            events.lendergroup_earnings_withdrawns@,
                            start.lendergroup_earnings_withdrawns@,
                            select(blk.logs@.take(i as int), earnings_withdrawn_filter(reg, blk)),
                            earnings_withdrawn_matches(blk),
                            r,
                            blk.logs@[i as int],
                        );
                    }
                    events.lendergroup_earnings_withdrawns.push(r);
                },
                LogEvent::Initialized { version } => {
                    let r = LendergroupInitialized {
                        evt_tx_hash: hex_of(&log.tx_hash),
                        evt_index: log.block_index,
                        evt_block_time: blk.timestamp_seconds,
                        evt_block_number: blk.number,
                        evt_address: hex_of(&log.address),
                        version: *version,
                    };
                    proof {
                        assert(initialized_matches(blk)(r, blk.logs@[i as int]));
                        lemma_extends_push(
                            events.lendergroup_initializeds@,
                            start.lendergroup_initializeds@,
                            select(blk.logs@.take(i as int), initialized_filter(reg, blk)),
                            initialized_matches(blk),
                            r,
                            blk.logs@[i as int],
                        );
                    }
                    events.lendergroup_initializeds.push(r);
                },
                LogEvent::LenderAddedPrincipal { lender, amount, shares_amount, shares_recipient } => {
                    let r = LendergroupLenderAddedPrincipal {
                        evt_tx_hash: hex_of(&log.tx_hash),
                        evt_index: log.block_index,
                        evt_block_time: blk.timestamp_seconds,
                        evt_block_number: blk.number,
                        evt_address: hex_of(&log.address),
                        lender: lender.clone(),
                        amount: amount.clone(),
                        shares_amount: shares_amount.clone(),
                        shares_recipient: shares_recipient.clone(),
                    };
                    proof {
                        assert(lender_added_principal_matches(blk)(r, blk.logs@[i as int]));
                        lemma_extends_push(
                            events.lendergroup_lender_added_principals@,
                            start.lendergroup_lender_added_principals@,
                            select(blk.logs@.take(i as int), lender_added_principal_filter(reg, blk)),
                            lender_added_principal_matches(blk),
                            r,
                            blk.logs@[i as int],
                        );
                    }
                    events.lendergroup_lender_added_principals.push(r);
                },
                LogEvent::LoanRepaid { bid_id, repayer, principal_amount, interest_amount, total_principal_repaid, total_interest_collected } => {
                    let r = LendergroupLoanRepaid {
                        evt_tx_hash: hex_of(&log.tx_hash),
                        evt_index: log.block_index,
                        evt_block_time: blk.timestamp_seconds,
                        evt_block_number: blk.number,
                        evt_address: hex_of(&log.address),
                        bid_id: bid_id.clone(),
                        repayer: repayer.clone(),
                        principal_amount: principal_amount.clone(),
                        interest_amount: interest_amount.clone(),
                        total_principal_repaid: total_principal_repaid.clone(),
                        total_interest_collected: total_interest_collected.clone(),
                    };
                    proof {
                        assert(loan_repaid_matches(blk)(r, blk.logs@[i as int]));
                        lemma_extends_push(
                            events.lendergroup_loan_repaids@,
                            start.lendergroup_loan_repaids@,
                            select(blk.logs@.take(i as int), loan_repaid_filter(reg, blk)),
                            loan_repaid_matches(blk),
                            r,
                            blk.logs@[i as int],
                        );
                    }
                    events.lendergroup_loan_repaids.push(r);
                },
                LogEvent::OwnershipTransferred { previous_owner, new_owner } => {
                    let r = LendergroupOwnershipTransferred {
                        evt_tx_hash: hex_of(&log.tx_hash),
                        evt_index: log.block_index,
                        evt_block_time: blk.timestamp_seconds,
                        evt_block_number: blk.number,
                        evt_address: hex_of(&log.address),
                        previous_owner: previous_owner.clone(),
                        new_owner: new_owner.clone(),
                    };
                    proof {
                        assert(ownership_transferred_matches(blk)(r, blk.logs@[i as int]));
                        lemma_extends_push(
                            events.lendergroup_ownership_transferreds@,
                            start.lendergroup_ownership_transferreds@,
                            select(blk.logs@.take(i as int), ownership_transferred_filter(reg, blk)),
                            ownership_transferred_matches(blk),
                            r,
                            blk.logs@[i as int],
                        );
                    }
                    events.lendergroup_ownership_transferreds.push(r);
                },
                LogEvent::Paused { account } => {
                    let r = LendergroupPaused {
                        evt_tx_hash: hex_of(&log.tx_hash),
                        evt_index: log.block_index,
                        evt_block_time: blk.timestamp_seconds,
                        evt_block_number: blk.number,
                        evt_address: hex_of(&log.address),
                        account: account.clone(),
                    };
                    proof {
                        assert(paused_matches(blk)(r, blk.logs@[i as int]));
                        lemma_extends_push(
                            events.lendergroup_pauseds@,
                            start.lendergroup_pauseds@,
                            select(blk.logs@.take(i as int), paused_filter(reg, blk)),
                            paused_matches(blk),
                            r,
                            blk.logs@[i as int],
                        );
                    }
                    events.lendergroup_pauseds.push(r);
                },
                LogEvent::Unpaused { account } => {
                    let r = LendergroupUnpaused {
                        evt_tx_hash: hex_of(&log.tx_hash),
                        evt_index: log.block_index,
                        evt_block_time: blk.timestamp_seconds,
                        evt_block_number: blk.number,
                        evt_address: hex_of(&log.address),
                        account: account.clone(),
                    };
                    proof {
                        assert(unpaused_matches(blk)(r, blk.logs@[i as int]));
                        lemma_extends_push(
                            events.lendergroup_unpauseds@,
                            start.lendergroup_unpauseds@,
                            select(blk.logs@.take(i as int), unpaused_filter(reg, blk)),
                            unpaused_matches(blk),
                            r,
                            blk.logs@[i as int],
                        );
                    }
                    events.lendergroup_unpauseds.push(r);
                },
                LogEvent::PoolInitialized { principal_token_address, collateral_token_address, market_id, max_loan_duration, interest_rate_lower_bound, interest_rate_upper_bound, liquidity_threshold_percent, loan_to_value_percent, pool_shares_token } => {
                    let pool = hex_of(&log.address);
                    if let Some(d) = find_read(reads, pool.as_str()) {
                        let r = LendergroupPoolInitialized {
                            evt_tx_hash: hex_of(&log.tx_hash),
                            evt_index: log.block_index,
                            evt_block_time: blk.timestamp_seconds,
                            evt_block_number: blk.number,
                            evt_address: pool,
                            principal_token_address: principal_token_address.clone(),
                            collateral_token_address: collateral_token_address.clone(),
                            market_id: market_id.clone(),
                            max_loan_duration: *max_loan_duration,
                            interest_rate_lower_bound: *interest_rate_lower_bound,
                            interest_rate_upper_bound: *interest_rate_upper_bound,
                            liquidity_threshold_percent: *liquidity_threshold_percent,
                            loan_to_value_percent: *loan_to_value_percent,
                            pool_shares_token: pool_shares_token.clone(),
                            uniswap_pool_fee: 0,
                            twap_interval: 0,
                            uniswap_v3_pool_address: Vec::new(),
                            teller_v2_address: d.teller_v2_address.clone(),
                            smart_commitment_forwarder_address: d.smart_commitment_forwarder_address.clone(),
                        };
                        proof {
                            assert(pool_initialized_matches(blk, reads@)(r, blk.logs@[i as int]));
                            lemma_extends_push(
                                events.lendergroup_pool_initializeds@,
                                start.lendergroup_pool_initializeds@,
                                select(blk.logs@.take(i as int), pool_initialized_filter(reg, reads@, blk)),
                                pool_initialized_matches(blk, reads@),
                                r,
                                blk.logs@[i as int],
                            );
                        }
                        events.lendergroup_pool_initializeds.push(r);
                    }
                },
                _ => {},
            }
        }
        i = i + 1;
    }
    proof {
        assert(blk.logs@.take(blk.logs@.len() as int) =~= blk.logs@);
    }
}

/// A collateral-manager log of a withdrawal.
pub open spec fn is_collateral_withdrawn(l: Log) -> bool {
    l.address@ == collateral_manager_contract() && l.event is CollateralWithdrawn
}

/// `is_collateral_withdrawn` as a predicate value.
pub open spec fn collateral_withdrawn_filter() -> spec_fn(Log) -> bool {
    |l: Log| is_collateral_withdrawn(l)
}

/// A withdrawal record made from its log.
pub open spec fn collateral_withdrawn_matches(blk: &Block) -> spec_fn(CollateralmanagerCollateralWithdrawn, Log) -> bool {
    |r: CollateralmanagerCollateralWithdrawn, l: Log| {
        &&& header_matches(r.evt_tx_hash, r.evt_index, r.evt_block_time, r.evt_block_number, l, blk)
        &&& l.event matches LogEvent::CollateralWithdrawn { bid_id, collateral_type, collateral_address, amount, token_id, recipient }
        &&& r.bid_id@ == bid_id@
        &&& r.collateral_type == collateral_type
        &&& r.collateral_address@ == collateral_address@
        &&& r.amount@ == amount@
        &&& r.token_id@ == token_id@
        &&& r.recipient@ == recipient@
    }
}

/// The collateral-manager events of a block: one record per withdrawal log
/// of the tracked collateral manager.
pub fn map_collateralmanager_events(blk: &Block) -> (r: collateral::Events)
    ensures
        extends_with(
            r.collateral_manager_collateral_withdrawn@,
            Seq::empty(),
            select(blk.logs@, collateral_withdrawn_filter()),
            collateral_withdrawn_matches(blk),
        ),
        r.collateral_manager_collateral_escrow_deployeds@.len() == 0,
        r.collateral_manager_collateral_deposited@.len() == 0,
{
    let manager = collateral_manager_contract_bytes();
    let mut out: Vec<CollateralmanagerCollateralWithdrawn> = Vec::new();
    proof {
        lemma_extends_empty(out@, collateral_withdrawn_matches(blk));
        assert(blk.logs@.take(0) =~= Seq::<Log>::empty());
    }
    let mut i: usize = 0;
    while i < blk.logs.len()
        invariant
            i <= blk.logs@.len(),
            manager@ == collateral_manager_contract(),
            extends_with(
                out@,
                Seq::empty(),
                select(blk.logs@.take(i as int), collateral_withdrawn_filter()),
                collateral_withdrawn_matches(blk),
            ),
        decreases blk.logs@.len() - i,
    {
        let log = &blk.logs[i];
        proof {
            lemma_select_step(blk.logs@, i as int, collateral_withdrawn_filter());
        }
        if bytes_equal(&log.address, &manager) {
            if let LogEvent::CollateralWithdrawn { bid_id, collateral_type, collateral_address, amount, token_id, recipient } = &log.event {
                let r = CollateralmanagerCollateralWithdrawn {
                    evt_tx_hash: hex_of(&log.tx_hash),
                    evt_index: log.block_index,
                    evt_block_time: blk.timestamp_seconds,
                    evt_block_number: blk.number,
                    bid_id: bid_id.clone(),
                    collateral_type: *collateral_type,
                    collateral_address: collateral_address.clone(),
                    amount: amount.clone(),
                    token_id: token_id.clone(),
                    recipient: recipient.clone(),
                };
                proof {
                    assert(collateral_withdrawn_matches(blk)(r, blk.logs@[i as int]));
                    lemma_extends_push(
                        out@,
                        Seq::empty(),
                        select(blk.logs@.take(i as int), collateral_withdrawn_filter()),
                        collateral_withdrawn_matches(blk),
                        r,
                        blk.logs@[i as int],
                    );
                }
                out.push(r);
            }
        }
        i = i + 1;
    }
    proof {
        assert(blk.logs@.take(blk.logs@.len() as int) =~= blk.logs@);
    }
    collateral::Events {
        collateral_manager_collateral_escrow_deployeds: Vec::new(),
        collateral_manager_collateral_deposited: Vec::new(),
        collateral_manager_collateral_withdrawn: out,
    }
}

/// Events with every list empty.
pub fn empty_events() -> (r: Events)
    ensures
        r.factory_admin_changeds@.len() == 0,
        r.factory_beacon_upgradeds@.len() == 0,
        r.factory_deployed_lender_group_contracts@.len() == 0,
        r.factory_upgradeds@.len() == 0,
        r.lendergroup_borrower_accepted_funds@.len() == 0,
        r.lendergroup_defaulted_loan_liquidateds@.len() == 0,
        r.lendergroup_earnings_withdrawns@.len() == 0,
        r.lendergroup_initializeds@.len() == 0,
        r.lendergroup_lender_added_principals@.len() == 0,
        r.lendergroup_loan_repaids@.len() == 0,
        r.lendergroup_ownership_transferreds@.len() == 0,
        r.lendergroup_pauseds@.len() == 0,
        r.lendergroup_pool_initializeds@.len() == 0,
        r.lendergroup_unpauseds@.len() == 0,
{
    Events {
        factory_admin_changeds: Vec::new(),
        factory_beacon_upgradeds: Vec::new(),
        factory_deployed_lender_group_contracts: Vec::new(),
        factory_upgradeds: Vec::new(),
        lendergroup_borrower_accepted_funds: Vec::new(),
        lendergroup_defaulted_loan_liquidateds: Vec::new(),
        lendergroup_earnings_withdrawns: Vec::new(),
        lendergroup_initializeds: Vec::new(),
        lendergroup_lender_added_principals: Vec::new(),
        lendergroup_loan_repaids: Vec::new(),
        lendergroup_ownership_transferreds: Vec::new(),
        lendergroup_pauseds: Vec::new(),
        lendergroup_pool_initializeds: Vec::new(),
        lendergroup_unpauseds: Vec::new(),
    }
}

/// The events a block gives: for each kind, one record per selected log,
/// in log order; pool logs are selected by the registrations `reg` and pool
/// configurations by the reads.
pub open spec fn block_events(
    e: Events,
    blk: &Block,
    reg: Map<Seq<char>, (u64, u64)>,
    reads: Seq<PoolInitializationRead>,
) -> bool {
    &&& extends_with(
        e.factory_deployed_lender_group_contracts@,
        Seq::empty(),
        factory_deploy_logs(blk),
        factory_deploy_matches(blk),
    )
    &&& extends_with(
        e.lendergroup_borrower_accepted_funds@,
        Seq::empty(),
        select(blk.logs@, borrower_accepted_funds_filter(reg, blk)),
        borrower_accepted_funds_matches(blk),
    )
    &&& extends_with(
        e.lendergroup_defaulted_loan_liquidateds@,
        Seq::empty(),
        select(blk.logs@, defaulted_loan_liquidated_filter(reg, blk)),
        defaulted_loan_liquidated_matches(blk),
    )
    &&& extends_with(
        e.lendergroup_earnings_withdrawns@,
        Seq::empty(),
        select(blk.logs@, earnings_withdrawn_filter(reg, blk)),
        earnings_withdrawn_matches(blk),
    )
    &&& extends_with(
        e.lendergroup_initializeds@,
        Seq::empty(),
        select(blk.logs@, initialized_filter(reg, blk)),
        initialized_matches(blk),
    )
    &&& extends_with(
        e.lendergroup_lender_added_principals@,
        Seq::empty(),
        select(blk.logs@, lender_added_principal_filter(reg, blk)),
        lender_added_principal_matches(blk),
    )
    &&& extends_with(
        e.lendergroup_loan_repaids@,
        Seq::empty(),
        select(blk.logs@, loan_repaid_filter(reg, blk)),
        loan_repaid_matches(blk),
    )
    &&& extends_with(
        e.lendergroup_ownership_transferreds@,
        Seq::empty(),
        select(blk.logs@, ownership_transferred_filter(reg, blk)),
        ownership_transferred_matches(blk),
    )
    &&& extends_with(
        e.lendergroup_pauseds@,
        Seq::empty(),
        select(blk.logs@, paused_filter(reg, blk)),
        paused_matches(blk),
    )
    &&& extends_with(
        e.lendergroup_unpauseds@,
        Seq::empty(),
        select(blk.logs@, unpaused_filter(reg, blk)),
        unpaused_matches(blk),
    )
    &&& extends_with(
        e.lendergroup_pool_initializeds@,
        Seq::empty(),
        select(blk.logs@, pool_initialized_filter(reg, reads, blk)),
        pool_initialized_matches(blk, reads),
    )
}

/// The factory and pool events of a block: deployments announced by the
/// factory, and the events of pools registered before each log.
pub fn map_events(
    blk: &Block,
    dds_store: &AddressRegistry,
    reads: &Vec<PoolInitializationRead>,
) -> (r: Events)
    requires
        dds_store.wf(),
    ensures
        block_events(r, blk, dds_store.registrations(), reads@),

{
    let mut events = empty_events();
    proof {
        assert(events.factory_admin_changeds@ =~= Seq::empty());
        assert(events.factory_beacon_upgradeds@ =~= Seq::empty());
        assert(events.factory_deployed_lender_group_contracts@ =~= Seq::empty());
        assert(events.factory_upgradeds@ =~= Seq::empty());
        assert(events.lendergroup_borrower_accepted_funds@ =~= Seq::empty());
        assert(events.lendergroup_defaulted_loan_liquidateds@ =~= Seq::empty());
        assert(events.lendergroup_earnings_withdrawns@ =~= Seq::empty());
        assert(events.lendergroup_initializeds@ =~= Seq::empty());
        assert(events.lendergroup_lender_added_principals@ =~= Seq::empty());
        assert(events.lendergroup_loan_repaids@ =~= Seq::empty());
        assert(events.lendergroup_ownership_transferreds@ =~= Seq::empty());
        assert(events.lendergroup_pauseds@ =~= Seq::empty());
        assert(events.lendergroup_pool_initializeds@ =~= Seq::empty());
        assert(events.lendergroup_unpauseds@ =~= Seq::empty());
    }
    map_factory_events(blk, &mut events);
    map_lendergroup_events(blk, dds_store, reads, &mut events);
    events
}

/// The answer to a contract read: whether it failed, and its raw output.
pub struct CallResponse {
    pub failed: bool,
    pub raw: Vec<u8>,
}

/// The integer a read returning one `uint256` gives: the first 32-byte word
/// of the output, big-endian; none where the read failed or the output is
/// shorter than a word.
pub fn decode_uint_output(response: &CallResponse) -> (r: Option<String>)
    ensures
        r is Some <==> !response.failed && response.raw@.len() >= 32,
        r matches Some(t) ==> t@ == int_text(be_value(response.raw@.take(32)) as int),
{
    if response.failed || response.raw.len() < 32 {
        return None;
    }
    let word = vstd::slice::slice_subrange(response.raw.as_slice(), 0, 32);
    proof {
        assert(word@ =~= response.raw@.take(32));
    }
    Some(bigint_from_be_bytes(word))
}

/// The address a read returning one `address` gives: the last 20 bytes of
/// the first 32-byte word; none where the read failed or the output is
/// shorter than a word.
pub fn decode_address_output(response: &CallResponse) -> (r: Option<Vec<u8>>)
    ensures
        r is Some <==> !response.failed && response.raw@.len() >= 32,
        r matches Some(a) ==> a@ == response.raw@.subrange(12, 32),
{
    if response.failed || response.raw.len() < 32 {
        return None;
    }
    let mut a: Vec<u8> = Vec::new();
    let mut i: usize = 12;
    while i < 32
        invariant
            12 <= i <= 32,
            response.raw@.len() >= 32,
            a@ == response.raw@.subrange(12, i as int),
        decreases 32 - i,
    {
        a.push(response.raw[i]);
        proof {
            assert(response.raw@.subrange(12, i as int + 1) =~= response.raw@.subrange(12, i as int).push(response.raw@[i as int]));
        }
        i = i + 1;
    }
    Some(a)
}

/// The configuration read of a pool, from the answers for its TellerV2 and
/// its commitment forwarder. Both are required: where either read fails the
/// whole read fails.
pub fn pool_initialization_from_answers(
    teller_v2: &CallResponse,
    smart_commitment_forwarder: &CallResponse,
) -> (r: Option<LenderGroupPoolInitializationDataFromRpc>)
    ensures
        r is Some <==> (!teller_v2.failed && teller_v2.raw@.len() >= 32 && !smart_commitment_forwarder.failed
            && smart_commitment_forwarder.raw@.len() >= 32),
        r matches Some(d) ==> d.teller_v2_address@ == teller_v2.raw@.subrange(12, 32)
            && d.smart_commitment_forwarder_address@ == smart_commitment_forwarder.raw@.subrange(12, 32),
{
    let teller = decode_address_output(teller_v2);
    let forwarder = decode_address_output(smart_commitment_forwarder);
    match (teller, forwarder) {
        (Some(t), Some(f)) => Some(LenderGroupPoolInitializationDataFromRpc {
            teller_v2_address: t,
            smart_commitment_forwarder_address: f,
        }),
        _ => None,
    }
}

/// The supplementary reads of a pool: each one that failed is left out, and
/// later stands as zero.
pub fn pool_enrichment(
    pool_address: &String,
    min_interest_rate: &CallResponse,
    token_difference_from_liquidations: &CallResponse,
) -> (r: crate::project::PoolEnrichment)
    ensures
        r.pool_address@ == pool_address@,
        r.min_interest_rate is Some <==> !min_interest_rate.failed && min_interest_rate.raw@.len() >= 32,
        r.min_interest_rate matches Some(t) ==> t@ == int_text(be_value(min_interest_rate.raw@.take(32)) as int),
        r.token_difference_from_liquidations is Some <==> !token_difference_from_liquidations.failed
            && token_difference_from_liquidations.raw@.len() >= 32,
        r.token_difference_from_liquidations matches Some(t) ==> t@ == int_text(
            be_value(token_difference_from_liquidations.raw@.take(32)) as int,
        ),
{
    crate::project::PoolEnrichment {
        pool_address: pool_address.clone(),
        min_interest_rate: decode_uint_output(min_interest_rate),
        token_difference_from_liquidations: decode_uint_output(token_difference_from_liquidations),
    }
}

/// The pools whose configuration logs in a block come from registered pools
/// and so need an initialization read, in log order (lower-case hex).
pub fn pool_initialization_requests(blk: &Block, dds_store: &AddressRegistry) -> (r: Vec<String>)
    requires
        dds_store.wf(),
    ensures
        r@.map_values(|s: String| s@) == select(
            blk.logs@,
            |l: Log| from_registered_pool(dds_store.registrations(), blk, l) && l.event is PoolInitialized,
        ).map_values(|l: Log| hex_text(l.address@)),
{
    let ghost keep = |l: Log| from_registered_pool(dds_store.registrations(), blk, l) && l.event is PoolInitialized;
    let mut out: Vec<String> = Vec::new();
    proof {
        assert(blk.logs@.take(0) =~= Seq::<Log>::empty());
        assert(out@.map_values(|s: String| s@) =~= Seq::<Seq<char>>::empty());
    }
    let mut i: usize = 0;
    while i < blk.logs.len()
        invariant
            i <= blk.logs@.len(),
            dds_store.wf(),
            keep == (|l: Log| from_registered_pool(dds_store.registrations(), blk, l) && l.event is PoolInitialized),
            out@.map_values(|s: String| s@) == select(blk.logs@.take(i as int), keep).map_values(
                |l: Log| hex_text(l.address@),
            ),
        decreases blk.logs@.len() - i,
    {
        let log = &blk.logs[i];
        let ghost prev = out@;
        proof {
            lemma_select_step(blk.logs@, i as int, keep);
        }
        let registered = is_declared_dds_address(&log.address, blk.number, log.ordinal, dds_store);
        let is_init = match &log.event {
            LogEvent::PoolInitialized { .. } => true,
            _ => false,
        };
        if registered && is_init {
            let pool = hex_of(&log.address);
            out.push(pool);
            proof {
                assert(keep(blk.logs@[i as int]));
                assert(out@.map_values(|s: String| s@) =~= prev.map_values(|s: String| s@).push(pool@));
                assert(select(blk.logs@.take(i as int + 1), keep).map_values(|l: Log| hex_text(l.address@))
                    =~= select(blk.logs@.take(i as int), keep).map_values(|l: Log| hex_text(l.address@)).push(
                    hex_text(blk.logs@[i as int].address@)));
            }
        } else {
            proof {
                assert(!keep(blk.logs@[i as int]));
            }
        }
        i = i + 1;
    }
    proof {
        assert(blk.logs@.take(blk.logs@.len() as int) =~= blk.logs@);
    }
    out
}

} // verus!
