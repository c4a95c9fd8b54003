//! The row projector: turns a block's events, the deltas of its aggregate
//! stores and the stores' values into entity row operations.
use vstd::prelude::*;
use vstd::string::*;
use crate::contract::{
    Events, FactoryDeployedLenderGroupContract, LendergroupBorrowerAcceptedFunds,
    LendergroupDefaultedLoanLiquidated, LendergroupEarningsWithdrawn, LendergroupInitialized,
    LendergroupLenderAddedPrincipal, LendergroupLoanRepaid, LendergroupOwnershipTransferred,
    LendergroupPaused, LendergroupPoolInitialized, LendergroupUnpaused,
};
use crate::metrics::flat_ops;
use crate::store::str_equal;
use crate::text::{decode_hex_digits, hex_bytes, int_text, u64_text};

verus! {

broadcast use vstd::string::to_string_from_display_ensures_for_str;

/// Whether a row is created or updated.
#[derive(Clone, Copy, Debug, PartialEq, Eq)]
pub enum Operation {
    Create,
    Update,
}

/// A column value.
#[derive(Clone, Debug, PartialEq)]
pub enum Value {
    /// Raw bytes.
    Bytes(Vec<u8>),
    /// The UTF-8 bytes of a text.
    Utf8Bytes(String),
    /// An integer, as decimal text.
    BigInt(String),
    /// A decimal number, as text.
    BigDecimal(String),
    /// An unsigned integer.
    Uint(u64),
}

/// A named column value.
#[derive(Clone, Debug, PartialEq)]
pub struct Column {
    pub name: String,
    pub value: Value,
}

/// One row operation: create or update the row of an entity kind with a
/// primary key, setting the given columns.
#[derive(Clone, Debug, PartialEq)]
pub struct RowOp {
    pub operation: Operation,
    pub entity: String,
    pub id: String,
    pub columns: Vec<Column>,
}

/// A column value as plain data.
pub enum ValueView {
    Bytes(Seq<u8>),
    Utf8Bytes(Seq<char>),
    BigInt(Seq<char>),
    BigDecimal(Seq<char>),
    Uint(u64),
}

/// A row operation as plain data.
pub struct RowView {
    pub operation: Operation,
    pub entity: Seq<char>,
    pub id: Seq<char>,
    pub columns: Seq<(Seq<char>, ValueView)>,
}

/// A column value as plain data.
pub open spec fn value_view(v: Value) -> ValueView {
    match v {
        Value::Bytes(b) => ValueView::Bytes(b@),
        Value::Utf8Bytes(s) => ValueView::Utf8Bytes(s@),
        Value::BigInt(s) => ValueView::BigInt(s@),
        Value::BigDecimal(s) => ValueView::BigDecimal(s@),
        Value::Uint(n) => ValueView::Uint(n),
    }
}

/// A column as its name and plain value.
pub open spec fn column_view(c: Column) -> (Seq<char>, ValueView) {
    (c.name@, value_view(c.value))
}

/// A row operation as plain data.
pub open spec fn row_view(r: RowOp) -> RowView {
    RowView {
        operation: r.operation,
        entity: r.entity@,
        id: r.id@,
        columns: r.columns@.map_values(|c: Column| column_view(c)),
    }
}

/// A list of row operations as plain data.
pub open spec fn rows_view(rows: Seq<RowOp>) -> Seq<RowView> {
    rows.map_values(|r: RowOp| row_view(r))
}

/// The primary key of an event row: transaction hash, `-`, log index.
pub open spec fn event_row_id(tx_hash: Seq<char>, index: int) -> Seq<char> {
    tx_hash + seq!['-'] + int_text(index)
}

fn event_row_id_text(tx_hash: &String, index: u32) -> (r: String)
    ensures
        r@ == event_row_id(tx_hash@, index as int),
{
    let mut s = tx_hash.clone();
    s.append("-");
    let n = u64_text(index as u64);
    s.append(n.as_str());
    proof {
        reveal_strlit("-");
    }
    s
}

/// The bytes an address text spells, empty where it is no hex.
pub open spec fn address_bytes_of(s: Seq<char>) -> Seq<u8> {
    match hex_bytes(s) {
        Some(b) => b,
        None => Seq::empty(),
    }
}

/// The bytes an address text spells, empty where it is no hex.
pub fn address_bytes(s: &String) -> (r: Vec<u8>)
    ensures
        r@ == address_bytes_of(s@),
{
    match decode_hex_digits(s.as_str()) {
        Some(b) => b,
        None => Vec::new(),
    }
}

fn zero_int() -> (r: String)
    ensures
        r@ == int_text(0),
{
    proof {
        reveal_strlit("0");
        assert(int_text(0) =~= "0"@);
    }
    "0".to_string()
}

/// Supplementary values read for a pool: its current minimum interest rate
/// and its token difference from liquidations, each `None` where the read
/// failed.
pub struct PoolEnrichment {
    pub pool_address: String,
    pub min_interest_rate: Option<String>,
    pub token_difference_from_liquidations: Option<String>,
}

/// The first enrichment of a pool, if there is one.
pub open spec fn enrichment_for(e: Seq<PoolEnrichment>, pool: Seq<char>) -> Option<PoolEnrichment>
    decreases e.len(),
{
    if e.len() == 0 {
        None
    } else if e[0].pool_address@ == pool {
        Some(e[0])
    } else {
        enrichment_for(e.drop_first(), pool)
    }
}

/// The minimum interest rate read for a pool, zero where none was read.
pub open spec fn min_rate_of(e: Seq<PoolEnrichment>, pool: Seq<char>) -> Seq<char> {
    match enrichment_for(e, pool) {
        Some(x) => match x.min_interest_rate {
            Some(v) => v@,
            None => int_text(0),
        },
        None => int_text(0),
    }
}

/// The liquidation token difference read for a pool, zero where none was read.
pub open spec fn liquidation_difference_of(e: Seq<PoolEnrichment>, pool: Seq<char>) -> Seq<char> {
    match enrichment_for(e, pool) {
        Some(x) => match x.token_difference_from_liquidations {
            Some(v) => v@,
            None => int_text(0),
        },
        None => int_text(0),
    }
}

fn find_enrichment<'a>(e: &'a Vec<PoolEnrichment>, pool: &str) -> (r: Option<&'a PoolEnrichment>)
    ensures
        r matches Some(x) ==> enrichment_for(e@, pool@) == Some(*x),
        r is None ==> enrichment_for(e@, pool@) is None,
{
    let mut i: usize = 0;
    proof {
        assert(e@.skip(0) =~= e@);
    }
    while i < e.len()
        invariant
            i <= e@.len(),
            enrichment_for(e@, pool@) == enrichment_for(e@.skip(i as int), pool@),
        decreases e@.len() - i,
    {
        proof {
            assert(e@.skip(i as int).drop_first() =~= e@.skip(i as int + 1));
            assert(e@.skip(i as int)[0] == e@[i as int]);
        }
        if str_equal(e[i].pool_address.as_str(), pool) {
            return Some(&e[i]);
        }
        i = i + 1;
    }
    None
}

/// The minimum interest rate read for a pool, zero where none was read.
pub fn min_rate(enrichment: &Vec<PoolEnrichment>, pool: &String) -> (r: String)
    ensures
        r@ == min_rate_of(enrichment@, pool@),
{
    match find_enrichment(enrichment, pool.as_str()) {
        Some(x) => match &x.min_interest_rate {
            Some(v) => v.clone(),
            None => zero_int(),
        },
        None => zero_int(),
    }
}

/// The liquidation token difference read for a pool, zero where none was read.
pub fn liquidation_difference(enrichment: &Vec<PoolEnrichment>, pool: &String) -> (r: String)
    ensures
        r@ == liquidation_difference_of(enrichment@, pool@),
{
    match find_enrichment(enrichment, pool.as_str()) {
        Some(x) => match &x.token_difference_from_liquidations {
            Some(v) => v.clone(),
            None => zero_int(),
        },
        None => zero_int(),
    }
}

/// The `factory_deployed_lender_group_contract` row of one `FactoryDeployedLenderGroupContract`.
pub open spec fn factory_deploy_row(e: FactoryDeployedLenderGroupContract) -> RowView {
    RowView {
        operation: Operation::Create,
        entity: "factory_deployed_lender_group_contract"@,
        id: event_row_id(e.evt_tx_hash@, e.evt_index as int),
        columns: seq![
            ("evt_tx_hash"@, ValueView::Utf8Bytes(e.evt_tx_hash@)),
            ("evt_index"@, ValueView::BigInt(int_text(e.evt_index as int))),
            ("evt_block_time"@, ValueView::BigInt(int_text(e.evt_block_time as int))),
            ("evt_block_number"@, ValueView::BigInt(int_text(e.evt_block_number as int))),
            ("group_contract"@, ValueView::Bytes(e.group_contract@))
        ],
    }
}

/// The `group_borrower_accepted_funds` row of one `LendergroupBorrowerAcceptedFunds`.
pub open spec fn borrower_accepted_row(e: LendergroupBorrowerAcceptedFunds) -> RowView {
    RowView {
        operation: Operation::Create,
        entity: "group_borrower_accepted_funds"@,
        id: event_row_id(e.evt_tx_hash@, e.evt_index as int),
        columns: seq![
            ("evt_tx_hash"@, ValueView::Utf8Bytes(e.evt_tx_hash@)),
            ("evt_index"@, ValueView::BigInt(int_text(e.evt_index as int))),
            ("evt_block_time"@, ValueView::BigInt(int_text(e.evt_block_time as int))),
            ("evt_block_number"@, ValueView::BigInt(int_text(e.evt_block_number as int))),
            ("group_pool_address"@, ValueView::Bytes(address_bytes_of(e.evt_address@))),
            ("bid_id"@, ValueView::BigDecimal(e.bid_id@)),
            ("borrower"@, ValueView::Bytes(e.borrower@)),
            ("collateral_amount"@, ValueView::BigDecimal(e.collateral_amount@)),
            ("interest_rate"@, ValueView::Uint(e.interest_rate)),
            ("loan_duration"@, ValueView::Uint(e.loan_duration)),
            ("principal_amount"@, ValueView::BigDecimal(e.principal_amount@))
        ],
    }
}

/// The `group_defaulted_loan_liquidated` row of one `LendergroupDefaultedLoanLiquidated`.
pub open spec fn liquidated_row(e: LendergroupDefaultedLoanLiquidated) -> RowView {
    RowView {
        operation: Operation::Create,
        entity: "group_defaulted_loan_liquidated"@,
        id: event_row_id(e.evt_tx_hash@, e.evt_index as int),
        columns: seq![
            ("evt_tx_hash"@, ValueView::Utf8Bytes(e.evt_tx_hash@)),
            ("evt_index"@, ValueView::BigInt(int_text(e.evt_index as int))),
            ("evt_block_time"@, ValueView::BigInt(int_text(e.evt_block_time as int))),
            ("evt_block_number"@, ValueView::BigInt(int_text(e.evt_block_number as int))),
            ("group_pool_address"@, ValueView::Bytes(address_bytes_of(e.evt_address@))),
            ("amount_due"@, ValueView::BigDecimal(e.amount_due@)),
            ("bid_id"@, ValueView::BigDecimal(e.bid_id@)),
            ("liquidator"@, ValueView::Bytes(e.liquidator@)),
            ("token_amount_difference"@, ValueView::BigDecimal(e.token_amount_difference@))
        ],
    }
}

/// The `group_earnings_withdrawn` row of one `LendergroupEarningsWithdrawn`.
pub open spec fn earnings_withdrawn_row(e: LendergroupEarningsWithdrawn) -> RowView {
    RowView {
        operation: Operation::Create,
        entity: "group_earnings_withdrawn"@,
        id: event_row_id(e.evt_tx_hash@, e.evt_index as int),
        columns: seq![
            ("evt_tx_hash"@, ValueView::Utf8Bytes(e.evt_tx_hash@)),
            ("evt_index"@, ValueView::BigInt(int_text(e.evt_index as int))),
            ("evt_block_time"@, ValueView::BigInt(int_text(e.evt_block_time as int))),
            ("evt_block_number"@, ValueView::BigInt(int_text(e.evt_block_number as int))),
            ("group_pool_address"@, ValueView::Bytes(address_bytes_of(e.evt_address@))),
            ("amount_pool_shares_tokens"@, ValueView::BigDecimal(e.amount_pool_shares_tokens@)),
            ("lender"@, ValueView::Bytes(e.lender@)),
            ("principal_tokens_withdrawn"@, ValueView::BigDecimal(e.principal_tokens_withdrawn@)),
            ("recipient"@, ValueView::Bytes(e.recipient@))
        ],
    }
}

/// The `group_initialized` row of one `LendergroupInitialized`.
pub open spec fn initialized_row(e: LendergroupInitialized) -> RowView {
    RowView {
        operation: Operation::Create,
        entity: "group_initialized"@,
        id: event_row_id(e.evt_tx_hash@, e.evt_index as int),
        columns: seq![
            ("evt_tx_hash"@, ValueView::Utf8Bytes(e.evt_tx_hash@)),
            ("evt_index"@, ValueView::BigInt(int_text(e.evt_index as int))),
            ("evt_block_time"@, ValueView::BigInt(int_text(e.evt_block_time as int))),
            ("evt_block_number"@, ValueView::BigInt(int_text(e.evt_block_number as int))),
            ("group_pool_address"@, ValueView::Bytes(address_bytes_of(e.evt_address@))),
            ("version"@, ValueView::Uint(e.version))
        ],
    }
}

/// The `group_lender_added_principal` row of one `LendergroupLenderAddedPrincipal`.
pub open spec fn lender_added_row(e: LendergroupLenderAddedPrincipal) -> RowView {
    RowView {
        operation: Operation::Create,
        entity: "group_lender_added_principal"@,
        id: event_row_id(e.evt_tx_hash@, e.evt_index as int),
        columns: seq![
            ("evt_tx_hash"@, ValueView::Utf8Bytes(e.evt_tx_hash@)),
            ("evt_index"@, ValueView::BigInt(int_text(e.evt_index as int))),
            ("evt_block_time"@, ValueView::BigInt(int_text(e.evt_block_time as int))),
            ("evt_block_number"@, ValueView::BigInt(int_text(e.evt_block_number as int))),
            ("group_pool_address"@, ValueView::Bytes(address_bytes_of(e.evt_address@))),
            ("amount"@, ValueView::BigDecimal(e.amount@)),
            ("lender"@, ValueView::Bytes(e.lender@)),
            ("shares_amount"@, ValueView::BigDecimal(e.shares_amount@)),
            ("shares_recipient"@, ValueView::Bytes(e.shares_recipient@))
        ],
    }
}

/// The `group_loan_repaid` row of one `LendergroupLoanRepaid`.
pub open spec fn loan_repaid_row(e: LendergroupLoanRepaid) -> RowView {
    RowView {
        operation: Operation::Create,
        entity: "group_loan_repaid"@,
        id: event_row_id(e.evt_tx_hash@, e.evt_index as int),
        columns: seq![
            ("evt_tx_hash"@, ValueView::Utf8Bytes(e.evt_tx_hash@)),
            ("evt_index"@, ValueView::BigInt(int_text(e.evt_index as int))),
            ("evt_block_time"@, ValueView::BigInt(int_text(e.evt_block_time as int))),
            ("evt_block_number"@, ValueView::BigInt(int_text(e.evt_block_number as int))),
            ("group_pool_address"@, ValueView::Bytes(address_bytes_of(e.evt_address@))),
            ("bid_id"@, ValueView::BigDecimal(e.bid_id@)),
            ("interest_amount"@, ValueView::BigDecimal(e.interest_amount@)),
            ("principal_amount"@, ValueView::BigDecimal(e.principal_amount@)),
            ("repayer"@, ValueView::Bytes(e.repayer@)),
            ("total_interest_collected"@, ValueView::BigDecimal(e.total_interest_collected@)),
            ("total_principal_repaid"@, ValueView::BigDecimal(e.total_principal_repaid@))
        ],
    }
}

/// The `group_ownership_transferred` row of one `LendergroupOwnershipTransferred`.
pub open spec fn ownership_transferred_row(e: LendergroupOwnershipTransferred) -> RowView {
    RowView {
        operation: Operation::Create,
        entity: "group_ownership_transferred"@,
        id: event_row_id(e.evt_tx_hash@, e.evt_index as int),
        columns: seq![
            ("evt_tx_hash"@, ValueView::Utf8Bytes(e.evt_tx_hash@)),
            ("evt_index"@, ValueView::BigInt(int_text(e.evt_index as int))),
            ("evt_block_time"@, ValueView::BigInt(int_text(e.evt_block_time as int))),
            ("evt_block_number"@, ValueView::BigInt(int_text(e.evt_block_number as int))),
            ("group_pool_address"@, ValueView::Bytes(address_bytes_of(e.evt_address@))),
            ("new_owner"@, ValueView::Bytes(e.new_owner@)),
            ("previous_owner"@, ValueView::Bytes(e.previous_owner@))
        ],
    }
}

/// The `group_paused` row of one `LendergroupPaused`.
pub open spec fn paused_row(e: LendergroupPaused) -> RowView {
    RowView {
        operation: Operation::Create,
        entity: "group_paused"@,
        id: event_row_id(e.evt_tx_hash@, e.evt_index as int),
        columns: seq![
            ("evt_tx_hash"@, ValueView::Utf8Bytes(e.evt_tx_hash@)),
            ("evt_index"@, ValueView::BigInt(int_text(e.evt_index as int))),
            ("evt_block_time"@, ValueView::BigInt(int_text(e.evt_block_time as int))),
            ("evt_block_number"@, ValueView::BigInt(int_text(e.evt_block_number as int))),
            ("group_pool_address"@, ValueView::Bytes(address_bytes_of(e.evt_address@))),
            ("account"@, ValueView::Bytes(e.account@))
        ],
    }
}

/// The `group_pool_initialized` row of one `LendergroupPoolInitialized`.
pub open spec fn pool_initialized_row(e: LendergroupPoolInitialized) -> RowView {
    RowView {
        operation: Operation::Create,
        entity: "group_pool_initialized"@,
        id: event_row_id(e.evt_tx_hash@, e.evt_index as int),
        columns: seq![
            ("evt_tx_hash"@, ValueView::Utf8Bytes(e.evt_tx_hash@)),
            ("evt_index"@, ValueView::BigInt(int_text(e.evt_index as int))),
            ("evt_block_time"@, ValueView::BigInt(int_text(e.evt_block_time as int))),
            ("evt_block_number"@, ValueView::BigInt(int_text(e.evt_block_number as int))),
            ("group_pool_address"@, ValueView::Bytes(address_bytes_of(e.evt_address@))),
            ("collateral_token_address"@, ValueView::Bytes(e.collateral_token_address@)),
            ("interest_rate_lower_bound"@, ValueView::Uint(e.interest_rate_lower_bound)),
            ("interest_rate_upper_bound"@, ValueView::Uint(e.interest_rate_upper_bound)),
            ("liquidity_threshold_percent"@, ValueView::Uint(e.liquidity_threshold_percent)),
            ("loan_to_value_percent"@, ValueView::Uint(e.loan_to_value_percent)),
            ("market_id"@, ValueView::BigInt(e.market_id@)),
            ("max_loan_duration"@, ValueView::Uint(e.max_loan_duration)),
            ("pool_shares_token"@, ValueView::Bytes(e.pool_shares_token@)),
            ("principal_token_address"@, ValueView::Bytes(e.principal_token_address@))
        ],
    }
}

/// The `group_unpaused` row of one `LendergroupUnpaused`.
pub open spec fn unpaused_row(e: LendergroupUnpaused) -> RowView {
    RowView {
        operation: Operation::Create,
        entity: "group_unpaused"@,
        id: event_row_id(e.evt_tx_hash@, e.evt_index as int),
        columns: seq![
            ("evt_tx_hash"@, ValueView::Utf8Bytes(e.evt_tx_hash@)),
            ("evt_index"@, ValueView::BigInt(int_text(e.evt_index as int))),
            ("evt_block_time"@, ValueView::BigInt(int_text(e.evt_block_time as int))),
            ("evt_block_number"@, ValueView::BigInt(int_text(e.evt_block_number as int))),
            ("group_pool_address"@, ValueView::Bytes(address_bytes_of(e.evt_address@))),
            ("account"@, ValueView::Bytes(e.account@))
        ],
    }
}

/// The `group_pool_bid` row of one `LendergroupBorrowerAcceptedFunds`.
pub open spec fn pool_bid_row(e: LendergroupBorrowerAcceptedFunds) -> RowView {
    RowView {
        operation: Operation::Create,
        entity: "group_pool_bid"@,
        id: e.evt_address@,
        columns: seq![
            ("group_pool_address"@, ValueView::Bytes(address_bytes_of(e.evt_address@))),
            ("bid_id"@, ValueView::BigDecimal(e.bid_id@)),
            ("borrower"@, ValueView::Bytes(e.borrower@)),
            ("principal_amount"@, ValueView::BigDecimal(e.principal_amount@)),
            ("collateral_amount"@, ValueView::BigDecimal(e.collateral_amount@))
        ],
    }
}

/// The `group_pool_metric` row of one `LendergroupPoolInitialized`.
pub open spec fn pool_metric_row(e: LendergroupPoolInitialized, enrichment: Seq<PoolEnrichment>) -> RowView {
    RowView {
        operation: Operation::Create,
        entity: "group_pool_metric"@,
        id: e.evt_address@,
        columns: seq![
            ("group_pool_address"@, ValueView::Bytes(address_bytes_of(e.evt_address@))),
            ("principal_token_address"@, ValueView::Bytes(e.principal_token_address@)),
            ("collateral_token_address"@, ValueView::Bytes(e.collateral_token_address@)),
            ("shares_token_address"@, ValueView::Bytes(e.pool_shares_token@)),
            ("teller_v2_address"@, ValueView::Bytes(e.teller_v2_address@)),
            ("smart_commitment_forwarder_address"@, ValueView::Bytes(e.smart_commitment_forwarder_address@)),
            ("market_id"@, ValueView::BigInt(e.market_id@)),
            ("max_loan_duration"@, ValueView::Uint(e.max_loan_duration)),
            ("interest_rate_upper_bound"@, ValueView::Uint(e.interest_rate_upper_bound)),
            ("interest_rate_lower_bound"@, ValueView::Uint(e.interest_rate_lower_bound)),
            ("liquidity_threshold_percent"@, ValueView::Uint(e.liquidity_threshold_percent)),
            ("collateral_ratio"@, ValueView::Uint(e.loan_to_value_percent)),
            ("current_min_interest_rate"@, ValueView::BigInt(min_rate_of(enrichment, e.evt_address@))),
            ("total_principal_tokens_committed"@, ValueView::BigInt(int_text(0))),
            ("total_collateral_tokens_escrowed"@, ValueView::BigInt(int_text(0))),
            ("total_principal_tokens_withdrawn"@, ValueView::BigInt(int_text(0))),
            ("total_principal_tokens_borrowed"@, ValueView::BigInt(int_text(0))),
            ("total_principal_tokens_repaid"@, ValueView::BigInt(int_text(0))),
            ("total_interest_collected"@, ValueView::BigInt(int_text(0))),
            ("token_difference_from_liquidations"@, ValueView::BigInt(liquidation_difference_of(enrichment, e.evt_address@))),
            ("total_collateral_withdrawn"@, ValueView::BigInt(int_text(0)))
        ],
    }
}

/// Builds the `factory_deployed_lender_group_contract` row of one `FactoryDeployedLenderGroupContract`.
pub fn factory_deploy_row_of(e: &FactoryDeployedLenderGroupContract) -> (r: RowOp)
    ensures
        row_view(r) == factory_deploy_row(*e),
{
    let mut columns: Vec<Column> = Vec::new();
    columns.push(Column { name: "evt_tx_hash".to_string(), value: Value::Utf8Bytes(e.evt_tx_hash.clone()) });
    columns.push(Column { name: "evt_index".to_string(), value: Value::BigInt(u64_text(e.evt_index as u64)) });
    columns.push(Column { name: "evt_block_time".to_string(), value: Value::BigInt(u64_text(e.evt_block_time as u64)) });
    columns.push(Column { name: "evt_block_number".to_string(), value: Value::BigInt(u64_text(e.evt_block_number as u64)) });
    columns.push(Column { name: "group_contract".to_string(), value: Value::Bytes(e.group_contract.clone()) });
    let r = RowOp {
        operation: Operation::Create,
        entity: "factory_deployed_lender_group_contract".to_string(),
        id: event_row_id_text(&e.evt_tx_hash, e.evt_index),
        columns,
    };
    proof {
        assert(row_view(r).columns =~= factory_deploy_row(*e).columns);
    }
    r
}

/// Builds the `group_borrower_accepted_funds` row of one `LendergroupBorrowerAcceptedFunds`.
pub fn borrower_accepted_row_of(e: &LendergroupBorrowerAcceptedFunds) -> (r: RowOp)
    ensures
        row_view(r) == borrower_accepted_row(*e),
{
    let mut columns: Vec<Column> = Vec::new();
    columns.push(Column { name: "evt_tx_hash".to_string(), value: Value::Utf8Bytes(e.evt_tx_hash.clone()) });
    columns.push(Column { name: "evt_index".to_string(), value: Value::BigInt(u64_text(e.evt_index as u64)) });
    columns.push(Column { name: "evt_block_time".to_string(), value: Value::BigInt(u64_text(e.evt_block_time as u64)) });
    columns.push(Column { name: "evt_block_number".to_string(), value: Value::BigInt(u64_text(e.evt_block_number as u64)) });
    columns.push(Column { name: "group_pool_address".to_string(), value: Value::Bytes(address_bytes(&e.evt_address)) });
    columns.push(Column { name: "bid_id".to_string(), value: Value::BigDecimal(e.bid_id.clone()) });
    columns.push(Column { name: "borrower".to_string(), value: Value::Bytes(e.borrower.clone()) });
    columns.push(Column { name: "collateral_amount".to_string(), value: Value::BigDecimal(e.collateral_amount.clone()) });
    columns.push(Column { name: "interest_rate".to_string(), value: Value::Uint(e.interest_rate) });
    columns.push(Column { name: "loan_duration".to_string(), value: Value::Uint(e.loan_duration) });
    columns.push(Column { name: "principal_amount".to_string(), value: Value::BigDecimal(e.principal_amount.clone()) });
    let r = RowOp {
        operation: Operation::Create,
        entity: "group_borrower_accepted_funds".to_string(),
        id: event_row_id_text(&e.evt_tx_hash, e.evt_index),
        columns,
    };
    proof {
        assert(row_view(r).columns =~= borrower_accepted_row(*e).columns);
    }
    r
}

/// Builds the `group_defaulted_loan_liquidated` row of one `LendergroupDefaultedLoanLiquidated`.
pub fn liquidated_row_of(e: &LendergroupDefaultedLoanLiquidated) -> (r: RowOp)
    ensures
        row_view(r) == liquidated_row(*e),
{
    let mut columns: Vec<Column> = Vec::new();
    columns.push(Column { name: "evt_tx_hash".to_string(), value: Value::Utf8Bytes(e.evt_tx_hash.clone()) });
    columns.push(Column { name: "evt_index".to_string(), value: Value::BigInt(u64_text(e.evt_index as u64)) });
    columns.push(Column { name: "evt_block_time".to_string(), value: Value::BigInt(u64_text(e.evt_block_time as u64)) });
    columns.push(Column { name: "evt_block_number".to_string(), value: Value::BigInt(u64_text(e.evt_block_number as u64)) });
    columns.push(Column { name: "group_pool_address".to_string(), value: Value::Bytes(address_bytes(&e.evt_address)) });
    columns.push(Column { name: "amount_due".to_string(), value: Value::BigDecimal(e.amount_due.clone()) });
    columns.push(Column { name: "bid_id".to_string(), value: Value::BigDecimal(e.bid_id.clone()) });
    columns.push(Column { name: "liquidator".to_string(), value: Value::Bytes(e.liquidator.clone()) });
    columns.push(Column { name: "token_amount_difference".to_string(), value: Value::BigDecimal(e.token_amount_difference.clone()) });
    let r = RowOp {
        operation: Operation::Create,
        entity: "group_defaulted_loan_liquidated".to_string(),
        id: event_row_id_text(&e.evt_tx_hash, e.evt_index),
        columns,
    };
    proof {
        assert(row_view(r).columns =~= liquidated_row(*e).columns);
    }
    r
}

/// Builds the `group_earnings_withdrawn` row of one `LendergroupEarningsWithdrawn`.
pub fn earnings_withdrawn_row_of(e: &LendergroupEarningsWithdrawn) -> (r: RowOp)
    ensures
        row_view(r) == earnings_withdrawn_row(*e),
{
    let mut columns: Vec<Column> = Vec::new();
    columns.push(Column { name: "evt_tx_hash".to_string(), value: Value::Utf8Bytes(e.evt_tx_hash.clone()) });
    columns.push(Column { name: "evt_index".to_string(), value: Value::BigInt(u64_text(e.evt_index as u64)) });
    columns.push(Column { name: "evt_block_time".to_string(), value: Value::BigInt(u64_text(e.evt_block_time as u64)) });
    columns.push(Column { name: "evt_block_number".to_string(), value: Value::BigInt(u64_text(e.evt_block_number as u64)) });
    columns.push(Column { name: "group_pool_address".to_string(), value: Value::Bytes(address_bytes(&e.evt_address)) });
    columns.push(Column { name: "amount_pool_shares_tokens".to_string(), value: Value::BigDecimal(e.amount_pool_shares_tokens.clone()) });
    columns.push(Column { name: "lender".to_string(), value: Value::Bytes(e.lender.clone()) });
    columns.push(Column { name: "principal_tokens_withdrawn".to_string(), value: Value::BigDecimal(e.principal_tokens_withdrawn.clone()) });
    columns.push(Column { name: "recipient".to_string(), value: Value::Bytes(e.recipient.clone()) });
    let r = RowOp {
        operation: Operation::Create,
        entity: "group_earnings_withdrawn".to_string(),
        id: event_row_id_text(&e.evt_tx_hash, e.evt_index),
        columns,
    };
    proof {
        assert(row_view(r).columns =~= earnings_withdrawn_row(*e).columns);
    }
    r
}

/// Builds the `group_initialized` row of one `LendergroupInitialized`.
pub fn initialized_row_of(e: &LendergroupInitialized) -> (r: RowOp)
    ensures
        row_view(r) == initialized_row(*e),
{
    let mut columns: Vec<Column> = Vec::new();
    columns.push(Column { name: "evt_tx_hash".to_string(), value: Value::Utf8Bytes(e.evt_tx_hash.clone()) });
    columns.push(Column { name: "evt_index".to_string(), value: Value::BigInt(u64_text(e.evt_index as u64)) });
    columns.push(Column { name: "evt_block_time".to_string(), value: Value::BigInt(u64_text(e.evt_block_time as u64)) });
    columns.push(Column { name: "evt_block_number".to_string(), value: Value::BigInt(u64_text(e.evt_block_number as u64)) });
    columns.push(Column { name: "group_pool_address".to_string(), value: Value::Bytes(address_bytes(&e.evt_address)) });
    columns.push(Column { name: "version".to_string(), value: Value::Uint(e.version) });
    let r = RowOp {
        operation: Operation::Create,
        entity: "group_initialized".to_string(),
        id: event_row_id_text(&e.evt_tx_hash, e.evt_index),
        columns,
    };
    proof {
        assert(row_view(r).columns =~= initialized_row(*e).columns);
    }
    r
}

/// Builds the `group_lender_added_principal` row of one `LendergroupLenderAddedPrincipal`.
pub fn lender_added_row_of(e: &LendergroupLenderAddedPrincipal) -> (r: RowOp)
    ensures
        row_view(r) == lender_added_row(*e),
{
    let mut columns: Vec<Column> = Vec::new();
    columns.push(Column { name: "evt_tx_hash".to_string(), value: Value::Utf8Bytes(e.evt_tx_hash.clone()) });
    columns.push(Column { name: "evt_index".to_string(), value: Value::BigInt(u64_text(e.evt_index as u64)) });
    columns.push(Column { name: "evt_block_time".to_string(), value: Value::BigInt(u64_text(e.evt_block_time as u64)) });
    columns.push(Column { name: "evt_block_number".to_string(), value: Value::BigInt(u64_text(e.evt_block_number as u64)) });
    columns.push(Column { name: "group_pool_address".to_string(), value: Value::Bytes(address_bytes(&e.evt_address)) });
    columns.push(Column { name: "amount".to_string(), value: Value::BigDecimal(e.amount.clone()) });
    columns.push(Column { name: "lender".to_string(), value: Value::Bytes(e.lender.clone()) });
    columns.push(Column { name: "shares_amount".to_string(), value: Value::BigDecimal(e.shares_amount.clone()) });
    columns.push(Column { name: "shares_recipient".to_string(), value: Value::Bytes(e.shares_recipient.clone()) });
    let r = RowOp {
        operation: Operation::Create,
        entity: "group_lender_added_principal".to_string(),
        id: event_row_id_text(&e.evt_tx_hash, e.evt_index),
        columns,
    };
    proof {
        assert(row_view(r).columns =~= lender_added_row(*e).columns);
    }
    r
}

/// Builds the `group_loan_repaid` row of one `LendergroupLoanRepaid`.
pub fn loan_repaid_row_of(e: &LendergroupLoanRepaid) -> (r: RowOp)
    ensures
        row_view(r) == loan_repaid_row(*e),
{
    let mut columns: Vec<Column> = Vec::new();
    columns.push(Column { name: "evt_tx_hash".to_string(), value: Value::Utf8Bytes(e.evt_tx_hash.clone()) });
    columns.push(Column { name: "evt_index".to_string(), value: Value::BigInt(u64_text(e.evt_index as u64)) });
    columns.push(Column { name: "evt_block_time".to_string(), value: Value::BigInt(u64_text(e.evt_block_time as u64)) });
    columns.push(Column { name: "evt_block_number".to_string(), value: Value::BigInt(u64_text(e.evt_block_number as u64)) });
    columns.push(Column { name: "group_pool_address".to_string(), value: Value::Bytes(address_bytes(&e.evt_address)) });
    columns.push(Column { name: "bid_id".to_string(), value: Value::BigDecimal(e.bid_id.clone()) });
    columns.push(Column { name: "interest_amount".to_string(), value: Value::BigDecimal(e.interest_amount.clone()) });
    columns.push(Column { name: "principal_amount".to_string(), value: Value::BigDecimal(e.principal_amount.clone()) });
    columns.push(Column { name: "repayer".to_string(), value: Value::Bytes(e.repayer.clone()) });
    columns.push(Column { name: "total_interest_collected".to_string(), value: Value::BigDecimal(e.total_interest_collected.clone()) });
    columns.push(Column { name: "total_principal_repaid".to_string(), value: Value::BigDecimal(e.total_principal_repaid.clone()) });
    let r = RowOp {
        operation: Operation::Create,
        entity: "group_loan_repaid".to_string(),
        id: event_row_id_text(&e.evt_tx_hash, e.evt_index),
        columns,
    };
    proof {
        assert(row_view(r).columns =~= loan_repaid_row(*e).columns);
    }
    r
}

/// Builds the `group_ownership_transferred` row of one `LendergroupOwnershipTransferred`.
pub fn ownership_transferred_row_of(e: &LendergroupOwnershipTransferred) -> (r: RowOp)
    ensures
        row_view(r) == ownership_transferred_row(*e),
{
    let mut columns: Vec<Column> = Vec::new();
    columns.push(Column { name: "evt_tx_hash".to_string(), value: Value::Utf8Bytes(e.evt_tx_hash.clone()) });
    columns.push(Column { name: "evt_index".to_string(), value: Value::BigInt(u64_text(e.evt_index as u64)) });
    columns.push(Column { name: "evt_block_time".to_string(), value: Value::BigInt(u64_text(e.evt_block_time as u64)) });
    columns.push(Column { name: "evt_block_number".to_string(), value: Value::BigInt(u64_text(e.evt_block_number as u64)) });
    columns.push(Column { name: "group_pool_address".to_string(), value: Value::Bytes(address_bytes(&e.evt_address)) });
    columns.push(Column { name: "new_owner".to_string(), value: Value::Bytes(e.new_owner.clone()) });
    columns.push(Column { name: "previous_owner".to_string(), value: Value::Bytes(e.previous_owner.clone()) });
    let r = RowOp {
        operation: Operation::Create,
        entity: "group_ownership_transferred".to_string(),
        id: event_row_id_text(&e.evt_tx_hash, e.evt_index),
        columns,
    };
    proof {
        assert(row_view(r).columns =~= ownership_transferred_row(*e).columns);
    }
    r
}

/// Builds the `group_paused` row of one `LendergroupPaused`.
pub fn paused_row_of(e: &LendergroupPaused) -> (r: RowOp)
    ensures
        row_view(r) == paused_row(*e),
{
    let mut columns: Vec<Column> = Vec::new();
    columns.push(Column { name: "evt_tx_hash".to_string(), value: Value::Utf8Bytes(e.evt_tx_hash.clone()) });
    columns.push(Column { name: "evt_index".to_string(), value: Value::BigInt(u64_text(e.evt_index as u64)) });
    columns.push(Column { name: "evt_block_time".to_string(), value: Value::BigInt(u64_text(e.evt_block_time as u64)) });
    columns.push(Column { name: "evt_block_number".to_string(), value: Value::BigInt(u64_text(e.evt_block_number as u64)) });
    columns.push(Column { name: "group_pool_address".to_string(), value: Value::Bytes(address_bytes(&e.evt_address)) });
    columns.push(Column { name: "account".to_string(), value: Value::Bytes(e.account.clone()) });
    let r = RowOp {
        operation: Operation::Create,
        entity: "group_paused".to_string(),
        id: event_row_id_text(&e.evt_tx_hash, e.evt_index),
        columns,
    };
    proof {
        assert(row_view(r).columns =~= paused_row(*e).columns);
    }
    r
}

/// Builds the `group_pool_initialized` row of one `LendergroupPoolInitialized`.
pub fn pool_initialized_row_of(e: &LendergroupPoolInitialized) -> (r: RowOp)
    ensures
        row_view(r) == pool_initialized_row(*e),
{
    let mut columns: Vec<Column> = Vec::new();
    columns.push(Column { name: "evt_tx_hash".to_string(), value: Value::Utf8Bytes(e.evt_tx_hash.clone()) });
    columns.push(Column { name: "evt_index".to_string(), value: Value::BigInt(u64_text(e.evt_index as u64)) });
    columns.push(Column { name: "evt_block_time".to_string(), value: Value::BigInt(u64_text(e.evt_block_time as u64)) });
    columns.push(Column { name: "evt_block_number".to_string(), value: Value::BigInt(u64_text(e.evt_block_number as u64)) });
    columns.push(Column { name: "group_pool_address".to_string(), value: Value::Bytes(address_bytes(&e.evt_address)) });
    columns.push(Column { name: "collateral_token_address".to_string(), value: Value::Bytes(e.collateral_token_address.clone()) });
    columns.push(Column { name: "interest_rate_lower_bound".to_string(), value: Value::Uint(e.interest_rate_lower_bound) });
    columns.push(Column { name: "interest_rate_upper_bound".to_string(), value: Value::Uint(e.interest_rate_upper_bound) });
    columns.push(Column { name: "liquidity_threshold_percent".to_string(), value: Value::Uint(e.liquidity_threshold_percent) });
    columns.push(Column { name: "loan_to_value_percent".to_string(), value: Value::Uint(e.loan_to_value_percent) });
    columns.push(Column { name: "market_id".to_string(), value: Value::BigInt(e.market_id.clone()) });
    columns.push(Column { name: "max_loan_duration".to_string(), value: Value::Uint(e.max_loan_duration) });
    columns.push(Column { name: "pool_shares_token".to_string(), value: Value::Bytes(e.pool_shares_token.clone()) });
    columns.push(Column { name: "principal_token_address".to_string(), value: Value::Bytes(e.principal_token_address.clone()) });
    let r = RowOp {
        operation: Operation::Create,
        entity: "group_pool_initialized".to_string(),
        id: event_row_id_text(&e.evt_tx_hash, e.evt_index),
        columns,
    };
    proof {
        assert(row_view(r).columns =~= pool_initialized_row(*e).columns);
    }
    r
}

/// Builds the `group_unpaused` row of one `LendergroupUnpaused`.
pub fn unpaused_row_of(e: &LendergroupUnpaused) -> (r: RowOp)
    ensures
        row_view(r) == unpaused_row(*e),
{
    let mut columns: Vec<Column> = Vec::new();
    columns.push(Column { name: "evt_tx_hash".to_string(), value: Value::Utf8Bytes(e.evt_tx_hash.clone()) });
    columns.push(Column { name: "evt_index".to_string(), value: Value::BigInt(u64_text(e.evt_index as u64)) });
    columns.push(Column { name: "evt_block_time".to_string(), value: Value::BigInt(u64_text(e.evt_block_time as u64)) });
    columns.push(Column { name: "evt_block_number".to_string(), value: Value::BigInt(u64_text(e.evt_block_number as u64)) });
    columns.push(Column { name: "group_pool_address".to_string(), value: Value::Bytes(address_bytes(&e.evt_address)) });
    columns.push(Column { name: "account".to_string(), value: Value::Bytes(e.account.clone()) });
    let r = RowOp {
        operation: Operation::Create,
        entity: "group_unpaused".to_string(),
        id: event_row_id_text(&e.evt_tx_hash, e.evt_index),
        columns,
    };
    proof {
        assert(row_view(r).columns =~= unpaused_row(*e).columns);
    }
    r
}

/// Builds the `group_pool_bid` row of one `LendergroupBorrowerAcceptedFunds`.
pub fn pool_bid_row_of(e: &LendergroupBorrowerAcceptedFunds) -> (r: RowOp)
    ensures
        row_view(r) == pool_bid_row(*e),
{
    let mut columns: Vec<Column> = Vec::new();
    columns.push(Column { name: "group_pool_address".to_string(), value: Value::Bytes(address_bytes(&e.evt_address)) });
    columns.push(Column { name: "bid_id".to_string(), value: Value::BigDecimal(e.bid_id.clone()) });
    columns.push(Column { name: "borrower".to_string(), value: Value::Bytes(e.borrower.clone()) });
    columns.push(Column { name: "principal_amount".to_string(), value: Value::BigDecimal(e.principal_amount.clone()) });
    columns.push(Column { name: "collateral_amount".to_string(), value: Value::BigDecimal(e.collateral_amount.clone()) });
    let r = RowOp {
        operation: Operation::Create,
        entity: "group_pool_bid".to_string(),
        id: e.evt_address.clone(),
        columns,
    };
    proof {
        assert(row_view(r).columns =~= pool_bid_row(*e).columns);
    }
    r
}

/// Builds the `group_pool_metric` row of one `LendergroupPoolInitialized`.
pub fn pool_metric_row_of(e: &LendergroupPoolInitialized, enrichment: &Vec<PoolEnrichment>) -> (r: RowOp)
    ensures
        row_view(r) == pool_metric_row(*e, enrichment@),
{
    let mut columns: Vec<Column> = Vec::new();
    columns.push(Column { name: "group_pool_address".to_string(), value: Value::Bytes(address_bytes(&e.evt_address)) });
    columns.push(Column { name: "principal_token_address".to_string(), value: Value::Bytes(e.principal_token_address.clone()) });
    columns.push(Column { name: "collateral_token_address".to_string(), value: Value::Bytes(e.collateral_token_address.clone()) });
    columns.push(Column { name: "shares_token_address".to_string(), value: Value::Bytes(e.pool_shares_token.clone()) });
    columns.push(Column { name: "teller_v2_address".to_string(), value: Value::Bytes(e.teller_v2_address.clone()) });
    columns.push(Column { name: "smart_commitment_forwarder_address".to_string(), value: Value::Bytes(e.smart_commitment_forwarder_address.clone()) });
    columns.push(Column { name: "market_id".to_string(), value: Value::BigInt(e.market_id.clone()) });
    columns.push(Column { name: "max_loan_duration".to_string(), value: Value::Uint(e.max_loan_duration) });
    columns.push(Column { name: "interest_rate_upper_bound".to_string(), value: Value::Uint(e.interest_rate_upper_bound) });
    columns.push(Column { name: "interest_rate_lower_bound".to_string(), value: Value::Uint(e.interest_rate_lower_bound) });
    columns.push(Column { name: "liquidity_threshold_percent".to_string(), value: Value::Uint(e.liquidity_threshold_percent) });
    columns.push(Column { name: "collateral_ratio".to_string(), value: Value::Uint(e.loan_to_value_percent) });
    columns.push(Column { name: "current_min_interest_rate".to_string(), value: Value::BigInt(min_rate(enrichment, &e.evt_address)) });
    columns.push(Column { name: "total_principal_tokens_committed".to_string(), value: Value::BigInt(zero_int()) });
    columns.push(Column { name: "total_collateral_tokens_escrowed".to_string(), value: Value::BigInt(zero_int()) });
    columns.push(Column { name: "total_principal_tokens_withdrawn".to_string(), value: Value::BigInt(zero_int()) });
    columns.push(Column { name: "total_principal_tokens_borrowed".to_string(), value: Value::BigInt(zero_int()) });
    columns.push(Column { name: "total_principal_tokens_repaid".to_string(), value: Value::BigInt(zero_int()) });
    columns.push(Column { name: "total_interest_collected".to_string(), value: Value::BigInt(zero_int()) });
    columns.push(Column { name: "token_difference_from_liquidations".to_string(), value: Value::BigInt(liquidation_difference(enrichment, &e.evt_address)) });
    columns.push(Column { name: "total_collateral_withdrawn".to_string(), value: Value::BigInt(zero_int()) });
    let r = RowOp {
        operation: Operation::Create,
        entity: "group_pool_metric".to_string(),
        id: e.evt_address.clone(),
        columns,
    };
    proof {
        assert(row_view(r).columns =~= pool_metric_row(*e, enrichment@).columns);
    }
    r
}

/// The rows of the factory events: one per deployment.
pub open spec fn factory_rows(events: Events) -> Seq<RowView> {
    flat_ops(events.factory_deployed_lender_group_contracts@, |e: FactoryDeployedLenderGroupContract| seq![factory_deploy_row(e)])
}

/// The rows of the pool events: one per event, in the order of the kinds;
/// a loan also creates its `group_pool_bid` row, and a pool configuration
/// creates the pool's `group_pool_metric` row with every total at zero.
pub open spec fn event_rows(events: Events, enrichment: Seq<PoolEnrichment>) -> Seq<RowView> {
    borrower_accepted_rows(events, enrichment)
        + liquidated_rows(events, enrichment)
        + earnings_withdrawn_rows(events, enrichment)
        + initialized_rows(events, enrichment)
        + lender_added_rows(events, enrichment)
        + loan_repaid_rows(events, enrichment)
        + ownership_transferred_rows(events, enrichment)
        + paused_rows(events, enrichment)
        + pool_initialized_rows(events, enrichment)
        + unpaused_rows(events, enrichment)
}

/// Appends the rows of the factory events.
pub fn graph_factory_out(events: &Events, tables: &mut Vec<RowOp>)
    ensures
        rows_view(final(tables)@) == rows_view(old(tables)@) + factory_rows(*events),
{
    let ghost before = rows_view(tables@);
    proof {
        assert(events.factory_deployed_lender_group_contracts@.take(0) =~= Seq::<FactoryDeployedLenderGroupContract>::empty());
        assert(before + flat_ops(events.factory_deployed_lender_group_contracts@.take(0), |e: FactoryDeployedLenderGroupContract| seq![factory_deploy_row(e)]) =~= before);
    }
    let mut i: usize = 0;
    while i < events.factory_deployed_lender_group_contracts.len()
        invariant
            i <= events.factory_deployed_lender_group_contracts@.len(),
            rows_view(tables@) == before + flat_ops(events.factory_deployed_lender_group_contracts@.take(i as int), |e: FactoryDeployedLenderGroupContract| seq![factory_deploy_row(e)]),
        decreases events.factory_deployed_lender_group_contracts@.len() - i,
    {
        let e = &events.factory_deployed_lender_group_contracts[i];
        let ghost prev = tables@;
        proof {
            crate::metrics::lemma_flat_step(events.factory_deployed_lender_group_contracts@, i as int, |e: FactoryDeployedLenderGroupContract| seq![factory_deploy_row(e)]);
        }
        let r0 = factory_deploy_row_of(e);
        tables.push(r0);
        proof {
            assert(tables@ =~= prev + seq![r0]);
            assert(rows_view(tables@) =~= rows_view(prev) + seq![row_view(r0)]);
            assert(seq![row_view(r0)] =~= (|e: FactoryDeployedLenderGroupContract| seq![factory_deploy_row(e)])(*e));
        }
        i = i + 1;
    }
    proof {
        assert(events.factory_deployed_lender_group_contracts@.take(events.factory_deployed_lender_group_contracts@.len() as int) =~= events.factory_deployed_lender_group_contracts@);
    }
}

/// Appends the rows of the `LendergroupBorrowerAcceptedFunds` events.
fn borrower_accepted_rows_out(events: &Events, enrichment: &Vec<PoolEnrichment>, tables: &mut Vec<RowOp>)
    ensures
        rows_view(final(tables)@) == rows_view(old(tables)@) + borrower_accepted_rows(*events, enrichment@),
{
    proof {
        reveal(borrower_accepted_rows);
    }
    let ghost before = rows_view(tables@);
    proof {
        assert(events.lendergroup_borrower_accepted_funds@.take(0) =~= Seq::<LendergroupBorrowerAcceptedFunds>::empty());
        assert(before + flat_ops(events.lendergroup_borrower_accepted_funds@.take(0), |e: LendergroupBorrowerAcceptedFunds| seq![borrower_accepted_row(e), pool_bid_row(e)]) =~= before);
    }
    let mut i: usize = 0;
    while i < events.lendergroup_borrower_accepted_funds.len()
        invariant
            i <= events.lendergroup_borrower_accepted_funds@.len(),
            rows_view(tables@) == before + flat_ops(events.lendergroup_borrower_accepted_funds@.take(i as int), |e: LendergroupBorrowerAcceptedFunds| seq![borrower_accepted_row(e), pool_bid_row(e)]),
        decreases events.lendergroup_borrower_accepted_funds@.len() - i,
    {
        let e = &events.lendergroup_borrower_accepted_funds[i];
        let ghost prev = tables@;
        proof {
            crate::metrics::lemma_flat_step(events.lendergroup_borrower_accepted_funds@, i as int, |e: LendergroupBorrowerAcceptedFunds| seq![borrower_accepted_row(e), pool_bid_row(e)]);
        }
        let r0 = borrower_accepted_row_of(e);
        let r1 = pool_bid_row_of(e);
        tables.push(r0);
        tables.push(r1);
        proof {
            assert(tables@ =~= prev + seq![r0, r1]);
            assert(rows_view(tables@) =~= rows_view(prev) + seq![row_view(r0), row_view(r1)]);
            assert(seq![row_view(r0), row_view(r1)] =~= (|e: LendergroupBorrowerAcceptedFunds| seq![borrower_accepted_row(e), pool_bid_row(e)])(*e));
        }
        i = i + 1;
    }
    proof {
        assert(events.lendergroup_borrower_accepted_funds@.take(events.lendergroup_borrower_accepted_funds@.len() as int) =~= events.lendergroup_borrower_accepted_funds@);
    }
}

/// The rows of the `LendergroupBorrowerAcceptedFunds` events.
#[verifier::opaque]
pub open spec fn borrower_accepted_rows(events: Events, enrichment: Seq<PoolEnrichment>) -> Seq<RowView> {
    flat_ops(events.lendergroup_borrower_accepted_funds@, |e: LendergroupBorrowerAcceptedFunds| seq![borrower_accepted_row(e), pool_bid_row(e)])
}

/// Appends the rows of the `LendergroupDefaultedLoanLiquidated` events.
fn liquidated_rows_out(events: &Events, enrichment: &Vec<PoolEnrichment>, tables: &mut Vec<RowOp>)
    ensures
        rows_view(final(tables)@) == rows_view(old(tables)@) + liquidated_rows(*events, enrichment@),
{
    proof {
        reveal(liquidated_rows);
    }
    let ghost before = rows_view(tables@);
    proof {
        assert(events.lendergroup_defaulted_loan_liquidateds@.take(0) =~= Seq::<LendergroupDefaultedLoanLiquidated>::empty());
        assert(before + flat_ops(events.lendergroup_defaulted_loan_liquidateds@.take(0), |e: LendergroupDefaultedLoanLiquidated| seq![liquidated_row(e)]) =~= before);
    }
    let mut i: usize = 0;
    while i < events.lendergroup_defaulted_loan_liquidateds.len()
        invariant
            i <= events.lendergroup_defaulted_loan_liquidateds@.len(),
            rows_view(tables@) == before + flat_ops(events.lendergroup_defaulted_loan_liquidateds@.take(i as int), |e: LendergroupDefaultedLoanLiquidated| seq![liquidated_row(e)]),
        decreases events.lendergroup_defaulted_loan_liquidateds@.len() - i,
    {
        let e = &events.lendergroup_defaulted_loan_liquidateds[i];
        let ghost prev = tables@;
        proof {
            crate::metrics::lemma_flat_step(events.lendergroup_defaulted_loan_liquidateds@, i as int, |e: LendergroupDefaultedLoanLiquidated| seq![liquidated_row(e)]);
        }
        let r0 = liquidated_row_of(e);
        tables.push(r0);
        proof {
            assert(tables@ =~= prev + seq![r0]);
            assert(rows_view(tables@) =~= rows_view(prev) + seq![row_view(r0)]);
            assert(seq![row_view(r0)] =~= (|e: LendergroupDefaultedLoanLiquidated| seq![liquidated_row(e)])(*e));
        }
        i = i + 1;
    }
    proof {
        assert(events.lendergroup_defaulted_loan_liquidateds@.take(events.lendergroup_defaulted_loan_liquidateds@.len() as int) =~= events.lendergroup_defaulted_loan_liquidateds@);
    }
}

/// The rows of the `LendergroupDefaultedLoanLiquidated` events.
#[verifier::opaque]
pub open spec fn liquidated_rows(events: Events, enrichment: Seq<PoolEnrichment>) -> Seq<RowView> {
    flat_ops(events.lendergroup_defaulted_loan_liquidateds@, |e: LendergroupDefaultedLoanLiquidated| seq![liquidated_row(e)])
}

/// Appends the rows of the `LendergroupEarningsWithdrawn` events.
fn earnings_withdrawn_rows_out(events: &Events, enrichment: &Vec<PoolEnrichment>, tables: &mut Vec<RowOp>)
    ensures
        rows_view(final(tables)@) == rows_view(old(tables)@) + earnings_withdrawn_rows(*events, enrichment@),
{
    proof {
        reveal(earnings_withdrawn_rows);
    }
    let ghost before = rows_view(tables@);
    proof {
        assert(events.lendergroup_earnings_withdrawns@.take(0) =~= Seq::<LendergroupEarningsWithdrawn>::empty());
        assert(before + flat_ops(events.lendergroup_earnings_withdrawns@.take(0), |e: LendergroupEarningsWithdrawn| seq![earnings_withdrawn_row(e)]) =~= before);
    }
    let mut i: usize = 0;
    while i < events.lendergroup_earnings_withdrawns.len()
        invariant
            i <= events.lendergroup_earnings_withdrawns@.len(),
            rows_view(tables@) == before + flat_ops(events.lendergroup_earnings_withdrawns@.take(i as int), |e: LendergroupEarningsWithdrawn| seq![earnings_withdrawn_row(e)]),
        decreases events.lendergroup_earnings_withdrawns@.len() - i,
    {
        let e = &events.lendergroup_earnings_withdrawns[i];
        let ghost prev = tables@;
        proof {
            crate::metrics::lemma_flat_step(events.lendergroup_earnings_withdrawns@, i as int, |e: LendergroupEarningsWithdrawn| seq![earnings_withdrawn_row(e)]);
        }
        let r0 = earnings_withdrawn_row_of(e);
        tables.push(r0);
        proof {
            assert(tables@ =~= prev + seq![r0]);
            assert(rows_view(tables@) =~= rows_view(prev) + seq![row_view(r0)]);
            assert(seq![row_view(r0)] =~= (|e: LendergroupEarningsWithdrawn| seq![earnings_withdrawn_row(e)])(*e));
        }
        i = i + 1;
    }
    proof {
        assert(events.lendergroup_earnings_withdrawns@.take(events.lendergroup_earnings_withdrawns@.len() as int) =~= events.lendergroup_earnings_withdrawns@);
    }
}

/// The rows of the `LendergroupEarningsWithdrawn` events.
#[verifier::opaque]
pub open spec fn earnings_withdrawn_rows(events: Events, enrichment: Seq<PoolEnrichment>) -> Seq<RowView> {
    flat_ops(events.lendergroup_earnings_withdrawns@, |e: LendergroupEarningsWithdrawn| seq![earnings_withdrawn_row(e)])
}

/// Appends the rows of the `LendergroupInitialized` events.
fn initialized_rows_out(events: &Events, enrichment: &Vec<PoolEnrichment>, tables: &mut Vec<RowOp>)
    ensures
        rows_view(final(tables)@) == rows_view(old(tables)@) + initialized_rows(*events, enrichment@),
{
    proof {
        reveal(initialized_rows);
    }
    let ghost before = rows_view(tables@);
    proof {
        assert(events.lendergroup_initializeds@.take(0) =~= Seq::<LendergroupInitialized>::empty());
        assert(before + flat_ops(events.lendergroup_initializeds@.take(0), |e: LendergroupInitialized| seq![initialized_row(e)]) =~= before);
    }
    let mut i: usize = 0;
    while i < events.lendergroup_initializeds.len()
        invariant
            i <= events.lendergroup_initializeds@.len(),
            rows_view(tables@) == before + flat_ops(events.lendergroup_initializeds@.take(i as int), |e: LendergroupInitialized| seq![initialized_row(e)]),
        decreases events.lendergroup_initializeds@.len() - i,
    {
        let e = &events.lendergroup_initializeds[i];
        let ghost prev = tables@;
        proof {
            crate::metrics::lemma_flat_step(events.lendergroup_initializeds@, i as int, |e: LendergroupInitialized| seq![initialized_row(e)]);
        }
        let r0 = initialized_row_of(e);
        tables.push(r0);
        proof {
            assert(tables@ =~= prev + seq![r0]);
            assert(rows_view(tables@) =~= rows_view(prev) + seq![row_view(r0)]);
            assert(seq![row_view(r0)] =~= (|e: LendergroupInitialized| seq![initialized_row(e)])(*e));
        }
        i = i + 1;
    }
    proof {
        assert(events.lendergroup_initializeds@.take(events.lendergroup_initializeds@.len() as int) =~= events.lendergroup_initializeds@);
    }
}

/// The rows of the `LendergroupInitialized` events.
#[verifier::opaque]
pub open spec fn initialized_rows(events: Events, enrichment: Seq<PoolEnrichment>) -> Seq<RowView> {
    flat_ops(events.lendergroup_initializeds@, |e: LendergroupInitialized| seq![initialized_row(e)])
}

/// Appends the rows of the `LendergroupLenderAddedPrincipal` events.
fn lender_added_rows_out(events: &Events, enrichment: &Vec<PoolEnrichment>, tables: &mut Vec<RowOp>)
    ensures
        rows_view(final(tables)@) == rows_view(old(tables)@) + lender_added_rows(*events, enrichment@),
{
    proof {
        reveal(lender_added_rows);
    }
    let ghost before = rows_view(tables@);
    proof {
        assert(events.lendergroup_lender_added_principals@.take(0) =~= Seq::<LendergroupLenderAddedPrincipal>::empty());
        assert(before + flat_ops(events.lendergroup_lender_added_principals@.take(0), |e: LendergroupLenderAddedPrincipal| seq![lender_added_row(e)]) =~= before);
    }
    let mut i: usize = 0;
    while i < events.lendergroup_lender_added_principals.len()
        invariant
            i <= events.lendergroup_lender_added_principals@.len(),
            rows_view(tables@) == before + flat_ops(events.lendergroup_lender_added_principals@.take(i as int), |e: LendergroupLenderAddedPrincipal| seq![lender_added_row(e)]),
        decreases events.lendergroup_lender_added_principals@.len() - i,
    {
        let e = &events.lendergroup_lender_added_principals[i];
        let ghost prev = tables@;
        proof {
            crate::metrics::lemma_flat_step(events.lendergroup_lender_added_principals@, i as int, |e: LendergroupLenderAddedPrincipal| seq![lender_added_row(e)]);
        }
        let r0 = lender_added_row_of(e);
        tables.push(r0);
        proof {
            assert(tables@ =~= prev + seq![r0]);
            assert(rows_view(tables@) =~= rows_view(prev) + seq![row_view(r0)]);
            assert(seq![row_view(r0)] =~= (|e: LendergroupLenderAddedPrincipal| seq![lender_added_row(e)])(*e));
        }
        i = i + 1;
    }
    proof {
        assert(events.lendergroup_lender_added_principals@.take(events.lendergroup_lender_added_principals@.len() as int) =~= events.lendergroup_lender_added_principals@);
    }
}

/// The rows of the `LendergroupLenderAddedPrincipal` events.
#[verifier::opaque]
pub open spec fn lender_added_rows(events: Events, enrichment: Seq<PoolEnrichment>) -> Seq<RowView> {
    flat_ops(events.lendergroup_lender_added_principals@, |e: LendergroupLenderAddedPrincipal| seq![lender_added_row(e)])
}

/// Appends the rows of the `LendergroupLoanRepaid` events.
fn loan_repaid_rows_out(events: &Events, enrichment: &Vec<PoolEnrichment>, tables: &mut Vec<RowOp>)
    ensures
        rows_view(final(tables)@) == rows_view(old(tables)@) + loan_repaid_rows(*events, enrichment@),
{
    proof {
        reveal(loan_repaid_rows);
    }
    let ghost before = rows_view(tables@);
    proof {
        assert(events.lendergroup_loan_repaids@.take(0) =~= Seq::<LendergroupLoanRepaid>::empty());
        assert(before + flat_ops(events.lendergroup_loan_repaids@.take(0), |e: LendergroupLoanRepaid| seq![loan_repaid_row(e)]) =~= before);
    }
    let mut i: usize = 0;
    while i < events.lendergroup_loan_repaids.len()
        invariant
            i <= events.lendergroup_loan_repaids@.len(),
            rows_view(tables@) == before + flat_ops(events.lendergroup_loan_repaids@.take(i as int), |e: LendergroupLoanRepaid| seq![loan_repaid_row(e)]),
        decreases events.lendergroup_loan_repaids@.len() - i,
    {
        let e = &events.lendergroup_loan_repaids[i];
        let ghost prev = tables@;
        proof {
            crate::metrics::lemma_flat_step(events.lendergroup_loan_repaids@, i as int, |e: LendergroupLoanRepaid| seq![loan_repaid_row(e)]);
        }
        let r0 = loan_repaid_row_of(e);
        tables.push(r0);
        proof {
            assert(tables@ =~= prev + seq![r0]);
            assert(rows_view(tables@) =~= rows_view(prev) + seq![row_view(r0)]);
            assert(seq![row_view(r0)] =~= (|e: LendergroupLoanRepaid| seq![loan_repaid_row(e)])(*e));
        }
        i = i + 1;
    }
    proof {
        assert(events.lendergroup_loan_repaids@.take(events.lendergroup_loan_repaids@.len() as int) =~= events.lendergroup_loan_repaids@);
    }
}

/// The rows of the `LendergroupLoanRepaid` events.
#[verifier::opaque]
pub open spec fn loan_repaid_rows(events: Events, enrichment: Seq<PoolEnrichment>) -> Seq<RowView> {
    flat_ops(events.lendergroup_loan_repaids@, |e: LendergroupLoanRepaid| seq![loan_repaid_row(e)])
}

/// Appends the rows of the `LendergroupOwnershipTransferred` events.
fn ownership_transferred_rows_out(events: &Events, enrichment: &Vec<PoolEnrichment>, tables: &mut Vec<RowOp>)
    ensures
        rows_view(final(tables)@) == rows_view(old(tables)@) + ownership_transferred_rows(*events, enrichment@),
{
    proof {
        reveal(ownership_transferred_rows);
    }
    let ghost before = rows_view(tables@);
    proof {
        assert(events.lendergroup_ownership_transferreds@.take(0) =~= Seq::<LendergroupOwnershipTransferred>::empty());
        assert(before + flat_ops(events.lendergroup_ownership_transferreds@.take(0), |e: LendergroupOwnershipTransferred| seq![ownership_transferred_row(e)]) =~= before);
    }
    let mut i: usize = 0;
    while i < events.lendergroup_ownership_transferreds.len()
        invariant
            i <= events.lendergroup_ownership_transferreds@.len(),
            rows_view(tables@) == before + flat_ops(events.lendergroup_ownership_transferreds@.take(i as int), |e: LendergroupOwnershipTransferred| seq![ownership_transferred_row(e)]),
        decreases events.lendergroup_ownership_transferreds@.len() - i,
    {
        let e = &events.lendergroup_ownership_transferreds[i];
        let ghost prev = tables@;
        proof {
            crate::metrics::lemma_flat_step(events.lendergroup_ownership_transferreds@, i as int, |e: LendergroupOwnershipTransferred| seq![ownership_transferred_row(e)]);
        }
        let r0 = ownership_transferred_row_of(e);
        tables.push(r0);
        proof {
            assert(tables@ =~= prev + seq![r0]);
            assert(rows_view(tables@) =~= rows_view(prev) + seq![row_view(r0)]);
            assert(seq![row_view(r0)] =~= (|e: LendergroupOwnershipTransferred| seq![ownership_transferred_row(e)])(*e));
        }
        i = i + 1;
    }
    proof {
        assert(events.lendergroup_ownership_transferreds@.take(events.lendergroup_ownership_transferreds@.len() as int) =~= events.lendergroup_ownership_transferreds@);
    }
}

/// The rows of the `LendergroupOwnershipTransferred` events.
#[verifier::opaque]
pub open spec fn ownership_transferred_rows(events: Events, enrichment: Seq<PoolEnrichment>) -> Seq<RowView> {
    flat_ops(events.lendergroup_ownership_transferreds@, |e: LendergroupOwnershipTransferred| seq![ownership_transferred_row(e)])
}

/// Appends the rows of the `LendergroupPaused` events.
fn paused_rows_out(events: &Events, enrichment: &Vec<PoolEnrichment>, tables: &mut Vec<RowOp>)
    ensures
        rows_view(final(tables)@) == rows_view(old(tables)@) + paused_rows(*events, enrichment@),
{
    proof {
        reveal(paused_rows);
    }
    let ghost before = rows_view(tables@);
    proof {
        assert(events.lendergroup_pauseds@.take(0) =~= Seq::<LendergroupPaused>::empty());
        assert(before + flat_ops(events.lendergroup_pauseds@.take(0), |e: LendergroupPaused| seq![paused_row(e)]) =~= before);
    }
    let mut i: usize = 0;
    while i < events.lendergroup_pauseds.len()
        invariant
            i <= events.lendergroup_pauseds@.len(),
            rows_view(tables@) == before + flat_ops(events.lendergroup_pauseds@.take(i as int), |e: LendergroupPaused| seq![paused_row(e)]),
        decreases events.lendergroup_pauseds@.len() - i,
    {
        let e = &events.lendergroup_pauseds[i];
        let ghost prev = tables@;
        proof {
            crate::metrics::lemma_flat_step(events.lendergroup_pauseds@, i as int, |e: LendergroupPaused| seq![paused_row(e)]);
        }
        let r0 = paused_row_of(e);
        tables.push(r0);
        proof {
            assert(tables@ =~= prev + seq![r0]);
            assert(rows_view(tables@) =~= rows_view(prev) + seq![row_view(r0)]);
            assert(seq![row_view(r0)] =~= (|e: LendergroupPaused| seq![paused_row(e)])(*e));
        }
        i = i + 1;
    }
    proof {
        assert(events.lendergroup_pauseds@.take(events.lendergroup_pauseds@.len() as int) =~= events.lendergroup_pauseds@);
    }
}

/// The rows of the `LendergroupPaused` events.
#[verifier::opaque]
pub open spec fn paused_rows(events: Events, enrichment: Seq<PoolEnrichment>) -> Seq<RowView> {
    flat_ops(events.lendergroup_pauseds@, |e: LendergroupPaused| seq![paused_row(e)])
}

/// Appends the rows of the `LendergroupPoolInitialized` events.
fn pool_initialized_rows_out(events: &Events, enrichment: &Vec<PoolEnrichment>, tables: &mut Vec<RowOp>)
    ensures
        rows_view(final(tables)@) == rows_view(old(tables)@) + pool_initialized_rows(*events, enrichment@),
{
    proof {
        reveal(pool_initialized_rows);
    }
    let ghost before = rows_view(tables@);
    proof {
        assert(events.lendergroup_pool_initializeds@.take(0) =~= Seq::<LendergroupPoolInitialized>::empty());
        assert(before + flat_ops(events.lendergroup_pool_initializeds@.take(0), |e: LendergroupPoolInitialized| seq![pool_initialized_row(e), pool_metric_row(e, enrichment@)]) =~= before);
    }
    let mut i: usize = 0;
    while i < events.lendergroup_pool_initializeds.len()
        invariant
            i <= events.lendergroup_pool_initializeds@.len(),
            rows_view(tables@) == before + flat_ops(events.lendergroup_pool_initializeds@.take(i as int), |e: LendergroupPoolInitialized| seq![pool_initialized_row(e), pool_metric_row(e, enrichment@)]),
        decreases events.lendergroup_pool_initializeds@.len() - i,
    {
        let e = &events.lendergroup_pool_initializeds[i];
        let ghost prev = tables@;
        proof {
            crate::metrics::lemma_flat_step(events.lendergroup_pool_initializeds@, i as int, |e: LendergroupPoolInitialized| seq![pool_initialized_row(e), pool_metric_row(e, enrichment@)]);
        }
        let r0 = pool_initialized_row_of(e);
        let r1 = pool_metric_row_of(e, enrichment);
        tables.push(r0);
        tables.push(r1);
        proof {
            assert(tables@ =~= prev + seq![r0, r1]);
            assert(rows_view(tables@) =~= rows_view(prev) + seq![row_view(r0), row_view(r1)]);
            assert(seq![row_view(r0), row_view(r1)] =~= (|e: LendergroupPoolInitialized| seq![pool_initialized_row(e), pool_metric_row(e, enrichment@)])(*e));
        }
        i = i + 1;
    }
    proof {
        assert(events.lendergroup_pool_initializeds@.take(events.lendergroup_pool_initializeds@.len() as int) =~= events.lendergroup_pool_initializeds@);
    }
}

/// The rows of the `LendergroupPoolInitialized` events.
#[verifier::opaque]
pub open spec fn pool_initialized_rows(events: Events, enrichment: Seq<PoolEnrichment>) -> Seq<RowView> {
    flat_ops(events.lendergroup_pool_initializeds@, |e: LendergroupPoolInitialized| seq![pool_initialized_row(e), pool_metric_row(e, enrichment)])
}

/// Appends the rows of the `LendergroupUnpaused` events.
fn unpaused_rows_out(events: &Events, enrichment: &Vec<PoolEnrichment>, tables: &mut Vec<RowOp>)
    ensures
        rows_view(final(tables)@) == rows_view(old(tables)@) + unpaused_rows(*events, enrichment@),
{
    proof {
        reveal(unpaused_rows);
    }
    let ghost before = rows_view(tables@);
    proof {
        assert(events.lendergroup_unpauseds@.take(0) =~= Seq::<LendergroupUnpaused>::empty());
        assert(before + flat_ops(events.lendergroup_unpauseds@.take(0), |e: LendergroupUnpaused| seq![unpaused_row(e)]) =~= before);
    }
    let mut i: usize = 0;
    while i < events.lendergroup_unpauseds.len()
        invariant
            i <= events.lendergroup_unpauseds@.len(),
            rows_view(tables@) == before + flat_ops(events.lendergroup_unpauseds@.take(i as int), |e: LendergroupUnpaused| seq![unpaused_row(e)]),
        decreases events.lendergroup_unpauseds@.len() - i,
    {
        let e = &events.lendergroup_unpauseds[i];
        let ghost prev = tables@;
        proof {
            crate::metrics::lemma_flat_step(events.lendergroup_unpauseds@, i as int, |e: LendergroupUnpaused| seq![unpaused_row(e)]);
        }
        let r0 = unpaused_row_of(e);
        tables.push(r0);
        proof {
            assert(tables@ =~= prev + seq![r0]);
            assert(rows_view(tables@) =~= rows_view(prev) + seq![row_view(r0)]);
            assert(seq![row_view(r0)] =~= (|e: LendergroupUnpaused| seq![unpaused_row(e)])(*e));
        }
        i = i + 1;
    }
    proof {
        assert(events.lendergroup_unpauseds@.take(events.lendergroup_unpauseds@.len() as int) =~= events.lendergroup_unpauseds@);
    }
}

/// The rows of the `LendergroupUnpaused` events.
#[verifier::opaque]
pub open spec fn unpaused_rows(events: Events, enrichment: Seq<PoolEnrichment>) -> Seq<RowView> {
    flat_ops(events.lendergroup_unpauseds@, |e: LendergroupUnpaused| seq![unpaused_row(e)])
}

/// Appends the rows of the pool events.
pub fn event_rows_out(events: &Events, enrichment: &Vec<PoolEnrichment>, tables: &mut Vec<RowOp>)
    ensures
        rows_view(final(tables)@) == rows_view(old(tables)@) + event_rows(*events, enrichment@),
{
    let ghost start = rows_view(tables@);
    let ghost mut acc = start;
    borrower_accepted_rows_out(events, enrichment, tables);
    proof {
        acc = acc + borrower_accepted_rows(*events, enrichment@);
        assert(rows_view(tables@) =~= acc);
    }
    liquidated_rows_out(events, enrichment, tables);
    proof {
        acc = acc + liquidated_rows(*events, enrichment@);
        assert(rows_view(tables@) =~= acc);
    }
    earnings_withdrawn_rows_out(events, enrichment, tables);
    proof {
        acc = acc + earnings_withdrawn_rows(*events, enrichment@);
        assert(rows_view(tables@) =~= acc);
    }
    initialized_rows_out(events, enrichment, tables);
    proof {
        acc = acc + initialized_rows(*events, enrichment@);
        assert(rows_view(tables@) =~= acc);
    }
    lender_added_rows_out(events, enrichment, tables);
    proof {
        acc = acc + lender_added_rows(*events, enrichment@);
        assert(rows_view(tables@) =~= acc);
    }
    loan_repaid_rows_out(events, enrichment, tables);
    proof {
        acc = acc + loan_repaid_rows(*events, enrichment@);
        assert(rows_view(tables@) =~= acc);
    }
    ownership_transferred_rows_out(events, enrichment, tables);
    proof {
        acc = acc + ownership_transferred_rows(*events, enrichment@);
        assert(rows_view(tables@) =~= acc);
    }
    paused_rows_out(events, enrichment, tables);
    proof {
        acc = acc + paused_rows(*events, enrichment@);
        assert(rows_view(tables@) =~= acc);
    }
    pool_initialized_rows_out(events, enrichment, tables);
    proof {
        acc = acc + pool_initialized_rows(*events, enrichment@);
        assert(rows_view(tables@) =~= acc);
    }
    unpaused_rows_out(events, enrichment, tables);
    proof {
        acc = acc + unpaused_rows(*events, enrichment@);
        assert(rows_view(tables@) =~= acc);
    }
    proof {
        assert(rows_view(tables@) =~= start + event_rows(*events, enrichment@));
    }
}

} // verus!
