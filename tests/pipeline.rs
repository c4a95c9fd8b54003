use lendergroup_indexer::block::{Block, Log, LogEvent};
use lendergroup_indexer::collateral;
use lendergroup_indexer::delta_rows::graph_out;
use lendergroup_indexer::indexer::IndexerState;
use lendergroup_indexer::extract::{
    is_declared_dds_address, map_collateralmanager_events, map_events,
    pool_initialization_requests, store_factory_lendergroup_created,
    LenderGroupPoolInitializationDataFromRpc, PoolInitializationRead,
};
use lendergroup_indexer::metrics::{
    amount_or_zero, store_bid_collateral_withdrawn_data_deltas, store_globals_from_events,
    store_lendergroup_pool_metrics_deltas,
};
use lendergroup_indexer::project::{Operation, PoolEnrichment, RowOp, Value};
use lendergroup_indexer::registry::AddressRegistry;
use lendergroup_indexer::store::{AddStore, Delta, SetStore};

const FACTORY: [u8; 20] = [
    0x44, 0xCE, 0x8F, 0xA6, 0x6D, 0x6E, 0xDF, 0x0C, 0x5C, 0x66, 0x8B, 0x81, 0x8A, 0x92, 0x2E,
    0x77, 0x2C, 0x72, 0x56, 0x8B,
];
const MANAGER: [u8; 20] = [
    0x76, 0x88, 0x8A, 0x88, 0x2A, 0x4F, 0xF5, 0x74, 0x55, 0xB5, 0xE5, 0xB7, 0x4B, 0x79, 0x1D,
    0xD1, 0x9D, 0xF3, 0xBA, 0x51,
];

fn pool_aa() -> Vec<u8> {
    vec![0xAA; 20]
}

fn pool_bb() -> Vec<u8> {
    vec![0xBB; 20]
}

fn hex_aa() -> String {
    "aa".repeat(20)
}

fn hex_bb() -> String {
    "bb".repeat(20)
}

fn log(address: Vec<u8>, index: u32, ordinal: u64, event: LogEvent) -> Log {
    Log { tx_hash: vec![0x01, 0x02], address, block_index: index, ordinal, event }
}

fn deploy_log(pool: Vec<u8>, ordinal: u64) -> Log {
    log(FACTORY.to_vec(), 0, ordinal, LogEvent::DeployedLenderGroupContract { group_contract: pool })
}

fn pool_initialized_log(pool: Vec<u8>, ordinal: u64) -> Log {
    log(
        pool,
        1,
        ordinal,
        LogEvent::PoolInitialized {
            principal_token_address: vec![0x11; 20],
            collateral_token_address: vec![0x22; 20],
            market_id: "5".to_string(),
            max_loan_duration: 86400,
            interest_rate_lower_bound: 100,
            interest_rate_upper_bound: 800,
            liquidity_threshold_percent: 9000,
            loan_to_value_percent: 7000,
            pool_shares_token: vec![0x33; 20],
        },
    )
}

fn reads_for(pool: &str) -> Vec<PoolInitializationRead> {
    vec![PoolInitializationRead {
        pool_address: pool.to_string(),
        data: Some(LenderGroupPoolInitializationDataFromRpc {
            teller_v2_address: vec![0x44; 20],
            smart_commitment_forwarder_address: vec![0x55; 20],
        }),
    }]
}

fn lender_added_log(pool: Vec<u8>, amount: &str, ordinal: u64) -> Log {
    log(
        pool,
        2,
        ordinal,
        LogEvent::LenderAddedPrincipal {
            lender: vec![0x66; 20],
            amount: amount.to_string(),
            shares_amount: amount.to_string(),
            shares_recipient: vec![0x66; 20],
        },
    )
}

fn borrower_accepted_log(pool: Vec<u8>, bid: &str, principal: &str, ordinal: u64) -> Log {
    log(
        pool,
        3,
        ordinal,
        LogEvent::BorrowerAcceptedFunds {
            borrower: vec![0x77; 20],
            bid_id: bid.to_string(),
            principal_amount: principal.to_string(),
            collateral_amount: "10".to_string(),
            loan_duration: 3600,
            interest_rate: 500,
        },
    )
}

fn column<'a>(row: &'a RowOp, name: &str) -> Option<&'a Value> {
    row.columns.iter().find(|c| c.name == name).map(|c| &c.value)
}

fn big(s: &str) -> Value {
    Value::BigInt(s.to_string())
}

#[test]
fn registry_record_is_idempotent() {
    let mut r = AddressRegistry::new();
    r.record("abc", 10, 3);
    assert!(r.is_registered("abc"));
    r.record("abc", 12, 0);
    assert!(r.is_registered("abc"));
    assert!(r.is_registered_at("abc", 10, 4));
    assert!(!r.is_registered_at("abc", 10, 3));
    assert!(!r.is_registered_at("abc", 9, 100));
    assert!(r.is_registered_at("abc", 11, 0));
}

#[test]
fn additive_store_conserves_deltas() {
    let mut s = AddStore::new();
    s.add("k", &"5".to_string());
    s.add("k", &"-2".to_string());
    s.add("k", &"0".to_string());
    s.add("j", &"7".to_string());
    assert_eq!(s.get("k"), Some("3".to_string()));
    assert_eq!(s.get("j"), Some("7".to_string()));
    assert_eq!(s.get("x"), None);
    let deltas = s.end_block();
    assert_eq!(deltas.len(), 4);
    let mut sum: i64 = 0;
    for d in deltas.iter().filter(|d| d.key == "k") {
        sum += d.new_value.parse::<i64>().unwrap() - d.old_value.parse::<i64>().unwrap();
    }
    assert_eq!(sum, 3);
    assert_eq!(deltas[2].old_value, "3");
    assert_eq!(deltas[2].new_value, "3");
    assert!(s.deltas().is_empty());
    assert_eq!(s.get("k"), Some("3".to_string()));
}

#[test]
fn additive_store_handles_large_values() {
    let mut s = AddStore::new();
    let big_amount = "340282366920938463463374607431768211456".to_string();
    s.add("k", &big_amount);
    s.add("k", &big_amount);
    assert_eq!(s.get("k"), Some("680564733841876926926749214863536422912".to_string()));
}

#[test]
fn last_write_store_replaces() {
    let mut s = SetStore::new();
    s.set("bid_originated_from_pool:7", "aa");
    s.set("bid_originated_from_pool:7", "bb");
    assert_eq!(s.get("bid_originated_from_pool:7"), Some("bb".to_string()));
}

#[test]
fn amounts_read_as_base_ten() {
    assert_eq!(amount_or_zero(&"1_000".to_string()), "1000");
    assert_eq!(amount_or_zero(&"+42".to_string()), "42");
    assert_eq!(amount_or_zero(&"-0".to_string()), "0");
    assert_eq!(amount_or_zero(&"007".to_string()), "7");
    assert_eq!(amount_or_zero(&"abc".to_string()), "0");
    assert_eq!(amount_or_zero(&"".to_string()), "0");
}

#[test]
fn factory_deploy_registers_pool() {
    let blk = Block { number: 10, timestamp_seconds: 1000, logs: vec![deploy_log(pool_aa(), 4)] };
    let mut reg = AddressRegistry::new();
    store_factory_lendergroup_created(&blk, &mut reg);
    assert!(reg.is_registered(&hex_aa()));
    assert!(is_declared_dds_address(&pool_aa(), 11, 0, &reg));
    assert!(is_declared_dds_address(&pool_aa(), 10, 5, &reg));
    assert!(!is_declared_dds_address(&pool_aa(), 10, 4, &reg));
    assert!(!is_declared_dds_address(&pool_bb(), 11, 0, &reg));
    store_factory_lendergroup_created(&blk, &mut reg);
    assert!(reg.is_registered(&hex_aa()));
}

#[test]
fn scenario_pool_initialized_after_deploy() {
    let mut reg = AddressRegistry::new();
    let b10 = Block { number: 10, timestamp_seconds: 1000, logs: vec![deploy_log(pool_aa(), 1)] };
    store_factory_lendergroup_created(&b10, &mut reg);
    let e10 = map_events(&b10, &reg, &Vec::new());
    assert_eq!(e10.factory_deployed_lender_group_contracts.len(), 1);
    assert_eq!(e10.factory_deployed_lender_group_contracts[0].group_contract, pool_aa());
    assert_eq!(e10.factory_deployed_lender_group_contracts[0].evt_tx_hash, "0102");

    let b11 = Block { number: 11, timestamp_seconds: 2000, logs: vec![pool_initialized_log(pool_aa(), 1)] };
    let reads = reads_for(&hex_aa());
    let events = map_events(&b11, &reg, &reads);
    assert_eq!(events.lendergroup_pool_initializeds.len(), 1);
    let init = &events.lendergroup_pool_initializeds[0];
    assert_eq!(init.evt_address, hex_aa());
    assert_eq!(init.teller_v2_address, vec![0x44; 20]);
    assert_eq!(init.evt_block_number, 11);

    let mut pool_store = AddStore::new();
    store_lendergroup_pool_metrics_deltas(&events, &mut pool_store);
    let pool_deltas = pool_store.end_block();
    assert_eq!(pool_deltas.len(), 6);
    let metrics = AddStore::new();
    let totals = AddStore::new();
    let rows = graph_out(&events, 11, 2000, &pool_deltas, &metrics, &Vec::new(), &totals, &Vec::new());
    let metric_row = rows.iter().find(|r| r.entity == "group_pool_metric" && r.operation == Operation::Create).unwrap();
    assert_eq!(metric_row.id, hex_aa());
    for name in [
        "total_principal_tokens_committed",
        "total_collateral_tokens_escrowed",
        "total_principal_tokens_withdrawn",
        "total_principal_tokens_borrowed",
        "total_principal_tokens_repaid",
        "total_interest_collected",
        "total_collateral_withdrawn",
    ] {
        assert_eq!(column(metric_row, name), Some(&big("0")), "{}", name);
    }
    assert_eq!(column(metric_row, "group_pool_address"), Some(&Value::Bytes(pool_aa())));
    assert!(rows.iter().any(|r| r.entity == "group_pool_initialized"));
}

fn registered_pools() -> AddressRegistry {
    let mut reg = AddressRegistry::new();
    let b = Block { number: 10, timestamp_seconds: 1000, logs: vec![deploy_log(pool_aa(), 1), deploy_log(pool_bb(), 2)] };
    store_factory_lendergroup_created(&b, &mut reg);
    reg
}

struct Pipeline {
    state: IndexerState,
}

impl Pipeline {
    fn new() -> Pipeline {
        let mut state = IndexerState::new();
        state.registry = registered_pools();
        Pipeline { state }
    }

    fn run(&mut self, blk: &Block) -> Vec<RowOp> {
        let changes = self.state.apply_block(blk, &reads_for(&hex_aa()));
        let enrichment: Vec<PoolEnrichment> = self
            .state
            .pools_to_enrich(&changes)
            .into_iter()
            .map(|p| PoolEnrichment {
                pool_address: p,
                min_interest_rate: Some("250".to_string()),
                token_difference_from_liquidations: None,
            })
            .collect();
        self.state.project_block(blk, &changes, &enrichment)
    }
}

#[test]
fn scenario_principal_then_borrow() {
    let mut p = Pipeline::new();
    let b12 = Block { number: 12, timestamp_seconds: 86400 * 3 + 10, logs: vec![lender_added_log(pool_aa(), "100", 5)] };
    let rows12 = p.run(&b12);
    let b13 = Block { number: 13, timestamp_seconds: 86400 * 3 + 20, logs: vec![borrower_accepted_log(pool_aa(), "9", "40", 5)] };
    let rows13 = p.run(&b13);
    let committed = format!("group_pool_metric:{}:total_principal_tokens_committed", hex_aa());
    let borrowed = format!("group_pool_metric:{}:total_principal_tokens_borrowed", hex_aa());
    assert_eq!(p.state.pool_metrics.get(&committed), Some("100".to_string()));
    assert_eq!(p.state.pool_metrics.get(&borrowed), Some("40".to_string()));
    let upd12 = rows12.iter().find(|r| r.operation == Operation::Update && column(r, "total_principal_tokens_committed").is_some()).unwrap();
    assert_eq!(upd12.id, hex_aa());
    assert_eq!(column(upd12, "total_principal_tokens_committed"), Some(&big("100")));
    let upd13 = rows13.iter().find(|r| r.operation == Operation::Update && column(r, "total_principal_tokens_borrowed").is_some()).unwrap();
    assert_eq!(column(upd13, "total_principal_tokens_borrowed"), Some(&big("40")));
    let daily12: Vec<&RowOp> = rows12.iter().filter(|r| r.entity == "group_pool_metric_data_point_daily").collect();
    let daily13: Vec<&RowOp> = rows13.iter().filter(|r| r.entity == "group_pool_metric_data_point_daily").collect();
    assert_eq!(daily12.len(), 1);
    assert_eq!(daily13.len(), 1);
    assert_eq!(daily12[0].id, format!("{}_3", hex_aa()));
    assert_eq!(daily13[0].id, format!("{}_3", hex_aa()));
    assert_eq!(column(daily12[0], "total_principal_tokens_committed"), Some(&big("100")));
    assert_eq!(column(daily12[0], "total_principal_tokens_borrowed"), Some(&big("0")));
    assert_eq!(column(daily13[0], "total_principal_tokens_committed"), Some(&big("100")));
    assert_eq!(column(daily13[0], "total_principal_tokens_borrowed"), Some(&big("40")));
    let min_rate = rows13.iter().find(|r| column(r, "current_min_interest_rate").is_some() && r.operation == Operation::Update).unwrap();
    assert_eq!(column(min_rate, "current_min_interest_rate"), Some(&big("250")));
    let bid = rows13.iter().find(|r| r.entity == "group_pool_bid").unwrap();
    assert_eq!(bid.id, hex_aa());
}

#[test]
fn scenario_collateral_withdrawn_joins_bid_to_pool() {
    let mut p = Pipeline::new();
    let link = Block { number: 12, timestamp_seconds: 100, logs: vec![borrower_accepted_log(pool_bb(), "7", "50", 3)] };
    p.run(&link);
    let withdrawal = log(
        MANAGER.to_vec(),
        9,
        4,
        LogEvent::CollateralWithdrawn {
            bid_id: "7".to_string(),
            collateral_type: 0,
            collateral_address: vec![0x22; 20],
            amount: "30".to_string(),
            token_id: "0".to_string(),
            recipient: vec![0x77; 20],
        },
    );
    let b = Block { number: 20, timestamp_seconds: 200, logs: vec![withdrawal] };
    let collateral_events = map_collateralmanager_events(&b);
    assert_eq!(collateral_events.collateral_manager_collateral_withdrawn.len(), 1);
    assert_eq!(collateral_events.collateral_manager_collateral_withdrawn[0].amount, "30");
    p.run(&b);
    let key = format!("total_collateral_amount_withdrawn:{}", hex_bb());
    assert_eq!(p.state.pool_collateral.get(&key), Some("30".to_string()));
}

#[test]
fn collateral_of_unlinked_bid_is_skipped() {
    let mut p = Pipeline::new();
    let withdrawal = log(
        MANAGER.to_vec(),
        9,
        4,
        LogEvent::CollateralWithdrawn {
            bid_id: "8".to_string(),
            collateral_type: 0,
            collateral_address: vec![0x22; 20],
            amount: "30".to_string(),
            token_id: "0".to_string(),
            recipient: vec![0x77; 20],
        },
    );
    p.run(&Block { number: 20, timestamp_seconds: 200, logs: vec![withdrawal] });
    let bid_key = format!("collateral_amount_withdrawn:8:{}", "22".repeat(20));
    assert_eq!(p.state.bid_collateral.get(&bid_key), Some("30".to_string()));
    assert_eq!(p.state.pool_collateral.get(&format!("total_collateral_amount_withdrawn:{}", hex_bb())), None);
}

#[test]
fn snapshot_buckets_by_day_and_week() {
    let mut p = Pipeline::new();
    let t: u64 = 604800 * 2 + 86400 * 3 + 7;
    let b = Block {
        number: 30,
        timestamp_seconds: t,
        logs: vec![lender_added_log(pool_aa(), "5", 1), lender_added_log(pool_aa(), "6", 2)],
    };
    let rows = p.run(&b);
    let by_block: Vec<&RowOp> = rows.iter().filter(|r| r.entity == "group_pool_metric_data_point").collect();
    let daily: Vec<&RowOp> = rows.iter().filter(|r| r.entity == "group_pool_metric_data_point_daily").collect();
    let weekly: Vec<&RowOp> = rows.iter().filter(|r| r.entity == "group_pool_metric_data_point_weekly").collect();
    assert_eq!(by_block.len(), 1);
    assert_eq!(daily.len(), 1);
    assert_eq!(weekly.len(), 1);
    assert_eq!(by_block[0].id, format!("{}_30", hex_aa()));
    assert_eq!(daily[0].id, format!("{}_17", hex_aa()));
    assert_eq!(weekly[0].id, format!("{}_2", hex_aa()));
    assert_eq!(column(daily[0], "total_principal_tokens_committed"), Some(&big("11")));
    assert_eq!(column(daily[0], "block_time"), Some(&big(&t.to_string())));
}

#[test]
fn user_row_created_on_first_interaction_only() {
    let mut p = Pipeline::new();
    let first = p.run(&Block { number: 12, timestamp_seconds: 100, logs: vec![lender_added_log(pool_aa(), "5", 1)] });
    let creates: Vec<&RowOp> = first.iter().filter(|r| r.entity == "group_user_metric" && r.operation == Operation::Create).collect();
    assert_eq!(creates.len(), 1);
    assert_eq!(creates[0].id, format!("{}_{}", hex_aa(), "66".repeat(20)));
    assert_eq!(column(creates[0], "user_address"), Some(&Value::Bytes(vec![0x66; 20])));
    let second = p.run(&Block { number: 13, timestamp_seconds: 200, logs: vec![lender_added_log(pool_aa(), "6", 1)] });
    assert!(!second.iter().any(|r| r.entity == "group_user_metric" && r.operation == Operation::Create));
    let update = second.iter().find(|r| r.entity == "group_user_metric" && r.operation == Operation::Update).unwrap();
    assert_eq!(column(update, "total_principal_tokens_committed"), Some(&big("11")));
}

#[test]
fn logs_of_unregistered_pools_are_ignored() {
    let p = Pipeline::new();
    let other = vec![0xCC; 20];
    let b = Block { number: 12, timestamp_seconds: 100, logs: vec![lender_added_log(other, "5", 1)] };
    let events = map_events(&b, &p.state.registry, &Vec::new());
    assert!(events.lendergroup_lender_added_principals.is_empty());
}

#[test]
fn failed_initialization_read_drops_event() {
    let p = Pipeline::new();
    let b = Block { number: 12, timestamp_seconds: 100, logs: vec![pool_initialized_log(pool_bb(), 1)] };
    let failed = vec![PoolInitializationRead { pool_address: hex_bb(), data: None }];
    let events = map_events(&b, &p.state.registry, &failed);
    assert!(events.lendergroup_pool_initializeds.is_empty());
}

#[test]
fn deploy_and_event_in_same_block_respect_ordinals() {
    let reg_block = Block {
        number: 40,
        timestamp_seconds: 100,
        logs: vec![lender_added_log(vec![0xDD; 20], "1", 1), deploy_log(vec![0xDD; 20], 2), lender_added_log(vec![0xDD; 20], "2", 3)],
    };
    let mut reg = AddressRegistry::new();
    store_factory_lendergroup_created(&reg_block, &mut reg);
    let events = map_events(&reg_block, &reg, &Vec::new());
    assert_eq!(events.lendergroup_lender_added_principals.len(), 1);
    assert_eq!(events.lendergroup_lender_added_principals[0].amount, "2");
}

#[test]
fn empty_collateral_events_change_nothing() {
    let mut s = AddStore::new();
    store_bid_collateral_withdrawn_data_deltas(&collateral::Events::default(), &mut s);
    assert!(s.deltas().is_empty());
}

#[test]
fn collateral_changes_accumulate_per_pool() {
    let mut p = Pipeline::new();
    let link = Block { number: 12, timestamp_seconds: 100, logs: vec![borrower_accepted_log(pool_bb(), "7", "50", 3)] };
    p.run(&link);
    let withdrawal = |amount: &str| {
        log(
            MANAGER.to_vec(),
            9,
            4,
            LogEvent::CollateralWithdrawn {
                bid_id: "7".to_string(),
                collateral_type: 0,
                collateral_address: vec![0x22; 20],
                amount: amount.to_string(),
                token_id: "0".to_string(),
                recipient: vec![0x77; 20],
            },
        )
    };
    p.run(&Block { number: 20, timestamp_seconds: 200, logs: vec![withdrawal("30")] });
    p.run(&Block { number: 21, timestamp_seconds: 300, logs: vec![withdrawal("20")] });
    let key = format!("total_collateral_amount_withdrawn:{}", hex_bb());
    assert_eq!(p.state.pool_collateral.get(&key), Some("50".to_string()));
    let bid_key = format!("collateral_amount_withdrawn:7:{}", "22".repeat(20));
    assert_eq!(p.state.bid_collateral.get(&bid_key), Some("50".to_string()));
}

#[test]
fn globals_follow_last_event() {
    let mut globals = SetStore::new();
    let reg = registered_pools();
    let b = Block { number: 77, timestamp_seconds: 9000, logs: vec![lender_added_log(pool_aa(), "1", 1)] };
    let events = map_events(&b, &reg, &Vec::new());
    store_globals_from_events(&events, &mut globals);
    assert_eq!(globals.get("latest_block_number"), Some("77".to_string()));
    assert_eq!(globals.get("latest_block_time"), Some("9000".to_string()));
}

#[test]
fn initialization_reads_requested_for_registered_pools() {
    let reg = registered_pools();
    let b = Block {
        number: 12,
        timestamp_seconds: 100,
        logs: vec![pool_initialized_log(pool_bb(), 1), pool_initialized_log(vec![0xCC; 20], 2), pool_initialized_log(pool_aa(), 3)],
    };
    assert_eq!(pool_initialization_requests(&b, &reg), vec![hex_bb(), hex_aa()]);
}

fn interaction_delta(old: &str, new: &str) -> Delta {
    Delta {
        key: format!("group_user_metric:{}:{}:interaction_count", hex_aa(), "66".repeat(20)),
        old_value: old.to_string(),
        new_value: new.to_string(),
    }
}

fn user_creates(deltas: Vec<Delta>) -> usize {
    let events = lendergroup_indexer::extract::empty_events();
    let rows = graph_out(&events, 1, 1, &Vec::new(), &AddStore::new(), &deltas, &AddStore::new(), &Vec::new());
    rows.iter().filter(|r| r.entity == "group_user_metric" && r.operation == Operation::Create).count()
}

#[test]
fn user_row_needs_count_from_zero_to_one() {
    assert_eq!(user_creates(vec![interaction_delta("0", "1")]), 1);
    assert_eq!(user_creates(vec![interaction_delta("5", "1")]), 0);
    assert_eq!(user_creates(vec![interaction_delta("1", "1")]), 0);
    assert_eq!(user_creates(vec![interaction_delta("1", "2")]), 0);
    assert_eq!(user_creates(vec![interaction_delta("0", "2")]), 0);
}

#[test]
fn delta_log_records_value_before_and_after() {
    let mut p = Pipeline::new();
    p.run(&Block { number: 12, timestamp_seconds: 100, logs: vec![lender_added_log(pool_aa(), "100", 1)] });
    let changes = p.state.apply_block(
        &Block { number: 13, timestamp_seconds: 200, logs: vec![lender_added_log(pool_aa(), "25", 1)] },
        &Vec::new(),
    );
    let key = format!("group_pool_metric:{}:total_principal_tokens_committed", hex_aa());
    let d = changes.pool_deltas.iter().find(|d| d.key == key).unwrap();
    assert_eq!(d.old_value, "100");
    assert_eq!(d.new_value, "125");
}

#[test]
fn repayment_advances_latest_block() {
    let mut p = Pipeline::new();
    let repaid = log(
        pool_aa(),
        4,
        1,
        LogEvent::LoanRepaid {
            bid_id: "3".to_string(),
            repayer: vec![0x77; 20],
            principal_amount: "10".to_string(),
            interest_amount: "1".to_string(),
            total_principal_repaid: "10".to_string(),
            total_interest_collected: "1".to_string(),
        },
    );
    p.run(&Block { number: 55, timestamp_seconds: 5500, logs: vec![repaid] });
    assert_eq!(p.state.globals.get("latest_block_number"), Some("55".to_string()));
    assert_eq!(p.state.globals.get("latest_block_time"), Some("5500".to_string()));
}
