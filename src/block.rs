//! A block as the extractor reads it: its number and time, and its logs in
//! on-chain order, each already decoded against the known event signatures.
use vstd::prelude::*;

verus! {

/// One block.
pub struct Block {
    pub number: u64,
    pub timestamp_seconds: u64,
    /// Every log of every transaction, in on-chain order.
    pub logs: Vec<Log>,
}

/// One log of a transaction receipt.
pub struct Log {
    /// Hash of the transaction that emitted the log.
    pub tx_hash: Vec<u8>,
    /// The emitting contract.
    pub address: Vec<u8>,
    /// Position of the log within the block.
    pub block_index: u32,
    /// Position of the log among all ordered items of the block.
    pub ordinal: u64,
    /// The event the log carries, if its selector is a known one.
    pub event: LogEvent,
}

/// The decoded payload of a log. Amounts are decimal texts.
pub enum LogEvent {
    Unrecognized,
    DeployedLenderGroupContract {
        group_contract: Vec<u8>,
    },
    BorrowerAcceptedFunds {
        borrower: Vec<u8>,
        bid_id: String,
        principal_amount: String,
        collateral_amount: String,
        loan_duration: u64,
        interest_rate: u64,
    },
    DefaultedLoanLiquidated {
        bid_id: String,
        liquidator: Vec<u8>,
        amount_due: String,
        token_amount_difference: String,
    },
    EarningsWithdrawn {
        lender: Vec<u8>,
        amount_pool_shares_tokens: String,
        principal_tokens_withdrawn: String,
        recipient: Vec<u8>,
    },
    Initialized {
        version: u64,
    },
    LenderAddedPrincipal {
        lender: Vec<u8>,
        amount: String,
        shares_amount: String,
        shares_recipient: Vec<u8>,
    },
    LoanRepaid {
        bid_id: String,
        repayer: Vec<u8>,
        principal_amount: String,
        interest_amount: String,
        total_principal_repaid: String,
        total_interest_collected: String,
    },
    OwnershipTransferred {
        previous_owner: Vec<u8>,
        new_owner: Vec<u8>,
    },
    Paused {
        account: Vec<u8>,
    },
    PoolInitialized {
        principal_token_address: Vec<u8>,
        collateral_token_address: Vec<u8>,
        market_id: String,
        max_loan_duration: u64,
        interest_rate_lower_bound: u64,
        interest_rate_upper_bound: u64,
        liquidity_threshold_percent: u64,
        loan_to_value_percent: u64,
        pool_shares_token: Vec<u8>,
    },
    Unpaused {
        account: Vec<u8>,
    },
    CollateralWithdrawn {
        bid_id: String,
        collateral_type: u32,
        collateral_address: Vec<u8>,
        amount: String,
        token_id: String,
        recipient: Vec<u8>,
    },
}

/// The logs of a sequence that a predicate keeps, in order.
pub open spec fn select(logs: Seq<Log>, keep: spec_fn(Log) -> bool) -> Seq<Log>
    decreases logs.len(),
{
    if logs.len() == 0 {
        Seq::empty()
    } else {
        let front = select(logs.drop_last(), keep);
        if keep(logs.last()) {
            front.push(logs.last())
        } else {
            front
        }
    }
}

/// Selecting from one more log.
pub proof fn lemma_select_step(logs: Seq<Log>, i: int, keep: spec_fn(Log) -> bool)
    requires
        0 <= i < logs.len(),
    ensures
        select(logs.take(i + 1), keep) == if keep(logs[i]) {
            select(logs.take(i), keep).push(logs[i])
        } else {
            select(logs.take(i), keep)
        },
{
    assert(logs.take(i + 1).drop_last() =~= logs.take(i));
    assert(logs.take(i + 1).last() == logs[i]);
}

/// `out` is `before` followed by one record per source log, each record
/// related to its log by `m`.
pub open spec fn extends_with<T>(
    out: Seq<T>,
    before: Seq<T>,
    src: Seq<Log>,
    m: spec_fn(T, Log) -> bool,
) -> bool {
    &&& out.len() == before.len() + src.len()
    &&& out.take(before.len() as int) == before
    &&& forall|j: int| 0 <= j < src.len() ==> #[trigger] m(out[before.len() + j], src[j])
}

/// Appending a record for one more source log keeps the relation.
pub proof fn lemma_extends_push<T>(
    out: Seq<T>,
    before: Seq<T>,
    src: Seq<Log>,
    m: spec_fn(T, Log) -> bool,
    r: T,
    l: Log,
)
    requires
        extends_with(out, before, src, m),
        m(r, l),
    ensures
        extends_with(out.push(r), before, src.push(l), m),
{
    let o2 = out.push(r);
    let s2 = src.push(l);
    assert(o2.take(before.len() as int) =~= out.take(before.len() as int));
    assert forall|j: int| 0 <= j < s2.len() implies #[trigger] m(o2[before.len() + j], s2[j]) by {
        if j < src.len() {
            assert(o2[before.len() + j] == out[before.len() + j]);
            assert(m(out[before.len() + j], src[j]));
        }
    }
}

/// Nothing appended.
pub proof fn lemma_extends_empty<T>(out: Seq<T>, m: spec_fn(T, Log) -> bool)
    ensures
        extends_with(out, out, Seq::empty(), m),
{
    assert(out.take(out.len() as int) =~= out);
}

} // verus!
