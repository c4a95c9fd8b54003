//! Store handlers: the writes each event makes to the keyed aggregate
//! stores, and the stores derived from their deltas.
use vstd::prelude::*;
use crate::collateral;
use crate::contract::{
    Events, LendergroupBorrowerAcceptedFunds, LendergroupDefaultedLoanLiquidated,
    LendergroupEarningsWithdrawn, LendergroupLenderAddedPrincipal, LendergroupLoanRepaid,
    LendergroupPoolInitialized,
};
use crate::keys::{join2, join3, join4, key2, key3, key4, segment_at, segments};
use crate::store::{
    apply_ops, apply_sets, delta_triple, delta_wf, write_delta, entry_pair, op_pair, op_pairs, ops_wf, str_equal,
    AddStore, Delta, Entry, SetStore, StoreOp,
};
use crate::text::{
    bigint_canonical, bigint_difference, hex_of, hex_text, int_text, int_value, is_int_text,
    lemma_text_int, text_int, u64_text,
};

verus! {

/// The items of a list, each element giving its own items, in order.
pub open spec fn flat_ops<T, U>(s: Seq<T>, f: spec_fn(T) -> Seq<U>) -> Seq<U>
    decreases s.len(),
{
    if s.len() == 0 {
        Seq::empty()
    } else {
        flat_ops(s.drop_last(), f) + f(s.last())
    }
}

/// Flattening one more element appends its items.
pub proof fn lemma_flat_step<T, U>(s: Seq<T>, i: int, f: spec_fn(T) -> Seq<U>)
    requires
        0 <= i < s.len(),
    ensures
        flat_ops(s.take(i + 1), f) == flat_ops(s.take(i), f) + f(s[i]),
{
    assert(s.take(i + 1).drop_last() =~= s.take(i));
    assert(s.take(i + 1).last() == s[i]);
}

/// The amount an event text stands for: its integer, or zero where the text
/// is no integer.
pub open spec fn amount_value(s: Seq<char>) -> int {
    match int_value(s) {
        Some(v) => v,
        None => 0,
    }
}

/// The canonical text of an event amount, zero where the text is no integer.
pub fn amount_or_zero(s: &String) -> (r: String)
    ensures
        is_int_text(r@),
        text_int(r@) == amount_value(s@),
{
    match bigint_canonical(s.as_str()) {
        Some(t) => {
            proof {
                lemma_text_int(amount_value(s@));
            }
            t
        },
        None => zero(),
    }
}

fn zero() -> (r: String)
    ensures
        is_int_text(r@),
        text_int(r@) == 0,
{
    proof {
        reveal_strlit("0");
        assert(int_text(0) =~= "0"@);
        lemma_text_int(0);
    }
    "0".to_string()
}

fn one() -> (r: String)
    ensures
        is_int_text(r@),
        text_int(r@) == 1,
{
    proof {
        reveal_strlit("1");
        assert(int_text(1) =~= "1"@);
        lemma_text_int(1);
    }
    "1".to_string()
}

/// The metric name `total_principal_tokens_committed`.
pub open spec fn committed_metric() -> Seq<char> {
    "total_principal_tokens_committed"@
}

/// The metric name `total_principal_tokens_borrowed`.
pub open spec fn borrowed_metric() -> Seq<char> {
    "total_principal_tokens_borrowed"@
}

/// The metric name `total_principal_tokens_withdrawn`.
pub open spec fn withdrawn_metric() -> Seq<char> {
    "total_principal_tokens_withdrawn"@
}

/// The metric name `total_principal_tokens_repaid`.
pub open spec fn repaid_metric() -> Seq<char> {
    "total_principal_tokens_repaid"@
}

/// The metric name `total_interest_collected`.
pub open spec fn interest_metric() -> Seq<char> {
    "total_interest_collected"@
}

/// The metric name `total_collateral_tokens_escrowed`.
pub open spec fn escrowed_metric() -> Seq<char> {
    "total_collateral_tokens_escrowed"@
}

/// The metric name `interaction_count`.
pub open spec fn interactions_metric() -> Seq<char> {
    "interaction_count"@
}

/// The kind segment of pool metric keys.
pub open spec fn pool_metric_kind() -> Seq<char> {
    "group_pool_metric"@
}

/// The kind segment of user metric keys.
pub open spec fn user_metric_kind() -> Seq<char> {
    "group_user_metric"@
}

/// The key of a metric of a pool.
pub open spec fn pool_key(pool: Seq<char>, metric: Seq<char>) -> Seq<char> {
    key3(pool_metric_kind(), pool, metric)
}

/// The key of a metric of a user of a pool.
pub open spec fn user_key(pool: Seq<char>, user: Seq<char>, metric: Seq<char>) -> Seq<char> {
    key4(user_metric_kind(), pool, user, metric)
}

/// The pool-metric writes of one `LendergroupPoolInitialized`.
pub open spec fn pool_init_ops() -> spec_fn(LendergroupPoolInitialized) -> Seq<(Seq<char>, int)> {
    |e: LendergroupPoolInitialized| seq![(pool_key(e.evt_address@, committed_metric()), 0), (pool_key(e.evt_address@, borrowed_metric()), 0), (pool_key(e.evt_address@, withdrawn_metric()), 0), (pool_key(e.evt_address@, repaid_metric()), 0), (pool_key(e.evt_address@, interest_metric()), 0), (pool_key(e.evt_address@, escrowed_metric()), 0)]
}

/// The pool-metric writes of one `LendergroupLenderAddedPrincipal`.
pub open spec fn pool_lender_added_ops() -> spec_fn(LendergroupLenderAddedPrincipal) -> Seq<(Seq<char>, int)> {
    |e: LendergroupLenderAddedPrincipal| seq![(pool_key(e.evt_address@, committed_metric()), amount_value(e.amount@))]
}

/// The pool-metric writes of one `LendergroupBorrowerAcceptedFunds`.
pub open spec fn pool_borrower_accepted_ops() -> spec_fn(LendergroupBorrowerAcceptedFunds) -> Seq<(Seq<char>, int)> {
    |e: LendergroupBorrowerAcceptedFunds| seq![(pool_key(e.evt_address@, borrowed_metric()), amount_value(e.principal_amount@)), (pool_key(e.evt_address@, escrowed_metric()), amount_value(e.collateral_amount@))]
}

/// The pool-metric writes of one `LendergroupEarningsWithdrawn`.
pub open spec fn pool_earnings_withdrawn_ops() -> spec_fn(LendergroupEarningsWithdrawn) -> Seq<(Seq<char>, int)> {
    |e: LendergroupEarningsWithdrawn| seq![(pool_key(e.evt_address@, withdrawn_metric()), amount_value(e.principal_tokens_withdrawn@))]
}

/// The pool-metric writes of one `LendergroupLoanRepaid`.
pub open spec fn pool_loan_repaid_ops() -> spec_fn(LendergroupLoanRepaid) -> Seq<(Seq<char>, int)> {
    |e: LendergroupLoanRepaid| seq![(pool_key(e.evt_address@, repaid_metric()), amount_value(e.principal_amount@)), (pool_key(e.evt_address@, interest_metric()), amount_value(e.interest_amount@))]
}

/// The pool-metric writes of one `LendergroupDefaultedLoanLiquidated`.
pub open spec fn pool_liquidated_ops() -> spec_fn(LendergroupDefaultedLoanLiquidated) -> Seq<(Seq<char>, int)> {
    |e: LendergroupDefaultedLoanLiquidated| seq![(pool_key(e.evt_address@, repaid_metric()), amount_value(e.amount_due@))]
}

/// The user-metric writes of one `LendergroupLenderAddedPrincipal`.
pub open spec fn user_lender_added_ops() -> spec_fn(LendergroupLenderAddedPrincipal) -> Seq<(Seq<char>, int)> {
    |e: LendergroupLenderAddedPrincipal| seq![(user_key(e.evt_address@, hex_text(e.lender@), interactions_metric()), 1), (user_key(e.evt_address@, hex_text(e.lender@), committed_metric()), amount_value(e.amount@))]
}

/// The user-metric writes of one `LendergroupBorrowerAcceptedFunds`.
pub open spec fn user_borrower_accepted_ops() -> spec_fn(LendergroupBorrowerAcceptedFunds) -> Seq<(Seq<char>, int)> {
    |e: LendergroupBorrowerAcceptedFunds| seq![(user_key(e.evt_address@, hex_text(e.borrower@), interactions_metric()), 1), (user_key(e.evt_address@, hex_text(e.borrower@), borrowed_metric()), amount_value(e.principal_amount@)), (user_key(e.evt_address@, hex_text(e.borrower@), escrowed_metric()), amount_value(e.collateral_amount@))]
}

/// The user-metric writes of one `LendergroupEarningsWithdrawn`.
pub open spec fn user_earnings_withdrawn_ops() -> spec_fn(LendergroupEarningsWithdrawn) -> Seq<(Seq<char>, int)> {
    |e: LendergroupEarningsWithdrawn| seq![(user_key(e.evt_address@, hex_text(e.lender@), interactions_metric()), 1), (user_key(e.evt_address@, hex_text(e.lender@), withdrawn_metric()), amount_value(e.principal_tokens_withdrawn@))]
}

/// The user-metric writes of one `LendergroupLoanRepaid`.
pub open spec fn user_loan_repaid_ops() -> spec_fn(LendergroupLoanRepaid) -> Seq<(Seq<char>, int)> {
    |e: LendergroupLoanRepaid| seq![(user_key(e.evt_address@, hex_text(e.repayer@), interactions_metric()), 1), (user_key(e.evt_address@, hex_text(e.repayer@), repaid_metric()), amount_value(e.principal_amount@)), (user_key(e.evt_address@, hex_text(e.repayer@), interest_metric()), amount_value(e.interest_amount@))]
}

/// The pool-metric writes of a block's events: a zero for every metric of
/// each configured pool, then the amounts of each kind of event.
pub open spec fn pool_metric_ops(events: Events) -> Seq<(Seq<char>, int)> {
    flat_ops(events.lendergroup_pool_initializeds@, pool_init_ops())
        + flat_ops(events.lendergroup_lender_added_principals@, pool_lender_added_ops())
        + flat_ops(events.lendergroup_borrower_accepted_funds@, pool_borrower_accepted_ops())
        + flat_ops(events.lendergroup_earnings_withdrawns@, pool_earnings_withdrawn_ops())
        + flat_ops(events.lendergroup_loan_repaids@, pool_loan_repaid_ops())
        + flat_ops(events.lendergroup_defaulted_loan_liquidateds@, pool_liquidated_ops())
}

/// The user-metric writes of a block's events: one interaction and the
/// amounts for the user behind each event.
pub open spec fn user_metric_ops(events: Events) -> Seq<(Seq<char>, int)> {
    flat_ops(events.lendergroup_lender_added_principals@, user_lender_added_ops())
        + flat_ops(events.lendergroup_borrower_accepted_funds@, user_borrower_accepted_ops())
        + flat_ops(events.lendergroup_earnings_withdrawns@, user_earnings_withdrawn_ops())
        + flat_ops(events.lendergroup_loan_repaids@, user_loan_repaid_ops())
}

/// The pool-metric writes of a block's events, as in `pool_metric_ops`.
pub fn pool_metric_writes(events: &Events) -> (r: Vec<StoreOp>)
    ensures
        ops_wf(r@),
        op_pairs(r@) == pool_metric_ops(*events),
{
    let mut ops: Vec<StoreOp> = Vec::new();
    proof {
        assert(op_pairs(ops@) =~= Seq::<(Seq<char>, int)>::empty());
    }
    let ghost before = op_pairs(ops@);
    proof {
        assert(events.lendergroup_pool_initializeds@.take(0) =~= Seq::<LendergroupPoolInitialized>::empty());
        assert(before + flat_ops(events.lendergroup_pool_initializeds@.take(0), pool_init_ops()) =~= before);
    }
    let mut i: usize = 0;
    while i < events.lendergroup_pool_initializeds.len()
        invariant
            i <= events.lendergroup_pool_initializeds@.len(),
            ops_wf(ops@),
            op_pairs(ops@) == before + flat_ops(events.lendergroup_pool_initializeds@.take(i as int), pool_init_ops()),
        decreases events.lendergroup_pool_initializeds@.len() - i,
    {
        let e = &events.lendergroup_pool_initializeds[i];
        let ghost prev = ops@;
        proof {
            lemma_flat_step(events.lendergroup_pool_initializeds@, i as int, pool_init_ops());
        }
        let key0 = join3("group_pool_metric", e.evt_address.as_str(), "total_principal_tokens_committed");
        let amount0 = zero();
        let op0 = StoreOp { key: key0, amount: amount0 };
        let key1 = join3("group_pool_metric", e.evt_address.as_str(), "total_principal_tokens_borrowed");
        let amount1 = zero();
        let op1 = StoreOp { key: key1, amount: amount1 };
        let key2 = join3("group_pool_metric", e.evt_address.as_str(), "total_principal_tokens_withdrawn");
        let amount2 = zero();
        let op2 = StoreOp { key: key2, amount: amount2 };
        let key3 = join3("group_pool_metric", e.evt_address.as_str(), "total_principal_tokens_repaid");
        let amount3 = zero();
        let op3 = StoreOp { key: key3, amount: amount3 };
        let key4 = join3("group_pool_metric", e.evt_address.as_str(), "total_interest_collected");
        let amount4 = zero();
        let op4 = StoreOp { key: key4, amount: amount4 };
        let key5 = join3("group_pool_metric", e.evt_address.as_str(), "total_collateral_tokens_escrowed");
        let amount5 = zero();
        let op5 = StoreOp { key: key5, amount: amount5 };
        proof {
            assert(seq![op_pair(op0), op_pair(op1), op_pair(op2), op_pair(op3), op_pair(op4), op_pair(op5)] =~= pool_init_ops()(*e));
        }
        ops.push(op0);
        ops.push(op1);
        ops.push(op2);
        ops.push(op3);
        ops.push(op4);
        ops.push(op5);
        proof {
            assert(ops@ =~= prev + seq![op0, op1, op2, op3, op4, op5]);
            assert(op_pairs(ops@) =~= op_pairs(prev) + seq![op_pair(op0), op_pair(op1), op_pair(op2), op_pair(op3), op_pair(op4), op_pair(op5)]);
            assert forall|j: int| 0 <= j < ops@.len() implies is_int_text(#[trigger] ops@[j].amount@) by {
                if j < prev.len() {
                    assert(ops@[j] == prev[j]);
                }
            }
        }
        i = i + 1;
    }
    proof {
        assert(events.lendergroup_pool_initializeds@.take(events.lendergroup_pool_initializeds@.len() as int) =~= events.lendergroup_pool_initializeds@);
    }
    let ghost before = op_pairs(ops@);
    proof {
        assert(events.lendergroup_lender_added_principals@.take(0) =~= Seq::<LendergroupLenderAddedPrincipal>::empty());
        assert(before + flat_ops(events.lendergroup_lender_added_principals@.take(0), pool_lender_added_ops()) =~= before);
    }
    let mut i: usize = 0;
    while i < events.lendergroup_lender_added_principals.len()
        invariant
            i <= events.lendergroup_lender_added_principals@.len(),
            ops_wf(ops@),
            op_pairs(ops@) == before + flat_ops(events.lendergroup_lender_added_principals@.take(i as int), pool_lender_added_ops()),
        decreases events.lendergroup_lender_added_principals@.len() - i,
    {
        let e = &events.lendergroup_lender_added_principals[i];
        let ghost prev = ops@;
        proof {
            lemma_flat_step(events.lendergroup_lender_added_principals@, i as int, pool_lender_added_ops());
        }
        let key0 = join3("group_pool_metric", e.evt_address.as_str(), "total_principal_tokens_committed");
        let amount0 = amount_or_zero(&e.amount);
        let op0 = StoreOp { key: key0, amount: amount0 };
        proof {
            assert(seq![op_pair(op0)] =~= pool_lender_added_ops()(*e));
        }
        ops.push(op0);
        proof {
            assert(ops@ =~= prev + seq![op0]);
            assert(op_pairs(ops@) =~= op_pairs(prev) + seq![op_pair(op0)]);
            assert forall|j: int| 0 <= j < ops@.len() implies is_int_text(#[trigger] ops@[j].amount@) by {
                if j < prev.len() {
                    assert(ops@[j] == prev[j]);
                }
            }
        }
        i = i + 1;
    }
    proof {
        assert(events.lendergroup_lender_added_principals@.take(events.lendergroup_lender_added_principals@.len() as int) =~= events.lendergroup_lender_added_principals@);
    }
    let ghost before = op_pairs(ops@);
    proof {
        assert(events.lendergroup_borrower_accepted_funds@.take(0) =~= Seq::<LendergroupBorrowerAcceptedFunds>::empty());
        assert(before + flat_ops(events.lendergroup_borrower_accepted_funds@.take(0), pool_borrower_accepted_ops()) =~= before);
    }
    let mut i: usize = 0;
    while i < events.lendergroup_borrower_accepted_funds.len()
        invariant
            i <= events.lendergroup_borrower_accepted_funds@.len(),
            ops_wf(ops@),
            op_pairs(ops@) == before + flat_ops(events.lendergroup_borrower_accepted_funds@.take(i as int), pool_borrower_accepted_ops()),
        decreases events.lendergroup_borrower_accepted_funds@.len() - i,
    {
        let e = &events.lendergroup_borrower_accepted_funds[i];
        let ghost prev = ops@;
        proof {
            lemma_flat_step(events.lendergroup_borrower_accepted_funds@, i as int, pool_borrower_accepted_ops());
        }
        let key0 = join3("group_pool_metric", e.evt_address.as_str(), "total_principal_tokens_borrowed");
        let amount0 = amount_or_zero(&e.principal_amount);
        let op0 = StoreOp { key: key0, amount: amount0 };
        let key1 = join3("group_pool_metric", e.evt_address.as_str(), "total_collateral_tokens_escrowed");
        let amount1 = amount_or_zero(&e.collateral_amount);
        let op1 = StoreOp { key: key1, amount: amount1 };
        proof {
            assert(seq![op_pair(op0), op_pair(op1)] =~= pool_borrower_accepted_ops()(*e));
        }
        ops.push(op0);
        ops.push(op1);
        proof {
            assert(ops@ =~= prev + seq![op0, op1]);
            assert(op_pairs(ops@) =~= op_pairs(prev) + seq![op_pair(op0), op_pair(op1)]);
            assert forall|j: int| 0 <= j < ops@.len() implies is_int_text(#[trigger] ops@[j].amount@) by {
                if j < prev.len() {
                    assert(ops@[j] == prev[j]);
                }
            }
        }
        i = i + 1;
    }
    proof {
        assert(events.lendergroup_borrower_accepted_funds@.take(events.lendergroup_borrower_accepted_funds@.len() as int) =~= events.lendergroup_borrower_accepted_funds@);
    }
    let ghost before = op_pairs(ops@);
    proof {
        assert(events.lendergroup_earnings_withdrawns@.take(0) =~= Seq::<LendergroupEarningsWithdrawn>::empty());
        assert(before + flat_ops(events.lendergroup_earnings_withdrawns@.take(0), pool_earnings_withdrawn_ops()) =~= before);
    }
    let mut i: usize = 0;
    while i < events.lendergroup_earnings_withdrawns.len()
        invariant
            i <= events.lendergroup_earnings_withdrawns@.len(),
            ops_wf(ops@),
            op_pairs(ops@) == before + flat_ops(events.lendergroup_earnings_withdrawns@.take(i as int), pool_earnings_withdrawn_ops()),
        decreases events.lendergroup_earnings_withdrawns@.len() - i,
    {
        let e = &events.lendergroup_earnings_withdrawns[i];
        let ghost prev = ops@;
        proof {
            lemma_flat_step(events.lendergroup_earnings_withdrawns@, i as int, pool_earnings_withdrawn_ops());
        }
        let key0 = join3("group_pool_metric", e.evt_address.as_str(), "total_principal_tokens_withdrawn");
        let amount0 = amount_or_zero(&e.principal_tokens_withdrawn);
        let op0 = StoreOp { key: key0, amount: amount0 };
        proof {
            assert(seq![op_pair(op0)] =~= pool_earnings_withdrawn_ops()(*e));
        }
        ops.push(op0);
        proof {
            assert(ops@ =~= prev + seq![op0]);
            assert(op_pairs(ops@) =~= op_pairs(prev) + seq![op_pair(op0)]);
            assert forall|j: int| 0 <= j < ops@.len() implies is_int_text(#[trigger] ops@[j].amount@) by {
                if j < prev.len() {
                    assert(ops@[j] == prev[j]);
                }
            }
        }
        i = i + 1;
    }
    proof {
        assert(events.lendergroup_earnings_withdrawns@.take(events.lendergroup_earnings_withdrawns@.len() as int) =~= events.lendergroup_earnings_withdrawns@);
    }
    let ghost before = op_pairs(ops@);
    proof {
        assert(events.lendergroup_loan_repaids@.take(0) =~= Seq::<LendergroupLoanRepaid>::empty());
        assert(before + flat_ops(events.lendergroup_loan_repaids@.take(0), pool_loan_repaid_ops()) =~= before);
    }
    let mut i: usize = 0;
    while i < events.lendergroup_loan_repaids.len()
        invariant
            i <= events.lendergroup_loan_repaids@.len(),
            ops_wf(ops@),
            op_pairs(ops@) == before + flat_ops(events.lendergroup_loan_repaids@.take(i as int), pool_loan_repaid_ops()),
        decreases events.lendergroup_loan_repaids@.len() - i,
    {
        let e = &events.lendergroup_loan_repaids[i];
        let ghost prev = ops@;
        proof {
            lemma_flat_step(events.lendergroup_loan_repaids@, i as int, pool_loan_repaid_ops());
        }
        let key0 = join3("group_pool_metric", e.evt_address.as_str(), "total_principal_tokens_repaid");
        let amount0 = amount_or_zero(&e.principal_amount);
        let op0 = StoreOp { key: key0, amount: amount0 };
        let key1 = join3("group_pool_metric", e.evt_address.as_str(), "total_interest_collected");
        let amount1 = amount_or_zero(&e.interest_amount);
        let op1 = StoreOp { key: key1, amount: amount1 };
        proof {
            assert(seq![op_pair(op0), op_pair(op1)] =~= pool_loan_repaid_ops()(*e));
        }
        ops.push(op0);
        ops.push(op1);
        proof {
            assert(ops@ =~= prev + seq![op0, op1]);
            assert(op_pairs(ops@) =~= op_pairs(prev) + seq![op_pair(op0), op_pair(op1)]);
            assert forall|j: int| 0 <= j < ops@.len() implies is_int_text(#[trigger] ops@[j].amount@) by {
                if j < prev.len() {
                    assert(ops@[j] == prev[j]);
                }
            }
        }
        i = i + 1;
    }
    proof {
        assert(events.lendergroup_loan_repaids@.take(events.lendergroup_loan_repaids@.len() as int) =~= events.lendergroup_loan_repaids@);
    }
    let ghost before = op_pairs(ops@);
    proof {
        assert(events.lendergroup_defaulted_loan_liquidateds@.take(0) =~= Seq::<LendergroupDefaultedLoanLiquidated>::empty());
        assert(before + flat_ops(events.lendergroup_defaulted_loan_liquidateds@.take(0), pool_liquidated_ops()) =~= before);
    }
    let mut i: usize = 0;
    while i < events.lendergroup_defaulted_loan_liquidateds.len()
        invariant
            i <= events.lendergroup_defaulted_loan_liquidateds@.len(),
            ops_wf(ops@),
            op_pairs(ops@) == before + flat_ops(events.lendergroup_defaulted_loan_liquidateds@.take(i as int), pool_liquidated_ops()),
        decreases events.lendergroup_defaulted_loan_liquidateds@.len() - i,
    {
        let e = &events.lendergroup_defaulted_loan_liquidateds[i];
        let ghost prev = ops@;
        proof {
            lemma_flat_step(events.lendergroup_defaulted_loan_liquidateds@, i as int, pool_liquidated_ops());
        }
        let key0 = join3("group_pool_metric", e.evt_address.as_str(), "total_principal_tokens_repaid");
        let amount0 = amount_or_zero(&e.amount_due);
        let op0 = StoreOp { key: key0, amount: amount0 };
        proof {
            assert(seq![op_pair(op0)] =~= pool_liquidated_ops()(*e));
        }
        ops.push(op0);
        proof {
            assert(ops@ =~= prev + seq![op0]);
            assert(op_pairs(ops@) =~= op_pairs(prev) + seq![op_pair(op0)]);
            assert forall|j: int| 0 <= j < ops@.len() implies is_int_text(#[trigger] ops@[j].amount@) by {
                if j < prev.len() {
                    assert(ops@[j] == prev[j]);
                }
            }
        }
        i = i + 1;
    }
    proof {
        assert(events.lendergroup_defaulted_loan_liquidateds@.take(events.lendergroup_defaulted_loan_liquidateds@.len() as int) =~= events.lendergroup_defaulted_loan_liquidateds@);
    }
    proof {
        assert(op_pairs(ops@) =~= pool_metric_ops(*events));
    }
    ops
}

/// The user-metric writes of a block's events, as in `user_metric_ops`.
pub fn user_metric_writes(events: &Events) -> (r: Vec<StoreOp>)
    ensures
        ops_wf(r@),
        op_pairs(r@) == user_metric_ops(*events),
{
    let mut ops: Vec<StoreOp> = Vec::new();
    proof {
        assert(op_pairs(ops@) =~= Seq::<(Seq<char>, int)>::empty());
    }
    let ghost before = op_pairs(ops@);
    proof {
        assert(events.lendergroup_lender_added_principals@.take(0) =~= Seq::<LendergroupLenderAddedPrincipal>::empty());
        assert(before + flat_ops(events.lendergroup_lender_added_principals@.take(0), user_lender_added_ops()) =~= before);
    }
    let mut i: usize = 0;
    while i < events.lendergroup_lender_added_principals.len()
        invariant
            i <= events.lendergroup_lender_added_principals@.len(),
            ops_wf(ops@),
            op_pairs(ops@) == before + flat_ops(events.lendergroup_lender_added_principals@.take(i as int), user_lender_added_ops()),
        decreases events.lendergroup_lender_added_principals@.len() - i,
    {
        let e = &events.lendergroup_lender_added_principals[i];
        let ghost prev = ops@;
        proof {
            lemma_flat_step(events.lendergroup_lender_added_principals@, i as int, user_lender_added_ops());
        }
        let user = hex_of(&e.lender);
        let key0 = join4("group_user_metric", e.evt_address.as_str(), user.as_str(), "interaction_count");
        let amount0 = one();
        let op0 = StoreOp { key: key0, amount: amount0 };
        let key1 = join4("group_user_metric", e.evt_address.as_str(), user.as_str(), "total_principal_tokens_committed");
        let amount1 = amount_or_zero(&e.amount);
        let op1 = StoreOp { key: key1, amount: amount1 };
        proof {
            assert(seq![op_pair(op0), op_pair(op1)] =~= user_lender_added_ops()(*e));
        }
        ops.push(op0);
        ops.push(op1);
        proof {
            assert(ops@ =~= prev + seq![op0, op1]);
            assert(op_pairs(ops@) =~= op_pairs(prev) + seq![op_pair(op0), op_pair(op1)]);
            assert forall|j: int| 0 <= j < ops@.len() implies is_int_text(#[trigger] ops@[j].amount@) by {
                if j < prev.len() {
                    assert(ops@[j] == prev[j]);
                }
            }
        }
        i = i + 1;
    }
    proof {
        assert(events.lendergroup_lender_added_principals@.take(events.lendergroup_lender_added_principals@.len() as int) =~= events.lendergroup_lender_added_principals@);
    }
    let ghost before = op_pairs(ops@);
    proof {
        assert(events.lendergroup_borrower_accepted_funds@.take(0) =~= Seq::<LendergroupBorrowerAcceptedFunds>::empty());
        assert(before + flat_ops(events.lendergroup_borrower_accepted_funds@.take(0), user_borrower_accepted_ops()) =~= before);
    }
    let mut i: usize = 0;
    while i < events.lendergroup_borrower_accepted_funds.len()
        invariant
            i <= events.lendergroup_borrower_accepted_funds@.len(),
            ops_wf(ops@),
            op_pairs(ops@) == before + flat_ops(events.lendergroup_borrower_accepted_funds@.take(i as int), user_borrower_accepted_ops()),
        decreases events.lendergroup_borrower_accepted_funds@.len() - i,
    {
        let e = &events.lendergroup_borrower_accepted_funds[i];
        let ghost prev = ops@;
        proof {
            lemma_flat_step(events.lendergroup_borrower_accepted_funds@, i as int, user_borrower_accepted_ops());
        }
        let user = hex_of(&e.borrower);
        let key0 = join4("group_user_metric", e.evt_address.as_str(), user.as_str(), "interaction_count");
        let amount0 = one();
        let op0 = StoreOp { key: key0, amount: amount0 };
        let key1 = join4("group_user_metric", e.evt_address.as_str(), user.as_str(), "total_principal_tokens_borrowed");
        let amount1 = amount_or_zero(&e.principal_amount);
        let op1 = StoreOp { key: key1, amount: amount1 };
        let key2 = join4("group_user_metric", e.evt_address.as_str(), user.as_str(), "total_collateral_tokens_escrowed");
        let amount2 = amount_or_zero(&e.collateral_amount);
        let op2 = StoreOp { key: key2, amount: amount2 };
        proof {
            assert(seq![op_pair(op0), op_pair(op1), op_pair(op2)] =~= user_borrower_accepted_ops()(*e));
        }
        ops.push(op0);
        ops.push(op1);
        ops.push(op2);
        proof {
            assert(ops@ =~= prev + seq![op0, op1, op2]);
            assert(op_pairs(ops@) =~= op_pairs(prev) + seq![op_pair(op0), op_pair(op1), op_pair(op2)]);
            assert forall|j: int| 0 <= j < ops@.len() implies is_int_text(#[trigger] ops@[j].amount@) by {
                if j < prev.len() {
                    assert(ops@[j] == prev[j]);
                }
            }
        }
        i = i + 1;
    }
    proof {
        assert(events.lendergroup_borrower_accepted_funds@.take(events.lendergroup_borrower_accepted_funds@.len() as int) =~= events.lendergroup_borrower_accepted_funds@);
    }
    let ghost before = op_pairs(ops@);
    proof {
        assert(events.lendergroup_earnings_withdrawns@.take(0) =~= Seq::<LendergroupEarningsWithdrawn>::empty());
        assert(before + flat_ops(events.lendergroup_earnings_withdrawns@.take(0), user_earnings_withdrawn_ops()) =~= before);
    }
    let mut i: usize = 0;
    while i < events.lendergroup_earnings_withdrawns.len()
        invariant
            i <= events.lendergroup_earnings_withdrawns@.len(),
            ops_wf(ops@),
            op_pairs(ops@) == before + flat_ops(events.lendergroup_earnings_withdrawns@.take(i as int), user_earnings_withdrawn_ops()),
        decreases events.lendergroup_earnings_withdrawns@.len() - i,
    {
        let e = &events.lendergroup_earnings_withdrawns[i];
        let ghost prev = ops@;
        proof {
            lemma_flat_step(events.lendergroup_earnings_withdrawns@, i as int, user_earnings_withdrawn_ops());
        }
        let user = hex_of(&e.lender);
        let key0 = join4("group_user_metric", e.evt_address.as_str(), user.as_str(), "interaction_count");
        let amount0 = one();
        let op0 = StoreOp { key: key0, amount: amount0 };
        let key1 = join4("group_user_metric", e.evt_address.as_str(), user.as_str(), "total_principal_tokens_withdrawn");
        let amount1 = amount_or_zero(&e.principal_tokens_withdrawn);
        let op1 = StoreOp { key: key1, amount: amount1 };
        proof {
            assert(seq![op_pair(op0), op_pair(op1)] =~= user_earnings_withdrawn_ops()(*e));
        }
        ops.push(op0);
        ops.push(op1);
        proof {
            assert(ops@ =~= prev + seq![op0, op1]);
            assert(op_pairs(ops@) =~= op_pairs(prev) + seq![op_pair(op0), op_pair(op1)]);
            assert forall|j: int| 0 <= j < ops@.len() implies is_int_text(#[trigger] ops@[j].amount@) by {
                if j < prev.len() {
                    assert(ops@[j] == prev[j]);
                }
            }
        }
        i = i + 1;
    }
    proof {
        assert(events.lendergroup_earnings_withdrawns@.take(events.lendergroup_earnings_withdrawns@.len() as int) =~= events.lendergroup_earnings_withdrawns@);
    }
    let ghost before = op_pairs(ops@);
    proof {
        assert(events.lendergroup_loan_repaids@.take(0) =~= Seq::<LendergroupLoanRepaid>::empty());
        assert(before + flat_ops(events.lendergroup_loan_repaids@.take(0), user_loan_repaid_ops()) =~= before);
    }
    let mut i: usize = 0;
    while i < events.lendergroup_loan_repaids.len()
        invariant
            i <= events.lendergroup_loan_repaids@.len(),
            ops_wf(ops@),
            op_pairs(ops@) == before + flat_ops(events.lendergroup_loan_repaids@.take(i as int), user_loan_repaid_ops()),
        decreases events.lendergroup_loan_repaids@.len() - i,
    {
        let e = &events.lendergroup_loan_repaids[i];
        let ghost prev = ops@;
        proof {
            lemma_flat_step(events.lendergroup_loan_repaids@, i as int, user_loan_repaid_ops());
        }
        let user = hex_of(&e.repayer);
        let key0 = join4("group_user_metric", e.evt_address.as_str(), user.as_str(), "interaction_count");
        let amount0 = one();
        let op0 = StoreOp { key: key0, amount: amount0 };
        let key1 = join4("group_user_metric", e.evt_address.as_str(), user.as_str(), "total_principal_tokens_repaid");
        let amount1 = amount_or_zero(&e.principal_amount);
        let op1 = StoreOp { key: key1, amount: amount1 };
        let key2 = join4("group_user_metric", e.evt_address.as_str(), user.as_str(), "total_interest_collected");
        let amount2 = amount_or_zero(&e.interest_amount);
        let op2 = StoreOp { key: key2, amount: amount2 };
        proof {
            assert(seq![op_pair(op0), op_pair(op1), op_pair(op2)] =~= user_loan_repaid_ops()(*e));
        }
        ops.push(op0);
        ops.push(op1);
        ops.push(op2);
        proof {
            assert(ops@ =~= prev + seq![op0, op1, op2]);
            assert(op_pairs(ops@) =~= op_pairs(prev) + seq![op_pair(op0), op_pair(op1), op_pair(op2)]);
            assert forall|j: int| 0 <= j < ops@.len() implies is_int_text(#[trigger] ops@[j].amount@) by {
                if j < prev.len() {
                    assert(ops@[j] == prev[j]);
                }
            }
        }
        i = i + 1;
    }
    proof {
        assert(events.lendergroup_loan_repaids@.take(events.lendergroup_loan_repaids@.len() as int) =~= events.lendergroup_loan_repaids@);
    }
    proof {
        assert(op_pairs(ops@) =~= user_metric_ops(*events));
    }
    ops
}

/// Applies the pool-metric writes of a block's events to the additive
/// pool-metric store.
pub fn store_lendergroup_pool_metrics_deltas(events: &Events, bigint_add_store: &mut AddStore)
    requires
        old(bigint_add_store).wf(),
    ensures
        final(bigint_add_store).wf(),
        final(bigint_add_store).base() == old(bigint_add_store).base(),
        final(bigint_add_store).values() == apply_ops(old(bigint_add_store).values(), pool_metric_ops(*events)),
        final(bigint_add_store).log().len() == old(bigint_add_store).log().len() + pool_metric_ops(*events).len(),
        final(bigint_add_store).log().take(old(bigint_add_store).log().len() as int) == old(bigint_add_store).log(),
        forall|j: int| 0 <= j < pool_metric_ops(*events).len() ==> (#[trigger] final(bigint_add_store).log()[old(bigint_add_store).log().len() + j]).key@
            == pool_metric_ops(*events)[j].0,
        forall|j: int| 0 <= j < pool_metric_ops(*events).len() ==> delta_wf(#[trigger] final(bigint_add_store).log()[old(bigint_add_store).log().len() + j])
            && delta_triple(final(bigint_add_store).log()[old(bigint_add_store).log().len() + j]) == write_delta(
                old(bigint_add_store).values(),
                pool_metric_ops(*events),
                j,
            ),
{
    let ops = pool_metric_writes(events);
    bigint_add_store.add_all(&ops);
    proof {
        assert forall|j: int| 0 <= j < pool_metric_ops(*events).len() implies (#[trigger] bigint_add_store.log()[old(bigint_add_store).log().len() + j]).key@
            == pool_metric_ops(*events)[j].0 by {
            assert(op_pairs(ops@)[j] == op_pair(ops@[j]));
        }
    }
}

/// Applies the user-metric writes of a block's events to the additive
/// user-metric store.
pub fn store_lendergroup_user_metrics_deltas(events: &Events, bigint_add_store: &mut AddStore)
    requires
        old(bigint_add_store).wf(),
    ensures
        final(bigint_add_store).wf(),
        final(bigint_add_store).base() == old(bigint_add_store).base(),
        final(bigint_add_store).values() == apply_ops(old(bigint_add_store).values(), user_metric_ops(*events)),
        final(bigint_add_store).log().len() == old(bigint_add_store).log().len() + user_metric_ops(*events).len(),
        final(bigint_add_store).log().take(old(bigint_add_store).log().len() as int) == old(bigint_add_store).log(),
        forall|j: int| 0 <= j < user_metric_ops(*events).len() ==> (#[trigger] final(bigint_add_store).log()[old(bigint_add_store).log().len() + j]).key@
            == user_metric_ops(*events)[j].0,
        forall|j: int| 0 <= j < user_metric_ops(*events).len() ==> delta_wf(#[trigger] final(bigint_add_store).log()[old(bigint_add_store).log().len() + j])
            && delta_triple(final(bigint_add_store).log()[old(bigint_add_store).log().len() + j]) == write_delta(
                old(bigint_add_store).values(),
                user_metric_ops(*events),
                j,
            ),
{
    let ops = user_metric_writes(events);
    bigint_add_store.add_all(&ops);
    proof {
        assert forall|j: int| 0 <= j < user_metric_ops(*events).len() implies (#[trigger] bigint_add_store.log()[old(bigint_add_store).log().len() + j]).key@
            == user_metric_ops(*events)[j].0 by {
            assert(op_pairs(ops@)[j] == op_pair(ops@[j]));
        }
    }
}

/// The kind segment of per-bid collateral withdrawal keys.
pub open spec fn bid_collateral_kind() -> Seq<char> {
    "collateral_amount_withdrawn"@
}

/// The kind segment of bid-to-pool links.
pub open spec fn bid_link_kind() -> Seq<char> {
    "bid_originated_from_pool"@
}

/// The kind segment of per-pool collateral withdrawal totals.
pub open spec fn pool_collateral_kind() -> Seq<char> {
    "total_collateral_amount_withdrawn"@
}

/// The collateral-withdrawal write of one withdrawal: its amount, under the
/// bid and the collateral token.
pub open spec fn collateral_withdrawn_ops() -> spec_fn(collateral::CollateralmanagerCollateralWithdrawn) -> Seq<(Seq<char>, int)> {
    |e: collateral::CollateralmanagerCollateralWithdrawn|
        seq![(key3(bid_collateral_kind(), e.bid_id@, hex_text(e.collateral_address@)), amount_value(e.amount@))]
}

/// Adds each collateral withdrawal to the additive store under its bid and
/// collateral token.
pub fn store_bid_collateral_withdrawn_data_deltas(
    events: &collateral::Events,
    bigint_delta_store: &mut AddStore,
)
    requires
        old(bigint_delta_store).wf(),
    ensures
        final(bigint_delta_store).wf(),
        final(bigint_delta_store).values() == apply_ops(
            old(bigint_delta_store).values(),
            flat_ops(events.collateral_manager_collateral_withdrawn@, collateral_withdrawn_ops()),
        ),
        final(bigint_delta_store).log().len() == old(bigint_delta_store).log().len()
            + events.collateral_manager_collateral_withdrawn@.len(),
        final(bigint_delta_store).log().take(old(bigint_delta_store).log().len() as int) == old(
            bigint_delta_store,
        ).log(),
        forall|j: int| 0 <= j < events.collateral_manager_collateral_withdrawn@.len() ==> delta_wf(
            #[trigger] final(bigint_delta_store).log()[old(bigint_delta_store).log().len() + j],
        ) && delta_triple(final(bigint_delta_store).log()[old(bigint_delta_store).log().len() + j]) == write_delta(
            old(bigint_delta_store).values(),
            flat_ops(events.collateral_manager_collateral_withdrawn@, collateral_withdrawn_ops()),
            j,
        ),
{
    let mut ops: Vec<StoreOp> = Vec::new();
    let ghost evs = events.collateral_manager_collateral_withdrawn@;
    proof {
        assert(op_pairs(ops@) =~= Seq::<(Seq<char>, int)>::empty());
        assert(evs.take(0) =~= Seq::<collateral::CollateralmanagerCollateralWithdrawn>::empty());
    }
    let mut i: usize = 0;
    while i < events.collateral_manager_collateral_withdrawn.len()
        invariant
            i <= evs.len(),
            evs == events.collateral_manager_collateral_withdrawn@,
            ops_wf(ops@),
            ops@.len() == i,
            op_pairs(ops@) == flat_ops(evs.take(i as int), collateral_withdrawn_ops()),
        decreases evs.len() - i,
    {
        let e = &events.collateral_manager_collateral_withdrawn[i];
        let ghost prev = ops@;
        proof {
            lemma_flat_step(evs, i as int, collateral_withdrawn_ops());
        }
        let token = hex_of(&e.collateral_address);
        let key = join3("collateral_amount_withdrawn", e.bid_id.as_str(), token.as_str());
        let amount = amount_or_zero(&e.amount);
        let op = StoreOp { key, amount };
        ops.push(op);
        proof {
            assert(op_pairs(ops@) =~= op_pairs(prev) + seq![op_pair(op)]);
            assert(seq![op_pair(op)] =~= collateral_withdrawn_ops()(*e));
            assert forall|j: int| 0 <= j < ops@.len() implies is_int_text(#[trigger] ops@[j].amount@) by {
                if j < prev.len() {
                    assert(ops@[j] == prev[j]);
                }
            }
        }
        i = i + 1;
    }
    proof {
        assert(evs.take(evs.len() as int) =~= evs);
    }
    bigint_delta_store.add_all(&ops);
}

/// The link of a bid to the pool it was taken from.
pub open spec fn bid_link(e: LendergroupBorrowerAcceptedFunds) -> (Seq<char>, Seq<char>) {
    (key2(bid_link_kind(), e.bid_id@), e.evt_address@)
}

/// Links each bid taken from a pool to that pool, the last write winning.
pub fn store_bid_from_pool_data(events: &Events, string_set_store: &mut SetStore)
    requires
        old(string_set_store).wf(),
    ensures
        final(string_set_store).wf(),
        final(string_set_store).values() == apply_sets(
            old(string_set_store).values(),
            events.lendergroup_borrower_accepted_funds@.map_values(|e: LendergroupBorrowerAcceptedFunds| bid_link(e)),
        ),
{
    let mut sets: Vec<Entry> = Vec::new();
    let ghost evs = events.lendergroup_borrower_accepted_funds@;
    let mut i: usize = 0;
    while i < events.lendergroup_borrower_accepted_funds.len()
        invariant
            i <= evs.len(),
            evs == events.lendergroup_borrower_accepted_funds@,
            sets@.map_values(|e: Entry| entry_pair(e)) == evs.take(i as int).map_values(
                |e: LendergroupBorrowerAcceptedFunds| bid_link(e),
            ),
        decreases evs.len() - i,
    {
        let e = &events.lendergroup_borrower_accepted_funds[i];
        let key = join2("bid_originated_from_pool", e.bid_id.as_str());
        let entry = Entry { key, value: e.evt_address.clone() };
        let ghost prev = sets@;
        proof {
            assert(entry.key@ == key2(bid_link_kind(), e.bid_id@));
        }
        sets.push(entry);
        proof {
            assert(sets@.map_values(|e: Entry| entry_pair(e)) =~= evs.take(i as int + 1).map_values(
                |e: LendergroupBorrowerAcceptedFunds| bid_link(e),
            )) by {
                assert(entry_pair(entry) == bid_link(evs[i as int]));
                assert(sets@ =~= prev.push(entry));
                assert(sets@.map_values(|e: Entry| entry_pair(e)) =~= prev.map_values(|e: Entry| entry_pair(e)).push(entry_pair(entry)));
                assert(evs.take(i as int + 1) =~= evs.take(i as int).push(evs[i as int]));
                assert(evs.take(i as int + 1).map_values(|e: LendergroupBorrowerAcceptedFunds| bid_link(e))
                    =~= evs.take(i as int).map_values(|e: LendergroupBorrowerAcceptedFunds| bid_link(e)).push(bid_link(evs[i as int])));
            }
        }
        i = i + 1;
    }
    proof {
        assert(evs.take(evs.len() as int) =~= evs);
    }
    string_set_store.set_all(&sets);
}

/// The key of the latest block number.
pub open spec fn latest_number_key() -> Seq<char> {
    "latest_block_number"@
}

/// The key of the latest block time.
pub open spec fn latest_time_key() -> Seq<char> {
    "latest_block_time"@
}

/// The global values after a sequence of (block number, block time) stamps:
/// the last one wins; none leaves them as they were.
pub open spec fn stamped(m: Map<Seq<char>, Seq<char>>, stamps: Seq<(u64, u64)>) -> Map<Seq<char>, Seq<char>> {
    if stamps.len() == 0 {
        m
    } else {
        m.insert(latest_number_key(), int_text(stamps.last().0 as int)).insert(
            latest_time_key(),
            int_text(stamps.last().1 as int),
        )
    }
}

/// The (block number, block time) stamps of the pool events that carry
/// amounts, in the order they are applied.
pub open spec fn global_stamps(events: Events) -> Seq<(u64, u64)> {
    events.lendergroup_pool_initializeds@.map_values(|e: LendergroupPoolInitialized| (e.evt_block_number, e.evt_block_time))
        + events.lendergroup_lender_added_principals@.map_values(|e: LendergroupLenderAddedPrincipal| (e.evt_block_number, e.evt_block_time))
        + events.lendergroup_borrower_accepted_funds@.map_values(|e: LendergroupBorrowerAcceptedFunds| (e.evt_block_number, e.evt_block_time))
        + events.lendergroup_earnings_withdrawns@.map_values(|e: LendergroupEarningsWithdrawn| (e.evt_block_number, e.evt_block_time))
        + events.lendergroup_loan_repaids@.map_values(|e: LendergroupLoanRepaid| (e.evt_block_number, e.evt_block_time))
        + events.lendergroup_defaulted_loan_liquidateds@.map_values(|e: LendergroupDefaultedLoanLiquidated| (e.evt_block_number, e.evt_block_time))
}

fn stamp(store: &mut SetStore, number: u64, time: u64, Ghost(stamps): Ghost<Seq<(u64, u64)>>, Ghost(m): Ghost<Map<Seq<char>, Seq<char>>>)
    requires
        old(store).wf(),
        old(store).values() == stamped(m, stamps),
    ensures
        final(store).wf(),
        final(store).values() == stamped(m, stamps.push((number, time))),
{
    let n = u64_text(number);
    let t = u64_text(time);
    store.set("latest_block_number", n.as_str());
    store.set("latest_block_time", t.as_str());
    proof {
        assert(store.values() =~= stamped(m, stamps.push((number, time))));
    }
}

/// Records the latest block number and time: those of the last pool event
/// carrying an amount or a configuration, in application order.
pub fn store_globals_from_events(events: &Events, bigint_set_store: &mut SetStore)
    requires
        old(bigint_set_store).wf(),
    ensures
        final(bigint_set_store).wf(),
        final(bigint_set_store).values() == stamped(old(bigint_set_store).values(), global_stamps(*events)),
{
    let ghost m = bigint_set_store.values();
    let ghost done = Seq::<(u64, u64)>::empty();
    let mut i: usize = 0;
    let ghost base = done;
    proof {
        assert(base + events.lendergroup_pool_initializeds@.take(0).map_values(|e: LendergroupPoolInitialized| (e.evt_block_number, e.evt_block_time)) =~= base);
    }
    while i < events.lendergroup_pool_initializeds.len()
        invariant
            i <= events.lendergroup_pool_initializeds@.len(),
            bigint_set_store.wf(),
            bigint_set_store.values() == stamped(m, base + events.lendergroup_pool_initializeds@.take(i as int).map_values(|e: LendergroupPoolInitialized| (e.evt_block_number, e.evt_block_time))),
        decreases events.lendergroup_pool_initializeds@.len() - i,
    {
        let e = &events.lendergroup_pool_initializeds[i];
        stamp(bigint_set_store, e.evt_block_number, e.evt_block_time, Ghost(base + events.lendergroup_pool_initializeds@.take(i as int).map_values(|e: LendergroupPoolInitialized| (e.evt_block_number, e.evt_block_time))), Ghost(m));
        proof {
            assert(base + events.lendergroup_pool_initializeds@.take(i as int + 1).map_values(|e: LendergroupPoolInitialized| (e.evt_block_number, e.evt_block_time))
                =~= (base + events.lendergroup_pool_initializeds@.take(i as int).map_values(|e: LendergroupPoolInitialized| (e.evt_block_number, e.evt_block_time))).push((e.evt_block_number, e.evt_block_time)));
        }
        i = i + 1;
    }
    proof {
        assert(events.lendergroup_pool_initializeds@.take(events.lendergroup_pool_initializeds@.len() as int) =~= events.lendergroup_pool_initializeds@);
        done = base + events.lendergroup_pool_initializeds@.map_values(|e: LendergroupPoolInitialized| (e.evt_block_number, e.evt_block_time));
    }
    let mut i: usize = 0;
    let ghost base = done;
    proof {
        assert(base + events.lendergroup_lender_added_principals@.take(0).map_values(|e: LendergroupLenderAddedPrincipal| (e.evt_block_number, e.evt_block_time)) =~= base);
    }
    while i < events.lendergroup_lender_added_principals.len()
        invariant
            i <= events.lendergroup_lender_added_principals@.len(),
            bigint_set_store.wf(),
            bigint_set_store.values() == stamped(m, base + events.lendergroup_lender_added_principals@.take(i as int).map_values(|e: LendergroupLenderAddedPrincipal| (e.evt_block_number, e.evt_block_time))),
        decreases events.lendergroup_lender_added_principals@.len() - i,
    {
        let e = &events.lendergroup_lender_added_principals[i];
        stamp(bigint_set_store, e.evt_block_number, e.evt_block_time, Ghost(base + events.lendergroup_lender_added_principals@.take(i as int).map_values(|e: LendergroupLenderAddedPrincipal| (e.evt_block_number, e.evt_block_time))), Ghost(m));
        proof {
            assert(base + events.lendergroup_lender_added_principals@.take(i as int + 1).map_values(|e: LendergroupLenderAddedPrincipal| (e.evt_block_number, e.evt_block_time))
                =~= (base + events.lendergroup_lender_added_principals@.take(i as int).map_values(|e: LendergroupLenderAddedPrincipal| (e.evt_block_number, e.evt_block_time))).push((e.evt_block_number, e.evt_block_time)));
        }
        i = i + 1;
    }
    proof {
        assert(events.lendergroup_lender_added_principals@.take(events.lendergroup_lender_added_principals@.len() as int) =~= events.lendergroup_lender_added_principals@);
        done = base + events.lendergroup_lender_added_principals@.map_values(|e: LendergroupLenderAddedPrincipal| (e.evt_block_number, e.evt_block_time));
    }
    let mut i: usize = 0;
    let ghost base = done;
    proof {
        assert(base + events.lendergroup_borrower_accepted_funds@.take(0).map_values(|e: LendergroupBorrowerAcceptedFunds| (e.evt_block_number, e.evt_block_time)) =~= base);
    }
    while i < events.lendergroup_borrower_accepted_funds.len()
        invariant
            i <= events.lendergroup_borrower_accepted_funds@.len(),
            bigint_set_store.wf(),
            bigint_set_store.values() == stamped(m, base + events.lendergroup_borrower_accepted_funds@.take(i as int).map_values(|e: LendergroupBorrowerAcceptedFunds| (e.evt_block_number, e.evt_block_time))),
        decreases events.lendergroup_borrower_accepted_funds@.len() - i,
    {
        let e = &events.lendergroup_borrower_accepted_funds[i];
        stamp(bigint_set_store, e.evt_block_number, e.evt_block_time, Ghost(base + events.lendergroup_borrower_accepted_funds@.take(i as int).map_values(|e: LendergroupBorrowerAcceptedFunds| (e.evt_block_number, e.evt_block_time))), Ghost(m));
        proof {
            assert(base + events.lendergroup_borrower_accepted_funds@.take(i as int + 1).map_values(|e: LendergroupBorrowerAcceptedFunds| (e.evt_block_number, e.evt_block_time))
                =~= (base + events.lendergroup_borrower_accepted_funds@.take(i as int).map_values(|e: LendergroupBorrowerAcceptedFunds| (e.evt_block_number, e.evt_block_time))).push((e.evt_block_number, e.evt_block_time)));
        }
        i = i + 1;
    }
    proof {
        assert(events.lendergroup_borrower_accepted_funds@.take(events.lendergroup_borrower_accepted_funds@.len() as int) =~= events.lendergroup_borrower_accepted_funds@);
        done = base + events.lendergroup_borrower_accepted_funds@.map_values(|e: LendergroupBorrowerAcceptedFunds| (e.evt_block_number, e.evt_block_time));
    }
    let mut i: usize = 0;
    let ghost base = done;
    proof {
        assert(base + events.lendergroup_earnings_withdrawns@.take(0).map_values(|e: LendergroupEarningsWithdrawn| (e.evt_block_number, e.evt_block_time)) =~= base);
    }
    while i < events.lendergroup_earnings_withdrawns.len()
        invariant
            i <= events.lendergroup_earnings_withdrawns@.len(),
            bigint_set_store.wf(),
            bigint_set_store.values() == stamped(m, base + events.lendergroup_earnings_withdrawns@.take(i as int).map_values(|e: LendergroupEarningsWithdrawn| (e.evt_block_number, e.evt_block_time))),
        decreases events.lendergroup_earnings_withdrawns@.len() - i,
    {
        let e = &events.lendergroup_earnings_withdrawns[i];
        stamp(bigint_set_store, e.evt_block_number, e.evt_block_time, Ghost(base + events.lendergroup_earnings_withdrawns@.take(i as int).map_values(|e: LendergroupEarningsWithdrawn| (e.evt_block_number, e.evt_block_time))), Ghost(m));
        proof {
            assert(base + events.lendergroup_earnings_withdrawns@.take(i as int + 1).map_values(|e: LendergroupEarningsWithdrawn| (e.evt_block_number, e.evt_block_time))
                =~= (base + events.lendergroup_earnings_withdrawns@.take(i as int).map_values(|e: LendergroupEarningsWithdrawn| (e.evt_block_number, e.evt_block_time))).push((e.evt_block_number, e.evt_block_time)));
        }
        i = i + 1;
    }
    proof {
        assert(events.lendergroup_earnings_withdrawns@.take(events.lendergroup_earnings_withdrawns@.len() as int) =~= events.lendergroup_earnings_withdrawns@);
        done = base + events.lendergroup_earnings_withdrawns@.map_values(|e: LendergroupEarningsWithdrawn| (e.evt_block_number, e.evt_block_time));
    }
    let mut i: usize = 0;
    let ghost base = done;
    proof {
        assert(base + events.lendergroup_loan_repaids@.take(0).map_values(|e: LendergroupLoanRepaid| (e.evt_block_number, e.evt_block_time)) =~= base);
    }
    while i < events.lendergroup_loan_repaids.len()
        invariant
            i <= events.lendergroup_loan_repaids@.len(),
            bigint_set_store.wf(),
            bigint_set_store.values() == stamped(m, base + events.lendergroup_loan_repaids@.take(i as int).map_values(|e: LendergroupLoanRepaid| (e.evt_block_number, e.evt_block_time))),
        decreases events.lendergroup_loan_repaids@.len() - i,
    {
        let e = &events.lendergroup_loan_repaids[i];
        stamp(bigint_set_store, e.evt_block_number, e.evt_block_time, Ghost(base + events.lendergroup_loan_repaids@.take(i as int).map_values(|e: LendergroupLoanRepaid| (e.evt_block_number, e.evt_block_time))), Ghost(m));
        proof {
            assert(base + events.lendergroup_loan_repaids@.take(i as int + 1).map_values(|e: LendergroupLoanRepaid| (e.evt_block_number, e.evt_block_time))
                =~= (base + events.lendergroup_loan_repaids@.take(i as int).map_values(|e: LendergroupLoanRepaid| (e.evt_block_number, e.evt_block_time))).push((e.evt_block_number, e.evt_block_time)));
        }
        i = i + 1;
    }
    proof {
        assert(events.lendergroup_loan_repaids@.take(events.lendergroup_loan_repaids@.len() as int) =~= events.lendergroup_loan_repaids@);
        done = base + events.lendergroup_loan_repaids@.map_values(|e: LendergroupLoanRepaid| (e.evt_block_number, e.evt_block_time));
    }
    let mut i: usize = 0;
    let ghost base = done;
    proof {
        assert(base + events.lendergroup_defaulted_loan_liquidateds@.take(0).map_values(|e: LendergroupDefaultedLoanLiquidated| (e.evt_block_number, e.evt_block_time)) =~= base);
    }
    while i < events.lendergroup_defaulted_loan_liquidateds.len()
        invariant
            i <= events.lendergroup_defaulted_loan_liquidateds@.len(),
            bigint_set_store.wf(),
            bigint_set_store.values() == stamped(m, base + events.lendergroup_defaulted_loan_liquidateds@.take(i as int).map_values(|e: LendergroupDefaultedLoanLiquidated| (e.evt_block_number, e.evt_block_time))),
        decreases events.lendergroup_defaulted_loan_liquidateds@.len() - i,
    {
        let e = &events.lendergroup_defaulted_loan_liquidateds[i];
        stamp(bigint_set_store, e.evt_block_number, e.evt_block_time, Ghost(base + events.lendergroup_defaulted_loan_liquidateds@.take(i as int).map_values(|e: LendergroupDefaultedLoanLiquidated| (e.evt_block_number, e.evt_block_time))), Ghost(m));
        proof {
            assert(base + events.lendergroup_defaulted_loan_liquidateds@.take(i as int + 1).map_values(|e: LendergroupDefaultedLoanLiquidated| (e.evt_block_number, e.evt_block_time))
                =~= (base + events.lendergroup_defaulted_loan_liquidateds@.take(i as int).map_values(|e: LendergroupDefaultedLoanLiquidated| (e.evt_block_number, e.evt_block_time))).push((e.evt_block_number, e.evt_block_time)));
        }
        i = i + 1;
    }
    proof {
        assert(events.lendergroup_defaulted_loan_liquidateds@.take(events.lendergroup_defaulted_loan_liquidateds@.len() as int) =~= events.lendergroup_defaulted_loan_liquidateds@);
        done = base + events.lendergroup_defaulted_loan_liquidateds@.map_values(|e: LendergroupDefaultedLoanLiquidated| (e.evt_block_number, e.evt_block_time));
    }
    proof {
        assert(done =~= global_stamps(*events));
    }
}

/// Whether a metric name is one of the tracked pool totals.
pub open spec fn is_tracked_metric(m: Seq<char>) -> bool {
    ||| m == committed_metric()
    ||| m == escrowed_metric()
    ||| m == withdrawn_metric()
    ||| m == borrowed_metric()
    ||| m == repaid_metric()
    ||| m == interest_metric()
}

/// Whether a metric name is one of the tracked pool totals.
pub fn tracked_metric(m: &str) -> (r: bool)
    ensures
        r == is_tracked_metric(m@),
{
    str_equal(m, "total_principal_tokens_committed") || str_equal(m, "total_collateral_tokens_escrowed")
        || str_equal(m, "total_principal_tokens_withdrawn") || str_equal(m, "total_principal_tokens_borrowed")
        || str_equal(m, "total_principal_tokens_repaid") || str_equal(m, "total_interest_collected")
}

/// The collateral-withdrawal write that a per-bid delta makes to its pool's
/// total: the change of the delta, where the bid is linked to a pool.
pub open spec fn pool_collateral_op(links: Map<Seq<char>, Seq<char>>) -> spec_fn(Delta) -> Seq<(Seq<char>, int)> {
    |d: Delta| {
        let segs = segments(d.key@);
        if segs.len() >= 2 && segs[0] == bid_collateral_kind() && links.contains_key(key2(bid_link_kind(), segs[1])) {
            seq![(
                key2(pool_collateral_kind(), links[key2(bid_link_kind(), segs[1])]),
                text_int(d.new_value@) - text_int(d.old_value@),
            )]
        } else {
            Seq::empty()
        }
    }
}

/// Adds the change of each per-bid collateral delta to the total of the pool
/// the bid is linked to; deltas of unlinked bids and of other kinds are
/// skipped.
pub fn store_pool_collateral_withdrawn_data(
    bigint_delta_store: &Vec<Delta>,
    string_get_store: &SetStore,
    output_store: &mut AddStore,
)
    requires
        forall|j: int| 0 <= j < bigint_delta_store@.len() ==> delta_wf(#[trigger] bigint_delta_store@[j]),
        string_get_store.wf(),
        old(output_store).wf(),
    ensures
        final(output_store).wf(),
        final(output_store).values() == apply_ops(
            old(output_store).values(),
            flat_ops(bigint_delta_store@, pool_collateral_op(string_get_store.values())),
        ),
        final(output_store).base() == old(output_store).base(),
        final(output_store).log().len() == old(output_store).log().len() + flat_ops(
            bigint_delta_store@,
            pool_collateral_op(string_get_store.values()),
        ).len(),
        final(output_store).log().take(old(output_store).log().len() as int) == old(output_store).log(),
        forall|j: int| 0 <= j < flat_ops(bigint_delta_store@, pool_collateral_op(string_get_store.values())).len()
            ==> delta_wf(#[trigger] final(output_store).log()[old(output_store).log().len() + j])
            && delta_triple(final(output_store).log()[old(output_store).log().len() + j]) == write_delta(
                old(output_store).values(),
                flat_ops(bigint_delta_store@, pool_collateral_op(string_get_store.values())),
                j,
            ),
{
    let ghost links = string_get_store.values();
    let ghost ds = bigint_delta_store@;
    let mut ops: Vec<StoreOp> = Vec::new();
    proof {
        assert(op_pairs(ops@) =~= Seq::<(Seq<char>, int)>::empty());
        assert(ds.take(0) =~= Seq::<Delta>::empty());
    }
    let mut i: usize = 0;
    while i < bigint_delta_store.len()
        invariant
            i <= ds.len(),
            ds == bigint_delta_store@,
            links == string_get_store.values(),
            string_get_store.wf(),
            forall|j: int| 0 <= j < ds.len() ==> delta_wf(#[trigger] ds[j]),
            ops_wf(ops@),
            op_pairs(ops@) == flat_ops(ds.take(i as int), pool_collateral_op(links)),
        decreases ds.len() - i,
    {
        let d = &bigint_delta_store[i];
        let ghost prev = ops@;
        proof {
            lemma_flat_step(ds, i as int, pool_collateral_op(links));
            assert(delta_wf(ds[i as int]));
        }
        let kind = segment_at(d.key.as_str(), 0);
        let bid = segment_at(d.key.as_str(), 1);
        if let (Some(kind), Some(bid)) = (kind, bid) {
            if str_equal(kind.as_str(), "collateral_amount_withdrawn") {
                let link_key = join2("bid_originated_from_pool", bid.as_str());
                if let Some(pool) = string_get_store.get(link_key.as_str()) {
                    let key = join2("total_collateral_amount_withdrawn", pool.as_str());
                    let change = bigint_difference(&d.new_value, &d.old_value);
                    proof {
                        lemma_text_int(text_int(d.new_value@) - text_int(d.old_value@));
                    }
                    let op = StoreOp { key, amount: change };
                    ops.push(op);
                    proof {
                        assert(op_pairs(ops@) =~= op_pairs(prev) + seq![op_pair(op)]);
                        assert(seq![op_pair(op)] =~= pool_collateral_op(links)(*d));
                        assert forall|j: int| 0 <= j < ops@.len() implies is_int_text(#[trigger] ops@[j].amount@) by {
                            if j < prev.len() {
                                assert(ops@[j] == prev[j]);
                            }
                        }
                    }
                } else {
                    proof {
                        assert(pool_collateral_op(links)(*d) =~= Seq::<(Seq<char>, int)>::empty());
                        assert(op_pairs(ops@) =~= op_pairs(ops@) + Seq::<(Seq<char>, int)>::empty());
                    }
                }
            } else {
                proof {
                    reveal_strlit("collateral_amount_withdrawn");
                    assert(pool_collateral_op(links)(*d) =~= Seq::<(Seq<char>, int)>::empty());
                    assert(op_pairs(ops@) =~= op_pairs(ops@) + Seq::<(Seq<char>, int)>::empty());
                }
            }
        } else {
            proof {
                assert(pool_collateral_op(links)(*d) =~= Seq::<(Seq<char>, int)>::empty());
                assert(op_pairs(ops@) =~= op_pairs(ops@) + Seq::<(Seq<char>, int)>::empty());
            }
        }
        i = i + 1;
    }
    proof {
        assert(ds.take(ds.len() as int) =~= ds);
    }
    output_store.add_all(&ops);
}

/// The latest block time text of the globals, `0` where none is set.
pub open spec fn latest_time_text(globals: Map<Seq<char>, Seq<char>>) -> Seq<char> {
    if globals.contains_key(latest_time_key()) {
        globals[latest_time_key()]
    } else {
        "0"@
    }
}

/// The writes a pool-metric delta makes to the pool-metric snapshot store:
/// the latest block time of the pool, and the new value of a tracked metric.
pub open spec fn pool_snapshot_sets(globals: Map<Seq<char>, Seq<char>>) -> spec_fn(Delta) -> Seq<(Seq<char>, Seq<char>)> {
    |d: Delta| {
        let segs = segments(d.key@);
        if segs.len() >= 3 && segs[0] == pool_metric_kind() {
            seq![(key3(pool_metric_kind(), segs[1], "block_time"@), latest_time_text(globals))]
                + if is_tracked_metric(segs[2]) {
                seq![(key3(pool_metric_kind(), segs[1], segs[2]), d.new_value@)]
            } else {
                Seq::empty()
            }
        } else {
            Seq::empty()
        }
    }
}

/// Keeps the latest value of each tracked pool metric, and the block time it
/// was reached at, in a last-write store.
pub fn store_lendergroup_pool_metrics(
    deltas_lendergroup_pool_metrics: &Vec<Delta>,
    globals_store: &SetStore,
    store: &mut SetStore,
)
    requires
        globals_store.wf(),
        old(store).wf(),
    ensures
        final(store).wf(),
        final(store).values() == apply_sets(
            old(store).values(),
            flat_ops(deltas_lendergroup_pool_metrics@, pool_snapshot_sets(globals_store.values())),
        ),
{
    let ghost ds = deltas_lendergroup_pool_metrics@;
    let ghost globals = globals_store.values();
    let mut sets: Vec<Entry> = Vec::new();
    let time_text = match globals_store.get("latest_block_time") {
        Some(t) => t,
        None => "0".to_string(),
    };
    proof {
        assert(ds.take(0) =~= Seq::<Delta>::empty());
        assert(sets@.map_values(|e: Entry| entry_pair(e)) =~= Seq::<(Seq<char>, Seq<char>)>::empty());
    }
    let mut i: usize = 0;
    while i < deltas_lendergroup_pool_metrics.len()
        invariant
            i <= ds.len(),
            ds == deltas_lendergroup_pool_metrics@,
            time_text@ == latest_time_text(globals),
            sets@.map_values(|e: Entry| entry_pair(e)) == flat_ops(ds.take(i as int), pool_snapshot_sets(globals)),
        decreases ds.len() - i,
    {
        let d = &deltas_lendergroup_pool_metrics[i];
        let ghost prev = sets@;
        proof {
            lemma_flat_step(ds, i as int, pool_snapshot_sets(globals));
        }
        let kind = segment_at(d.key.as_str(), 0);
        let pool = segment_at(d.key.as_str(), 1);
        let metric = segment_at(d.key.as_str(), 2);
        proof {
            reveal_strlit("group_pool_metric");
        }
        if let (Some(kind), Some(pool), Some(metric)) = (kind, pool, metric) {
            if str_equal(kind.as_str(), "group_pool_metric") {
                let time_key = join3("group_pool_metric", pool.as_str(), "block_time");
                let e1 = Entry { key: time_key, value: time_text.clone() };
                sets.push(e1);
                if tracked_metric(metric.as_str()) {
                    let value_key = join3("group_pool_metric", pool.as_str(), metric.as_str());
                    let e2 = Entry { key: value_key, value: d.new_value.clone() };
                    sets.push(e2);
                    proof {
                        assert(sets@.map_values(|e: Entry| entry_pair(e)) =~= prev.map_values(|e: Entry| entry_pair(e))
                            + seq![entry_pair(e1), entry_pair(e2)]);
                        assert(seq![entry_pair(e1), entry_pair(e2)] =~= pool_snapshot_sets(globals)(*d));
                    }
                } else {
                    proof {
                        assert(sets@.map_values(|e: Entry| entry_pair(e)) =~= prev.map_values(|e: Entry| entry_pair(e))
                            + seq![entry_pair(e1)]);
                        assert(seq![entry_pair(e1)] =~= pool_snapshot_sets(globals)(*d));
                    }
                }
            } else {
                proof {
                    assert(pool_snapshot_sets(globals)(*d) =~= Seq::<(Seq<char>, Seq<char>)>::empty());
                    assert(sets@.map_values(|e: Entry| entry_pair(e)) =~= sets@.map_values(|e: Entry| entry_pair(e)) + Seq::<(Seq<char>, Seq<char>)>::empty());
                }
            }
        } else {
            proof {
                assert(pool_snapshot_sets(globals)(*d) =~= Seq::<(Seq<char>, Seq<char>)>::empty());
                assert(sets@.map_values(|e: Entry| entry_pair(e)) =~= sets@.map_values(|e: Entry| entry_pair(e)) + Seq::<(Seq<char>, Seq<char>)>::empty());
            }
        }
        i = i + 1;
    }
    proof {
        assert(ds.take(ds.len() as int) =~= ds);
    }
    store.set_all(&sets);
}

/// Whether an element gives at most one item.
pub open spec fn at_most_one<T, U>(s: Seq<T>, f: spec_fn(T) -> Seq<U>) -> bool {
    forall|j: int| 0 <= j < s.len() ==> (#[trigger] f(s[j])).len() <= 1
}

/// Where each element gives at most one item, every item of the flattened
/// list is the item of exactly one element, at strictly increasing positions,
/// and every element that gives an item has it in the list.
pub proof fn lemma_flat_trace<T, U>(s: Seq<T>, f: spec_fn(T) -> Seq<U>)
    requires
        at_most_one(s, f),
    ensures
        exists|src: Seq<int>|
            {
                &&& src.len() == flat_ops(s, f).len()
                &&& forall|k: int| 0 <= k < src.len() ==> 0 <= #[trigger] src[k] < s.len()
                &&& forall|k: int| 0 <= k < src.len() ==> f(s[#[trigger] src[k]]) == seq![flat_ops(s, f)[k]]
                &&& forall|k1: int, k2: int| 0 <= k1 < k2 < src.len() ==> src[k1] < src[k2]
                &&& forall|j: int| 0 <= j < s.len() && (#[trigger] f(s[j])).len() == 1 ==> exists|k: int|
                    0 <= k < src.len() && src[k] == j
            },
    decreases s.len(),
{
    if s.len() == 0 {
        let src = Seq::<int>::empty();
        assert(src.len() == flat_ops(s, f).len());
    } else {
        let front = s.drop_last();
        assert forall|j: int| 0 <= j < front.len() implies (#[trigger] f(front[j])).len() <= 1 by {
            assert(front[j] == s[j]);
        }
        lemma_flat_trace(front, f);
        let src0 = choose|src: Seq<int>|
            {
                &&& src.len() == flat_ops(front, f).len()
                &&& forall|k: int| 0 <= k < src.len() ==> 0 <= #[trigger] src[k] < front.len()
                &&& forall|k: int| 0 <= k < src.len() ==> f(front[#[trigger] src[k]]) == seq![flat_ops(front, f)[k]]
                &&& forall|k1: int, k2: int| 0 <= k1 < k2 < src.len() ==> src[k1] < src[k2]
                &&& forall|j: int| 0 <= j < front.len() && (#[trigger] f(front[j])).len() == 1 ==> exists|k: int|
                    0 <= k < src.len() && src[k] == j
            };
        let last = s.len() - 1;
        assert(f(s[last]).len() <= 1);
        if f(s.last()).len() == 0 {
            assert(flat_ops(s, f) =~= flat_ops(front, f));
            assert forall|k: int| 0 <= k < src0.len() implies f(s[#[trigger] src0[k]]) == seq![flat_ops(s, f)[k]] by {
                assert(s[src0[k]] == front[src0[k]]);
            }
            assert forall|j: int| 0 <= j < s.len() && (#[trigger] f(s[j])).len() == 1 implies exists|k: int|
                0 <= k < src0.len() && src0[k] == j by {
                assert(j < front.len());
                assert(s[j] == front[j]);
                assert(f(front[j]).len() == 1);
            }
        } else {
            let src = src0.push(last);
            let fl = flat_ops(s, f);
            assert(fl == flat_ops(front, f) + f(s.last()));
            assert forall|k: int| 0 <= k < src.len() implies f(s[#[trigger] src[k]]) == seq![fl[k]] by {
                if k < src0.len() {
                    assert(src[k] == src0[k]);
                    assert(s[src0[k]] == front[src0[k]]);
                    assert(fl[k] == flat_ops(front, f)[k]);
                } else {
                    assert(f(s.last()) =~= seq![fl[k]]);
                }
            }
            assert forall|j: int| 0 <= j < s.len() && (#[trigger] f(s[j])).len() == 1 implies exists|k: int|
                0 <= k < src.len() && src[k] == j by {
                if j < front.len() {
                    assert(s[j] == front[j]);
                    assert(f(front[j]).len() == 1);
                    let k = choose|k: int| 0 <= k < src0.len() && src0[k] == j;
                    assert(src[k] == j);
                } else {
                    assert(src[src.len() - 1] == j);
                }
            }
            assert forall|k: int| 0 <= k < src.len() implies 0 <= #[trigger] src[k] < s.len() by {
                if k < src0.len() {
                    assert(src[k] == src0[k]);
                }
            }
            assert forall|k1: int, k2: int| 0 <= k1 < k2 < src.len() implies src[k1] < src[k2] by {
                if k2 < src0.len() {
                    assert(src[k1] == src0[k1] && src[k2] == src0[k2]);
                } else {
                    assert(src[k1] == src0[k1]);
                }
            }
        }
    }
}

} // verus!
