//! The per-block run of the indexer: extraction, then every store in the
//! order the handlers depend on each other, then the projection of events
//! and deltas into rows.
use vstd::prelude::*;
use crate::block::Block;
use crate::collateral;
use crate::contract::Events;
use crate::delta_rows::{graph_out, lendergroup_rows, touched, touched_pools};
use crate::extract::{
    block_events, factory_deploy_logs, map_collateralmanager_events, map_events, record_all,
    store_factory_lendergroup_created, PoolInitializationRead,
};
use crate::metrics::{
    collateral_withdrawn_ops, flat_ops, global_stamps, pool_collateral_op, pool_metric_ops,
    pool_snapshot_sets, stamped, store_bid_collateral_withdrawn_data_deltas,
    store_bid_from_pool_data, store_globals_from_events, store_lendergroup_pool_metrics,
    store_lendergroup_pool_metrics_deltas, store_lendergroup_user_metrics_deltas,
    store_pool_collateral_withdrawn_data, user_metric_ops, bid_link,
};
use crate::project::{factory_rows, rows_view, PoolEnrichment, RowOp, RowView};
use crate::registry::AddressRegistry;
use crate::store::{
    apply_ops, apply_sets, delta_triple, delta_wf, log_triples, replay, write_delta, AddStore, Delta,
    SetStore,
};
use crate::contract::LendergroupBorrowerAcceptedFunds;

verus! {

/// Everything the indexer keeps from block to block.
pub struct IndexerState {
    /// Pools deployed by the factory.
    pub registry: AddressRegistry,
    /// Additive pool totals, keyed `group_pool_metric:{pool}:{metric}`.
    pub pool_metrics: AddStore,
    /// Additive user totals, keyed `group_user_metric:{pool}:{user}:{metric}`.
    pub user_metrics: AddStore,
    /// Latest value of each tracked pool total and the block time it was
    /// reached at, mirrored from the pool-metric deltas.
    pub pool_snapshots: SetStore,
    /// Latest block number and time seen in events.
    pub globals: SetStore,
    /// The pool each bid was taken from, keyed `bid_originated_from_pool:{bid}`.
    pub bid_links: SetStore,
    /// Collateral withdrawn per bid and token.
    pub bid_collateral: AddStore,
    /// Collateral withdrawn per pool.
    pub pool_collateral: AddStore,
}

/// What one block changed: its events and the delta logs of its stores.
pub struct BlockChanges {
    pub events: Events,
    pub collateral_events: collateral::Events,
    pub pool_deltas: Vec<Delta>,
    pub user_deltas: Vec<Delta>,
    pub bid_collateral_deltas: Vec<Delta>,
}

impl IndexerState {
    /// Every store well formed, with no delta pending between blocks.
    pub open spec fn wf(&self) -> bool {
        &&& self.registry.wf()
        &&& self.pool_metrics.wf()
        &&& self.user_metrics.wf()
        &&& self.pool_snapshots.wf()
        &&& self.globals.wf()
        &&& self.bid_links.wf()
        &&& self.bid_collateral.wf()
        &&& self.pool_collateral.wf()
        &&& self.pool_metrics.log().len() == 0
        &&& self.user_metrics.log().len() == 0
        &&& self.bid_collateral.log().len() == 0
        &&& self.pool_collateral.log().len() == 0
    }

    /// A state with nothing recorded.
    pub fn new() -> (r: IndexerState)
        ensures
            r.wf(),
            r.registry.registrations() == Map::<Seq<char>, (u64, u64)>::empty(),
            r.pool_metrics.values() == Map::<Seq<char>, int>::empty(),
            r.user_metrics.values() == Map::<Seq<char>, int>::empty(),
            r.pool_collateral.values() == Map::<Seq<char>, int>::empty(),
    {
        IndexerState {
            registry: AddressRegistry::new(),
            pool_metrics: AddStore::new(),
            user_metrics: AddStore::new(),
            pool_snapshots: SetStore::new(),
            globals: SetStore::new(),
            bid_links: SetStore::new(),
            bid_collateral: AddStore::new(),
            pool_collateral: AddStore::new(),
        }
    }

    /// Runs one block through the stores: registers the pools the factory
    /// deployed, extracts the events (pool logs seen against registrations
    /// strictly before them), applies each store's writes, and hands out the
    /// block's deltas.
    pub fn apply_block(&mut self, blk: &Block, reads: &Vec<PoolInitializationRead>) -> (r: BlockChanges)
        requires
            old(self).wf(),
        ensures
            final(self).wf(),
            final(self).registry.registrations() == record_all(
                old(self).registry.registrations(),
                factory_deploy_logs(blk),
                blk.number,
            ),
            block_events(r.events, blk, final(self).registry.registrations(), reads@),
            final(self).globals.values() == stamped(old(self).globals.values(), global_stamps(r.events)),
            final(self).bid_links.values() == apply_sets(
                old(self).bid_links.values(),
                r.events.lendergroup_borrower_accepted_funds@.map_values(
                    |e: LendergroupBorrowerAcceptedFunds| bid_link(e),
                ),
            ),
            final(self).pool_metrics.values() == apply_ops(old(self).pool_metrics.values(), pool_metric_ops(r.events)),
            final(self).pool_metrics.values() == replay(old(self).pool_metrics.values(), log_triples(r.pool_deltas@)),
            r.pool_deltas@.len() == pool_metric_ops(r.events).len(),
            forall|j: int| 0 <= j < r.pool_deltas@.len() ==> (#[trigger] r.pool_deltas@[j]).key@ == pool_metric_ops(r.events)[j].0,
            forall|j: int| 0 <= j < r.pool_deltas@.len() ==> delta_wf(#[trigger] r.pool_deltas@[j]) && delta_triple(r.pool_deltas@[j])
                == write_delta(old(self).pool_metrics.values(), pool_metric_ops(r.events), j),
            final(self).user_metrics.values() == apply_ops(old(self).user_metrics.values(), user_metric_ops(r.events)),
            final(self).user_metrics.values() == replay(old(self).user_metrics.values(), log_triples(r.user_deltas@)),
            r.user_deltas@.len() == user_metric_ops(r.events).len(),
            forall|j: int| 0 <= j < r.user_deltas@.len() ==> (#[trigger] r.user_deltas@[j]).key@ == user_metric_ops(r.events)[j].0,
            forall|j: int| 0 <= j < r.user_deltas@.len() ==> delta_wf(#[trigger] r.user_deltas@[j]) && delta_triple(r.user_deltas@[j])
                == write_delta(old(self).user_metrics.values(), user_metric_ops(r.events), j),
            final(self).pool_snapshots.values() == apply_sets(
                old(self).pool_snapshots.values(),
                flat_ops(r.pool_deltas@, pool_snapshot_sets(final(self).globals.values())),
            ),
            forall|j: int| 0 <= j < r.bid_collateral_deltas@.len() ==> delta_wf(#[trigger] r.bid_collateral_deltas@[j])
                && delta_triple(r.bid_collateral_deltas@[j]) == write_delta(
                old(self).bid_collateral.values(),
                flat_ops(r.collateral_events.collateral_manager_collateral_withdrawn@, collateral_withdrawn_ops()),
                j,
            ),
            r.bid_collateral_deltas@.len() == r.collateral_events.collateral_manager_collateral_withdrawn@.len(),
            final(self).bid_collateral.values() == apply_ops(
                old(self).bid_collateral.values(),
                flat_ops(r.collateral_events.collateral_manager_collateral_withdrawn@, collateral_withdrawn_ops()),
            ),
            final(self).pool_collateral.values() == apply_ops(
                old(self).pool_collateral.values(),
                flat_ops(r.bid_collateral_deltas@, pool_collateral_op(final(self).bid_links.values())),
            ),
    {
        proof {
            crate::store::lemma_add_store_conservation(&self.pool_metrics);
            crate::store::lemma_add_store_conservation(&self.user_metrics);
            assert(log_triples(self.pool_metrics.log()) =~= Seq::empty());
            assert(log_triples(self.user_metrics.log()) =~= Seq::empty());
        }
        store_factory_lendergroup_created(blk, &mut self.registry);
        let events = map_events(blk, &self.registry, reads);
        store_globals_from_events(&events, &mut self.globals);
        store_bid_from_pool_data(&events, &mut self.bid_links);
        store_lendergroup_pool_metrics_deltas(&events, &mut self.pool_metrics);
        proof {
            crate::store::lemma_add_store_conservation(&self.pool_metrics);
            assert(self.pool_metrics.base() == old(self).pool_metrics.values());
        }
        let pool_deltas = self.pool_metrics.end_block();
        proof {
            assert forall|j: int| 0 <= j < pool_deltas@.len() implies (#[trigger] pool_deltas@[j]).key@
                == pool_metric_ops(events)[j].0 && delta_wf(pool_deltas@[j]) && delta_triple(pool_deltas@[j])
                == write_delta(old(self).pool_metrics.values(), pool_metric_ops(events), j) by {
                assert(pool_deltas@[0 + j] == pool_deltas@[j]);
            }
        }
        store_lendergroup_user_metrics_deltas(&events, &mut self.user_metrics);
        proof {
            crate::store::lemma_add_store_conservation(&self.user_metrics);
            assert(self.user_metrics.base() == old(self).user_metrics.values());
        }
        let user_deltas = self.user_metrics.end_block();
        proof {
            assert forall|j: int| 0 <= j < user_deltas@.len() implies (#[trigger] user_deltas@[j]).key@
                == user_metric_ops(events)[j].0 && delta_wf(user_deltas@[j]) && delta_triple(user_deltas@[j])
                == write_delta(old(self).user_metrics.values(), user_metric_ops(events), j) by {
                assert(user_deltas@[0 + j] == user_deltas@[j]);
            }
        }
        store_lendergroup_pool_metrics(&pool_deltas, &self.globals, &mut self.pool_snapshots);
        let collateral_events = map_collateralmanager_events(blk);
        store_bid_collateral_withdrawn_data_deltas(&collateral_events, &mut self.bid_collateral);
        proof {
            crate::store::lemma_add_store_conservation(&self.bid_collateral);
        }
        let bid_collateral_deltas = self.bid_collateral.end_block();
        proof {
            assert forall|j: int| 0 <= j < bid_collateral_deltas@.len() implies delta_wf(#[trigger] bid_collateral_deltas@[j])
                && delta_triple(bid_collateral_deltas@[j]) == write_delta(
                old(self).bid_collateral.values(),
                flat_ops(collateral_events.collateral_manager_collateral_withdrawn@, collateral_withdrawn_ops()),
                j,
            ) by {
                assert(bid_collateral_deltas@[0 + j] == bid_collateral_deltas@[j]);
            }
        }
        store_pool_collateral_withdrawn_data(&bid_collateral_deltas, &self.bid_links, &mut self.pool_collateral);
        let _ = self.pool_collateral.end_block();
        BlockChanges { events, collateral_events, pool_deltas, user_deltas, bid_collateral_deltas }
    }

    /// The pools whose supplementary values the projection of a block reads.
    pub fn pools_to_enrich(&self, changes: &BlockChanges) -> (r: Vec<String>)
        ensures
            r@.map_values(|s: String| s@) == touched(changes.pool_deltas@),
    {
        touched_pools(&changes.pool_deltas)
    }

    /// The change-set of a block, from its changes, the stores after it, and
    /// the supplementary reads of its pools.
    pub fn project_block(
        &self,
        blk: &Block,
        changes: &BlockChanges,
        enrichment: &Vec<PoolEnrichment>,
    ) -> (r: Vec<RowOp>)
        requires
            self.wf(),
        ensures
            rows_view(r@) == factory_rows(changes.events) + lendergroup_rows(
                changes.events,
                blk.number,
                blk.timestamp_seconds,
                changes.pool_deltas@,
                self.pool_metrics.values(),
                changes.user_deltas@,
                self.pool_collateral.values(),
                enrichment@,
            ),
    {
        graph_out(
            &changes.events,
            blk.number,
            blk.timestamp_seconds,
            &changes.pool_deltas,
            &self.pool_metrics,
            &changes.user_deltas,
            &self.pool_collateral,
            enrichment,
        )
    }
}

} // verus!
