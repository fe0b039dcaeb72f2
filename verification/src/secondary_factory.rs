//! The secondary pool-factory modules: pools created by the factory at
//! `0x4519148cc4030c2e3573f1f886ed4071fa35d62b`, and the `TradeReport` events of those pools.
use crate::block::Block;
use crate::group::{groups_view, is_grouping, Group};
use crate::records::{PoolCreatedRecord, TradeReportRecord};
use crate::tracker::{
    created_views, keyed_trades, pool_created_records, created_pool_marks, created_marks,
    trade_report_append_ops, trade_appends, trade_report_records, trade_reports_by_pool,
    trade_views, views, AppendString, SetInt64,
};
use crate::abi::{trade_report_topic, trade_report_topic_bytes};
use vstd::prelude::*;

verus! {

/// The address of the secondary pool factory.
pub open spec fn secondarypool_factory_address() -> Seq<u8> {
    seq![
        0x45u8, 0x19u8, 0x14u8, 0x8cu8, 0xc4u8, 0x03u8, 0x0cu8, 0x2eu8, 0x35u8, 0x73u8,
        0xf1u8, 0xf8u8, 0x86u8, 0xedu8, 0x40u8, 0x71u8, 0xfau8, 0x35u8, 0xd6u8, 0x2bu8,
    ]
}

/// The address of the secondary pool factory, as bytes.
pub fn secondarypool_factory_tracked_contract() -> (r: Vec<u8>)
    ensures
        r@ == secondarypool_factory_address(),
{
    vec![
        0x45u8, 0x19u8, 0x14u8, 0x8cu8, 0xc4u8, 0x03u8, 0x0cu8, 0x2eu8, 0x35u8, 0x73u8,
        0xf1u8, 0xf8u8, 0x86u8, 0xedu8, 0x40u8, 0x71u8, 0xfau8, 0x35u8, 0xd6u8, 0x2bu8,
    ]
}

/// The events of one block: pools created by the factory, then the trades
/// that known pools report.
#[derive(Debug)]
pub struct Events {
    pub secondarypool_factory_pool_createds: Vec<PoolCreatedRecord>,
    pub secondary_pool_trade_reports: Vec<TradeReportRecord>,
}

/// Appends to `events` the records of the pools that the factory creates in
/// the block, in log order.
pub fn map_secondarypool_factory_events(blk: &Block, events: &mut Events)
    ensures
        views(final(events).secondarypool_factory_pool_createds@) == views(old(events).secondarypool_factory_pool_createds@)
            + created_views(*blk, secondarypool_factory_address()),
        final(events).secondary_pool_trade_reports@ == old(events).secondary_pool_trade_reports@,
{
    let factory = secondarypool_factory_tracked_contract();
    let mut found = pool_created_records(blk, &factory);
    let ghost before = events.secondarypool_factory_pool_createds@;
    let ghost added = found@;
    events.secondarypool_factory_pool_createds.append(&mut found);
    assert(views(events.secondarypool_factory_pool_createds@) =~= views(before) + views(added));
}

/// Appends to `events` the records of the `TradeReport` events that known pools
/// emit in the block, in log order. `known[i]` tells whether the emitter of
/// `blk.logs[i]` was a known pool at that log's ordinal.
pub fn map_secondary_pool_events(blk: &Block, known: &Vec<bool>, events: &mut Events)
    requires
        known@.len() == blk.logs@.len(),
    ensures
        views(final(events).secondary_pool_trade_reports@) == views(old(events).secondary_pool_trade_reports@)
            + trade_views(*blk, known@, trade_report_topic()),
        final(events).secondarypool_factory_pool_createds@ == old(events).secondarypool_factory_pool_createds@,
{
    let topic = trade_report_topic_bytes();
    let mut found = trade_report_records(blk, known, &topic);
    let ghost before = events.secondary_pool_trade_reports@;
    let ghost added = found@;
    events.secondary_pool_trade_reports.append(&mut found);
    assert(views(events.secondary_pool_trade_reports@) =~= views(before) + views(added));
}

/// The store writes of the block: for each pool the factory creates, in
/// log order, its address as hexadecimal text set to 1 at the log's
/// ordinal. Only pools of this factory are marked.
pub fn store_secondary_pool(blk: &Block) -> (r: Vec<SetInt64>)
    ensures
        views(r@) == created_marks(*blk, secondarypool_factory_address()),
{
    let factory = secondarypool_factory_tracked_contract();
    created_pool_marks(blk, &factory)
}

/// The store appends of the block: for each `TradeReport` event of a known pool,
/// in log order, the record's encoding as hexadecimal text under the pool's
/// key, at the log's ordinal.
pub fn store_secondary_pool_trades_per_pool(blk: &Block, known: &Vec<bool>) -> (r: Vec<AppendString>)
    requires
        known@.len() == blk.logs@.len(),
    ensures
        views(r@) == trade_appends(*blk, known@, trade_report_topic()),
{
    let topic = trade_report_topic_bytes();
    trade_report_append_ops(blk, known, &topic)
}

/// The `TradeReport` events of known pools grouped by pool: one group per pool
/// address (as lowercase hexadecimal text), holding its records in log
/// order. The order of the groups is not specified.
pub fn map_trades_per_pool(blk: &Block, known: &Vec<bool>) -> (r: Vec<Group<TradeReportRecord>>)
    requires
        known@.len() == blk.logs@.len(),
    ensures
        is_grouping(keyed_trades(*blk, known@, trade_report_topic()), groups_view(r@)),
{
    let topic = trade_report_topic_bytes();
    trade_reports_by_pool(blk, known, &topic)
}

/// All events of the block: the pools the factory creates, then the
/// `TradeReport` events of known pools.
pub fn map_events(blk: &Block, known: &Vec<bool>) -> (r: Events)
    requires
        known@.len() == blk.logs@.len(),
    ensures
        views(r.secondarypool_factory_pool_createds@) == created_views(*blk, secondarypool_factory_address()),
        views(r.secondary_pool_trade_reports@) == trade_views(*blk, known@, trade_report_topic()),
{
    let mut events = Events { secondarypool_factory_pool_createds: Vec::new(), secondary_pool_trade_reports: Vec::new() };
    assert(views(events.secondarypool_factory_pool_createds@) =~= Seq::empty());
    assert(views(events.secondary_pool_trade_reports@) =~= Seq::empty());
    map_secondarypool_factory_events(blk, &mut events);
    map_secondary_pool_events(blk, known, &mut events);
    assert(views(events.secondarypool_factory_pool_createds@) =~= created_views(*blk, secondarypool_factory_address()));
    assert(views(events.secondary_pool_trade_reports@) =~= trade_views(*blk, known@, trade_report_topic()));
    events
}

} // verus!
