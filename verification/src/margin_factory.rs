//! The margin pool-factory modules: pools created by the factory at
//! `0xb1ae3fc5b16d3736bf0db20606fb9a10b435392c`, and the `MarginTradeReport` events of those pools.
use crate::block::Block;
use crate::group::{groups_view, is_grouping, Group};
use crate::records::{PoolCreatedRecord, TradeReportRecord};
use crate::tracker::{
    created_views, keyed_trades, pool_created_records, pool_marks, pool_marks_spec,
    trade_report_append_ops, trade_appends, trade_report_records, trade_reports_by_pool,
    trade_views, views, AppendString, SetInt64,
};
use crate::abi::{margin_trade_report_topic, margin_trade_report_topic_bytes};
use vstd::prelude::*;

verus! {

/// The address of the margin pool factory.
pub open spec fn marginpool_factory_address() -> Seq<u8> {
    seq![
        0xb1u8, 0xaeu8, 0x3fu8, 0xc5u8, 0xb1u8, 0x6du8, 0x37u8, 0x36u8, 0xbfu8, 0x0du8,
        0xb2u8, 0x06u8, 0x06u8, 0xfbu8, 0x9au8, 0x10u8, 0xb4u8, 0x35u8, 0x39u8, 0x2cu8,
    ]
}

/// The address of the margin pool factory, as bytes.
pub fn marginpool_factory_tracked_contract() -> (r: Vec<u8>)
    ensures
        r@ == marginpool_factory_address(),
{
    vec![
        0xb1u8, 0xaeu8, 0x3fu8, 0xc5u8, 0xb1u8, 0x6du8, 0x37u8, 0x36u8, 0xbfu8, 0x0du8,
        0xb2u8, 0x06u8, 0x06u8, 0xfbu8, 0x9au8, 0x10u8, 0xb4u8, 0x35u8, 0x39u8, 0x2cu8,
    ]
}

/// The events of one block: pools created by the factory, then the trades
/// that known pools report.
#[derive(Debug)]
pub struct Events {
    pub marginpool_factory_pool_createds: Vec<PoolCreatedRecord>,
    pub margin_pool_margin_trade_reports: Vec<TradeReportRecord>,
}

/// Appends to `events` the records of the pools that the factory creates in
/// the block, in log order.
pub fn map_marginpool_factory_events(blk: &Block, events: &mut Events)
    ensures
        views(final(events).marginpool_factory_pool_createds@) == views(old(events).marginpool_factory_pool_createds@)
            + created_views(*blk, marginpool_factory_address()),
        final(events).margin_pool_margin_trade_reports@ == old(events).margin_pool_margin_trade_reports@,
{
    let factory = marginpool_factory_tracked_contract();
    let mut found = pool_created_records(blk, &factory);
    let ghost before = events.marginpool_factory_pool_createds@;
    let ghost added = found@;
    events.marginpool_factory_pool_createds.append(&mut found);
    assert(views(events.marginpool_factory_pool_createds@) =~= views(before) + views(added));
}

/// Appends to `events` the records of the `MarginTradeReport` events that known pools
/// emit in the block, in log order. `known[i]` tells whether the emitter of
/// `blk.logs[i]` was a known pool at that log's ordinal.
pub fn map_margin_pool_events(blk: &Block, known: &Vec<bool>, events: &mut Events)
    requires
        known@.len() == blk.logs@.len(),
    ensures
        views(final(events).margin_pool_margin_trade_reports@) == views(old(events).margin_pool_margin_trade_reports@)
            + trade_views(*blk, known@, margin_trade_report_topic()),
        final(events).marginpool_factory_pool_createds@ == old(events).marginpool_factory_pool_createds@,
{
    let topic = margin_trade_report_topic_bytes();
    let mut found = trade_report_records(blk, known, &topic);
    let ghost before = events.margin_pool_margin_trade_reports@;
    let ghost added = found@;
    events.margin_pool_margin_trade_reports.append(&mut found);
    assert(views(events.margin_pool_margin_trade_reports@) =~= views(before) + views(added));
}

/// The store writes of the block: for each log, the address of a pool the
/// factory creates there, then the emitter of a `MarginTradeReport` event; each key
/// set to 1 at the log's ordinal.
pub fn store_margin_pool(blk: &Block) -> (r: Vec<SetInt64>)
    ensures
        views(r@) == pool_marks_spec(
            *blk,
            marginpool_factory_address(),
            margin_trade_report_topic(),
            9,
            blk.logs@.len(),
        ),
{
    let factory = marginpool_factory_tracked_contract();
    let topic = margin_trade_report_topic_bytes();
    pool_marks(blk, &factory, &topic, 9)
}

/// The store appends of the block: for each `MarginTradeReport` event of a known pool,
/// in log order, the record's encoding as hexadecimal text under the pool's
/// key, at the log's ordinal.
pub fn store_margin_pool_trades_per_pool(blk: &Block, known: &Vec<bool>) -> (r: Vec<AppendString>)
    requires
        known@.len() == blk.logs@.len(),
    ensures
        views(r@) == trade_appends(*blk, known@, margin_trade_report_topic()),
{
    let topic = margin_trade_report_topic_bytes();
    trade_report_append_ops(blk, known, &topic)
}

/// The `MarginTradeReport` events of known pools grouped by pool: one group per pool
/// address (as lowercase hexadecimal text), holding its records in log
/// order. The order of the groups is not specified.
pub fn map_trades_per_pool(blk: &Block, known: &Vec<bool>) -> (r: Vec<Group<TradeReportRecord>>)
    requires
        known@.len() == blk.logs@.len(),
    ensures
        is_grouping(keyed_trades(*blk, known@, margin_trade_report_topic()), groups_view(r@)),
{
    let topic = margin_trade_report_topic_bytes();
    trade_reports_by_pool(blk, known, &topic)
}

/// All events of the block: the pools the factory creates, then the
/// `MarginTradeReport` events of known pools.
pub fn map_events(blk: &Block, known: &Vec<bool>) -> (r: Events)
    requires
        known@.len() == blk.logs@.len(),
    ensures
        views(r.marginpool_factory_pool_createds@) == created_views(*blk, marginpool_factory_address()),
        views(r.margin_pool_margin_trade_reports@) == trade_views(*blk, known@, margin_trade_report_topic()),
{
    let mut events = Events { marginpool_factory_pool_createds: Vec::new(), margin_pool_margin_trade_reports: Vec::new() };
    assert(views(events.marginpool_factory_pool_createds@) =~= Seq::empty());
    assert(views(events.margin_pool_margin_trade_reports@) =~= Seq::empty());
    map_marginpool_factory_events(blk, &mut events);
    map_margin_pool_events(blk, known, &mut events);
    assert(views(events.marginpool_factory_pool_createds@) =~= created_views(*blk, marginpool_factory_address()));
    assert(views(events.margin_pool_margin_trade_reports@) =~= trade_views(*blk, known@, margin_trade_report_topic()));
    events
}

} // verus!
