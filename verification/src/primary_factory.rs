//! The primary pool-factory modules: pools created by the factory at
//! `0xda13bc71fee08ffd523f10458b0e2c2d8427bbd5`, and the `Subscription` events of those pools.
use crate::block::Block;
use crate::group::{groups_view, is_grouping, Group};
use crate::records::{PoolCreatedRecord, SubscriptionRecord};
use crate::tracker::{
    created_views, keyed_subscriptions, pool_created_records, created_pool_marks, created_marks,
    subscription_append_ops, subscription_appends, subscription_records, subscriptions_by_pool,
    subscription_views, views, AppendString, SetInt64,
};

use vstd::prelude::*;

verus! {

/// The address of the primary pool factory.
pub open spec fn primarypool_factory_address() -> Seq<u8> {
    seq![
        0xdau8, 0x13u8, 0xbcu8, 0x71u8, 0xfeu8, 0xe0u8, 0x8fu8, 0xfdu8, 0x52u8, 0x3fu8,
        0x10u8, 0x45u8, 0x8bu8, 0x0eu8, 0x2cu8, 0x2du8, 0x84u8, 0x27u8, 0xbbu8, 0xd5u8,
    ]
}

/// The address of the primary pool factory, as bytes.
pub fn primarypool_factory_tracked_contract() -> (r: Vec<u8>)
    ensures
        r@ == primarypool_factory_address(),
{
    vec![
        0xdau8, 0x13u8, 0xbcu8, 0x71u8, 0xfeu8, 0xe0u8, 0x8fu8, 0xfdu8, 0x52u8, 0x3fu8,
        0x10u8, 0x45u8, 0x8bu8, 0x0eu8, 0x2cu8, 0x2du8, 0x84u8, 0x27u8, 0xbbu8, 0xd5u8,
    ]
}

/// The events of one block: pools created by the factory, then the
/// subscriptions to known pools.
#[derive(Debug)]
pub struct Events {
    pub primarypool_factory_pool_createds: Vec<PoolCreatedRecord>,
    pub primary_pool_subscriptions: Vec<SubscriptionRecord>,
}

/// Appends to `events` the records of the pools that the factory creates in
/// the block, in log order.
pub fn map_primarypool_factory_events(blk: &Block, events: &mut Events)
    ensures
        views(final(events).primarypool_factory_pool_createds@) == views(old(events).primarypool_factory_pool_createds@)
            + created_views(*blk, primarypool_factory_address()),
        final(events).primary_pool_subscriptions@ == old(events).primary_pool_subscriptions@,
{
    let factory = primarypool_factory_tracked_contract();
    let mut found = pool_created_records(blk, &factory);
    let ghost before = events.primarypool_factory_pool_createds@;
    let ghost added = found@;
    events.primarypool_factory_pool_createds.append(&mut found);
    assert(views(events.primarypool_factory_pool_createds@) =~= views(before) + views(added));
}

/// Appends to `events` the records of the `Subscription` events that known pools
/// emit in the block, in log order. `known[i]` tells whether the emitter of
/// `blk.logs[i]` was a known pool at that log's ordinal.
pub fn map_primary_pool_events(blk: &Block, known: &Vec<bool>, events: &mut Events)
    requires
        known@.len() == blk.logs@.len(),
    ensures
        views(final(events).primary_pool_subscriptions@) == views(old(events).primary_pool_subscriptions@)
            + subscription_views(*blk, known@),
        final(events).primarypool_factory_pool_createds@ == old(events).primarypool_factory_pool_createds@,
{
    let mut found = subscription_records(blk, known);
    let ghost before = events.primary_pool_subscriptions@;
    let ghost added = found@;
    events.primary_pool_subscriptions.append(&mut found);
    assert(views(events.primary_pool_subscriptions@) =~= views(before) + views(added));
}

/// The store writes of the block: for each pool the factory creates, in
/// log order, its address as hexadecimal text set to 1 at the log's
/// ordinal. Only pools of this factory are marked.
pub fn store_primary_pool(blk: &Block) -> (r: Vec<SetInt64>)
    ensures
        views(r@) == created_marks(*blk, primarypool_factory_address()),
{
    let factory = primarypool_factory_tracked_contract();
    created_pool_marks(blk, &factory)
}

/// The store appends of the block: for each `Subscription` event of a known pool,
/// in log order, the record's encoding as hexadecimal text under the pool's
/// key, at the log's ordinal.
pub fn store_primary_pool_subscriptions_per_pool(blk: &Block, known: &Vec<bool>) -> (r: Vec<AppendString>)
    requires
        known@.len() == blk.logs@.len(),
    ensures
        views(r@) == subscription_appends(*blk, known@),
{
    subscription_append_ops(blk, known)
}

/// The `Subscription` events of known pools grouped by pool: one group per pool
/// address (as lowercase hexadecimal text), holding its records in log
/// order. The order of the groups is not specified.
pub fn map_subscriptions_per_pool(blk: &Block, known: &Vec<bool>) -> (r: Vec<Group<SubscriptionRecord>>)
    requires
        known@.len() == blk.logs@.len(),
    ensures
        is_grouping(keyed_subscriptions(*blk, known@), groups_view(r@)),
{
    subscriptions_by_pool(blk, known)
}

/// All events of the block: the pools the factory creates, then the
/// `Subscription` events of known pools.
pub fn map_events(blk: &Block, known: &Vec<bool>) -> (r: Events)
    requires
        known@.len() == blk.logs@.len(),
    ensures
        views(r.primarypool_factory_pool_createds@) == created_views(*blk, primarypool_factory_address()),
        views(r.primary_pool_subscriptions@) == subscription_views(*blk, known@),
{
    let mut events = Events { primarypool_factory_pool_createds: Vec::new(), primary_pool_subscriptions: Vec::new() };
    assert(views(events.primarypool_factory_pool_createds@) =~= Seq::empty());
    assert(views(events.primary_pool_subscriptions@) =~= Seq::empty());
    map_primarypool_factory_events(blk, &mut events);
    map_primary_pool_events(blk, known, &mut events);
    assert(views(events.primarypool_factory_pool_createds@) =~= created_views(*blk, primarypool_factory_address()));
    assert(views(events.primary_pool_subscriptions@) =~= subscription_views(*blk, known@));
    events
}

} // verus!
