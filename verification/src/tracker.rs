//! The logic shared by the pool-factory modules: finding the pools a factory
//! creates, the events those pools emit, and the store writes and per-pool
//! groupings derived from them.
//!
//! Whether a log's emitter is a known pool is read from a store by the
//! caller; it is handed in as `known`, one flag per log of `blk.logs`.
use crate::abi::{
    address_at, decode_pool_created, decode_subscription, decode_trade_report, is_pool_created,
    is_subscription, is_trade_report, log_matches, matches_event,
};
use crate::block::{select_map, Block, Log};
use crate::group::{add_to_groups, groups_view, is_grouping, Group};
use crate::hexstr::{hex_encode, hex_lower, pool_key};
use crate::pools::Pool;
use crate::records::{
    encode_subscription, encode_trade_report, pool_created_record, pool_created_view,
    subscription_proto, subscription_record, subscription_view, trade_report_proto,
    trade_report_record, trade_report_view, PoolCreatedRecord, PoolCreatedView,
    SubscriptionRecord, SubscriptionView, TradeReportRecord, TradeReportView,
};
use vstd::prelude::*;

verus! {

/// A write of an `int64` value under a key, at an ordinal.
#[derive(Debug)]
pub struct SetInt64 {
    pub ordinal: u64,
    pub key: String,
    pub value: i64,
}

impl View for SetInt64 {
    type V = (u64, Seq<char>, i64);

    open spec fn view(&self) -> (u64, Seq<char>, i64) {
        (self.ordinal, self.key@, self.value)
    }
}

/// An append of a string value under a key, at an ordinal.
#[derive(Debug)]
pub struct AppendString {
    pub ordinal: u64,
    pub key: String,
    pub value: String,
}

impl View for AppendString {
    type V = (u64, Seq<char>, Seq<char>);

    open spec fn view(&self) -> (u64, Seq<char>, Seq<char>) {
        (self.ordinal, self.key@, self.value@)
    }
}

/// Log `i` of the block is a `PoolCreated` event emitted by `factory`.
pub open spec fn created_at(blk: Block, factory: Seq<u8>) -> spec_fn(int) -> bool {
    |i: int| blk.logs@[i].address@ == factory && is_pool_created(blk.logs@[i])
}

/// The record of the pool creation in log `i`.
pub open spec fn created_view_at(blk: Block) -> spec_fn(int) -> PoolCreatedView {
    |i: int| pool_created_view(blk, blk.logs@[i])
}

/// The records of the pools that `factory` creates in the block, in log order.
pub open spec fn created_views(blk: Block, factory: Seq<u8>) -> Seq<PoolCreatedView> {
    select_map(blk.logs@.len(), created_at(blk, factory), created_view_at(blk))
}

/// The address of the pool created in log `i`.
pub open spec fn created_pool_at(blk: Block) -> spec_fn(int) -> Seq<u8> {
    |i: int| address_at(blk.logs@[i].data@, 0)
}

/// Log `i` is a trade report (signature hash `topic`) of a known pool.
pub open spec fn known_trade_at(blk: Block, known: Seq<bool>, topic: Seq<u8>) -> spec_fn(
    int,
) -> bool {
    |i: int| known[i] && is_trade_report(blk.logs@[i], topic)
}

/// The record of the trade report in log `i`.
pub open spec fn trade_view_at(blk: Block) -> spec_fn(int) -> TradeReportView {
    |i: int| trade_report_view(blk, blk.logs@[i])
}

/// The records of the trade reports of known pools in the block, in log order.
pub open spec fn trade_views(blk: Block, known: Seq<bool>, topic: Seq<u8>) -> Seq<
    TradeReportView,
> {
    select_map(blk.logs@.len(), known_trade_at(blk, known, topic), trade_view_at(blk))
}

/// Log `i` is a `Subscription` event of a known pool.
pub open spec fn known_subscription_at(blk: Block, known: Seq<bool>) -> spec_fn(int) -> bool {
    |i: int| known[i] && is_subscription(blk.logs@[i])
}

/// The record of the subscription in log `i`.
pub open spec fn subscription_view_at(blk: Block) -> spec_fn(int) -> SubscriptionView {
    |i: int| subscription_view(blk, blk.logs@[i])
}

/// The records of the subscriptions to known pools in the block, in log order.
pub open spec fn subscription_views(blk: Block, known: Seq<bool>) -> Seq<SubscriptionView> {
    select_map(blk.logs@.len(), known_subscription_at(blk, known), subscription_view_at(blk))
}

/// The write that marks the pool created in log `i`: its address as
/// lowercase hexadecimal text, set to 1 at the log's ordinal.
pub open spec fn created_mark_at(blk: Block) -> spec_fn(int) -> (u64, Seq<char>, i64) {
    |i: int| (blk.logs@[i].ordinal, hex_lower(address_at(blk.logs@[i].data@, 0)), 1i64)
}

/// The writes that track only the pools that `factory` creates in the
/// block, one per created pool, in log order.
pub open spec fn created_marks(blk: Block, factory: Seq<u8>) -> Seq<(u64, Seq<char>, i64)> {
    select_map(blk.logs@.len(), created_at(blk, factory), created_mark_at(blk))
}

/// The writes that track pools: for each log, in order, the address of a
/// pool that `factory` creates there, then the emitter of a pool event (an
/// event with signature hash `topic` and `words` parameters); each written
/// with value 1 at the log's ordinal.
pub open spec fn pool_marks_spec(
    blk: Block,
    factory: Seq<u8>,
    topic: Seq<u8>,
    words: nat,
    n: nat,
) -> Seq<(u64, Seq<char>, i64)>
    decreases n,
{
    if n == 0 {
        Seq::empty()
    } else {
        let log = blk.logs@[n - 1];
        let prev = pool_marks_spec(blk, factory, topic, words, (n - 1) as nat);
        let created = if log.address@ == factory && is_pool_created(log) {
            prev.push((log.ordinal, hex_lower(address_at(log.data@, 0)), 1i64))
        } else {
            prev
        };
        if log_matches(log, topic, words) {
            created.push((log.ordinal, hex_lower(log.address@), 1i64))
        } else {
            created
        }
    }
}

/// The append of the trade report in log `i`: under the pool's key, the
/// hexadecimal text of the record's encoding.
pub open spec fn trade_append_at(blk: Block) -> spec_fn(int) -> (u64, Seq<char>, Seq<char>) {
    |i: int|
        (
            blk.logs@[i].ordinal,
            hex_lower(blk.logs@[i].address@),
            hex_lower(trade_report_proto(trade_report_view(blk, blk.logs@[i]))),
        )
}

/// The appends of the trade reports of known pools, in log order.
pub open spec fn trade_appends(blk: Block, known: Seq<bool>, topic: Seq<u8>) -> Seq<
    (u64, Seq<char>, Seq<char>),
> {
    select_map(blk.logs@.len(), known_trade_at(blk, known, topic), trade_append_at(blk))
}

/// The append of the subscription in log `i`.
pub open spec fn subscription_append_at(blk: Block) -> spec_fn(int) -> (
    u64,
    Seq<char>,
    Seq<char>,
) {
    |i: int|
        (
            blk.logs@[i].ordinal,
            hex_lower(blk.logs@[i].address@),
            hex_lower(subscription_proto(subscription_view(blk, blk.logs@[i]))),
        )
}

/// The appends of the subscriptions to known pools, in log order.
pub open spec fn subscription_appends(blk: Block, known: Seq<bool>) -> Seq<
    (u64, Seq<char>, Seq<char>),
> {
    select_map(blk.logs@.len(), known_subscription_at(blk, known), subscription_append_at(blk))
}

/// The trade report in log `i`, keyed by its pool.
pub open spec fn keyed_trade_at(blk: Block) -> spec_fn(int) -> (Seq<char>, TradeReportView) {
    |i: int| (hex_lower(blk.logs@[i].address@), trade_report_view(blk, blk.logs@[i]))
}

/// The trade reports of known pools keyed by pool, in log order.
pub open spec fn keyed_trades(blk: Block, known: Seq<bool>, topic: Seq<u8>) -> Seq<
    (Seq<char>, TradeReportView),
> {
    select_map(blk.logs@.len(), known_trade_at(blk, known, topic), keyed_trade_at(blk))
}

/// The subscription in log `i`, keyed by its pool.
pub open spec fn keyed_subscription_at(blk: Block) -> spec_fn(int) -> (
    Seq<char>,
    SubscriptionView,
) {
    |i: int| (hex_lower(blk.logs@[i].address@), subscription_view(blk, blk.logs@[i]))
}

/// The subscriptions to known pools keyed by pool, in log order.
pub open spec fn keyed_subscriptions(blk: Block, known: Seq<bool>) -> Seq<
    (Seq<char>, SubscriptionView),
> {
    select_map(blk.logs@.len(), known_subscription_at(blk, known), keyed_subscription_at(blk))
}

/// The views of a list of records.
pub open spec fn views<T: View>(s: Seq<T>) -> Seq<T::V> {
    s.map_values(|x: T| x@)
}

proof fn lemma_views_push<T: View>(s: Seq<T>, x: T)
    ensures
        views(s.push(x)) == views(s).push(x@),
{
    assert(views(s.push(x)) =~= views(s).push(x@));
}

/// The records of the pools that `factory` creates in the block.
pub fn pool_created_records(blk: &Block, factory: &Vec<u8>) -> (r: Vec<PoolCreatedRecord>)
    ensures
        views(r@) == created_views(*blk, factory@),
{
    let mut out: Vec<PoolCreatedRecord> = Vec::new();
    let mut i: usize = 0;
    while i < blk.logs.len()
        invariant
            i <= blk.logs@.len(),
            views(out@) == select_map(i as nat, created_at(*blk, factory@), created_view_at(*blk)),
        decreases blk.logs@.len() - i,
    {
        let log = &blk.logs[i];
        if crate::abi::bytes_eq(log.address.as_slice(), factory.as_slice()) {
            if let Some(event) = decode_pool_created(log) {
                let rec = pool_created_record(blk, log, event);
                proof {
                    lemma_views_push(out@, rec);
                }
                out.push(rec);
            }
        }
        i = i + 1;
    }
    out
}

/// The pools that `factory` creates in the block, in log order.
pub fn created_pools(blk: &Block, factory: &Vec<u8>) -> (r: Vec<Pool>)
    ensures
        views(r@) == select_map(blk.logs@.len(), created_at(*blk, factory@), created_pool_at(*blk)),
{
    let mut out: Vec<Pool> = Vec::new();
    let mut i: usize = 0;
    while i < blk.logs.len()
        invariant
            i <= blk.logs@.len(),
            views(out@) == select_map(i as nat, created_at(*blk, factory@), created_pool_at(*blk)),
        decreases blk.logs@.len() - i,
    {
        let log = &blk.logs[i];
        if crate::abi::bytes_eq(log.address.as_slice(), factory.as_slice()) {
            if let Some(event) = decode_pool_created(log) {
                let pool = Pool { pool_address: event.pool };
                proof {
                    lemma_views_push(out@, pool);
                }
                out.push(pool);
            }
        }
        i = i + 1;
    }
    out
}

/// The records of the trade reports (signature hash `topic`) that known
/// pools emit in the block.
pub fn trade_report_records(blk: &Block, known: &Vec<bool>, topic: &Vec<u8>) -> (r: Vec<
    TradeReportRecord,
>)
    requires
        known@.len() == blk.logs@.len(),
    ensures
        views(r@) == trade_views(*blk, known@, topic@),
{
    let mut out: Vec<TradeReportRecord> = Vec::new();
    let mut i: usize = 0;
    while i < blk.logs.len()
        invariant
            i <= blk.logs@.len(),
            known@.len() == blk.logs@.len(),
            views(out@) == select_map(
                i as nat,
                known_trade_at(*blk, known@, topic@),
                trade_view_at(*blk),
            ),
        decreases blk.logs@.len() - i,
    {
        let log = &blk.logs[i];
        if known[i] {
            if let Some(event) = decode_trade_report(log, topic) {
                let rec = trade_report_record(blk, log, event);
                proof {
                    lemma_views_push(out@, rec);
                }
                out.push(rec);
            }
        }
        i = i + 1;
    }
    out
}

/// The records of the subscriptions that known pools emit in the block.
pub fn subscription_records(blk: &Block, known: &Vec<bool>) -> (r: Vec<SubscriptionRecord>)
    requires
        known@.len() == blk.logs@.len(),
    ensures
        views(r@) == subscription_views(*blk, known@),
{
    let mut out: Vec<SubscriptionRecord> = Vec::new();
    let mut i: usize = 0;
    while i < blk.logs.len()
        invariant
            i <= blk.logs@.len(),
            known@.len() == blk.logs@.len(),
            views(out@) == select_map(
                i as nat,
                known_subscription_at(*blk, known@),
                subscription_view_at(*blk),
            ),
        decreases blk.logs@.len() - i,
    {
        let log = &blk.logs[i];
        if known[i] {
            if let Some(event) = decode_subscription(log) {
                let rec = subscription_record(blk, log, event);
                proof {
                    lemma_views_push(out@, rec);
                }
                out.push(rec);
            }
        }
        i = i + 1;
    }
    out
}

/// The store writes that track pools (see [`pool_marks_spec`]).
pub fn pool_marks(blk: &Block, factory: &Vec<u8>, topic: &Vec<u8>, words: usize) -> (r: Vec<
    SetInt64,
>)
    requires
        words < 16,
    ensures
        views(r@) == pool_marks_spec(*blk, factory@, topic@, words as nat, blk.logs@.len()),
{
    let mut out: Vec<SetInt64> = Vec::new();
    let mut i: usize = 0;
    while i < blk.logs.len()
        invariant
            i <= blk.logs@.len(),
            words < 16,
            views(out@) == pool_marks_spec(*blk, factory@, topic@, words as nat, i as nat),
        decreases blk.logs@.len() - i,
    {
        let log = &blk.logs[i];
        if crate::abi::bytes_eq(log.address.as_slice(), factory.as_slice()) {
            if let Some(event) = decode_pool_created(log) {
                let op = SetInt64 { ordinal: log.ordinal, key: pool_key(event.pool.as_slice()), value: 1 };
                proof {
                    lemma_views_push(out@, op);
                }
                out.push(op);
            }
        }
        if matches_event(log, topic, words) {
            let op = SetInt64 { ordinal: log.ordinal, key: pool_key(log.address.as_slice()), value: 1 };
            proof {
                lemma_views_push(out@, op);
            }
            out.push(op);
        }
        i = i + 1;
    }
    out
}

/// The store writes that track the pools `factory` creates (see
/// [`created_marks`]).
pub fn created_pool_marks(blk: &Block, factory: &Vec<u8>) -> (r: Vec<SetInt64>)
    ensures
        views(r@) == created_marks(*blk, factory@),
{
    let mut out: Vec<SetInt64> = Vec::new();
    let mut i: usize = 0;
    while i < blk.logs.len()
        invariant
            i <= blk.logs@.len(),
            views(out@) == select_map(i as nat, created_at(*blk, factory@), created_mark_at(*blk)),
        decreases blk.logs@.len() - i,
    {
        let log = &blk.logs[i];
        if crate::abi::bytes_eq(log.address.as_slice(), factory.as_slice()) {
            if let Some(event) = decode_pool_created(log) {
                let op = SetInt64 { ordinal: log.ordinal, key: pool_key(event.pool.as_slice()), value: 1 };
                proof {
                    lemma_views_push(out@, op);
                }
                out.push(op);
            }
        }
        i = i + 1;
    }
    out
}

/// The appends of the trade reports of known pools: each record encoded,
/// as hexadecimal text, under its pool's key.
pub fn trade_report_append_ops(blk: &Block, known: &Vec<bool>, topic: &Vec<u8>) -> (r: Vec<
    AppendString,
>)
    requires
        known@.len() == blk.logs@.len(),
    ensures
        views(r@) == trade_appends(*blk, known@, topic@),
{
    let mut out: Vec<AppendString> = Vec::new();
    let mut i: usize = 0;
    while i < blk.logs.len()
        invariant
            i <= blk.logs@.len(),
            known@.len() == blk.logs@.len(),
            views(out@) == select_map(
                i as nat,
                known_trade_at(*blk, known@, topic@),
                trade_append_at(*blk),
            ),
        decreases blk.logs@.len() - i,
    {
        let log = &blk.logs[i];
        if known[i] {
            if let Some(event) = decode_trade_report(log, topic) {
                let rec = trade_report_record(blk, log, event);
                let bytes = encode_trade_report(&rec);
                let op = AppendString {
                    ordinal: log.ordinal,
                    key: pool_key(log.address.as_slice()),
                    value: hex_encode(bytes.as_slice()),
                };
                proof {
                    lemma_views_push(out@, op);
                }
                out.push(op);
            }
        }
        i = i + 1;
    }
    out
}

/// The appends of the subscriptions to known pools: each record encoded,
/// as hexadecimal text, under its pool's key.
pub fn subscription_append_ops(blk: &Block, known: &Vec<bool>) -> (r: Vec<AppendString>)
    requires
        known@.len() == blk.logs@.len(),
    ensures
        views(r@) == subscription_appends(*blk, known@),
{
    let mut out: Vec<AppendString> = Vec::new();
    let mut i: usize = 0;
    while i < blk.logs.len()
        invariant
            i <= blk.logs@.len(),
            known@.len() == blk.logs@.len(),
            views(out@) == select_map(
                i as nat,
                known_subscription_at(*blk, known@),
                subscription_append_at(*blk),
            ),
        decreases blk.logs@.len() - i,
    {
        let log = &blk.logs[i];
        if known[i] {
            if let Some(event) = decode_subscription(log) {
                let rec = subscription_record(blk, log, event);
                let bytes = encode_subscription(&rec);
                let op = AppendString {
                    ordinal: log.ordinal,
                    key: pool_key(log.address.as_slice()),
                    value: hex_encode(bytes.as_slice()),
                };
                proof {
                    lemma_views_push(out@, op);
                }
                out.push(op);
            }
        }
        i = i + 1;
    }
    out
}

/// The trade reports of known pools grouped by pool: one group per pool
/// key, each holding that pool's reports in log order.
pub fn trade_reports_by_pool(blk: &Block, known: &Vec<bool>, topic: &Vec<u8>) -> (r: Vec<
    Group<TradeReportRecord>,
>)
    requires
        known@.len() == blk.logs@.len(),
    ensures
        is_grouping(keyed_trades(*blk, known@, topic@), groups_view(r@)),
{
    let mut groups: Vec<Group<TradeReportRecord>> = Vec::new();
    let mut i: usize = 0;
    assert(groups_view(groups@) =~= Seq::empty());
    while i < blk.logs.len()
        invariant
            i <= blk.logs@.len(),
            known@.len() == blk.logs@.len(),
            is_grouping(
                select_map(i as nat, known_trade_at(*blk, known@, topic@), keyed_trade_at(*blk)),
                groups_view(groups@),
            ),
        decreases blk.logs@.len() - i,
    {
        let log = &blk.logs[i];
        if known[i] {
            if let Some(event) = decode_trade_report(log, topic) {
                let rec = trade_report_record(blk, log, event);
                let key = pool_key(log.address.as_slice());
                add_to_groups(
                    &mut groups,
                    key,
                    rec,
                    Ghost(
                        select_map(
                            i as nat,
                            known_trade_at(*blk, known@, topic@),
                            keyed_trade_at(*blk),
                        ),
                    ),
                );
            }
        }
        i = i + 1;
    }
    groups
}

/// The subscriptions to known pools grouped by pool: one group per pool
/// key, each holding that pool's subscriptions in log order.
pub fn subscriptions_by_pool(blk: &Block, known: &Vec<bool>) -> (r: Vec<
    Group<SubscriptionRecord>,
>)
    requires
        known@.len() == blk.logs@.len(),
    ensures
        is_grouping(keyed_subscriptions(*blk, known@), groups_view(r@)),
{
    let mut groups: Vec<Group<SubscriptionRecord>> = Vec::new();
    let mut i: usize = 0;
    assert(groups_view(groups@) =~= Seq::empty());
    while i < blk.logs.len()
        invariant
            i <= blk.logs@.len(),
            known@.len() == blk.logs@.len(),
            is_grouping(
                select_map(i as nat, known_subscription_at(*blk, known@), keyed_subscription_at(*blk)),
                groups_view(groups@),
            ),
        decreases blk.logs@.len() - i,
    {
        let log = &blk.logs[i];
        if known[i] {
            if let Some(event) = decode_subscription(log) {
                let rec = subscription_record(blk, log, event);
                let key = pool_key(log.address.as_slice());
                add_to_groups(
                    &mut groups,
                    key,
                    rec,
                    Ghost(
                        select_map(
                            i as nat,
                            known_subscription_at(*blk, known@),
                            keyed_subscription_at(*blk),
                        ),
                    ),
                );
            }
        }
        i = i + 1;
    }
    groups
}

} // verus!
