//! Properties that tie each output of the modules to the event parameters of
//! the log it comes from, by the parameters' positions in the event data,
//! and that tie each key-value value back to the value it was made from.
use crate::abi::{
    address_at, is_pool_created, is_subscription, is_trade_report, log_matches,
    trade_report_topic, word_at,
};
use crate::block::{
    last_index, lemma_last_index_is_last, lemma_select_map_index, select_map, Block, Log,
};
use crate::hexstr::{hex_lower, prefixed_hex_lower};
use crate::pools::{Delta, DeltaOperation};
use crate::primary_pool::{
    block_lines, empty_subscription, factory_contract, known_subscription_call_at,
    last_subscription, lemma_subscription_value_proto_injective, pool_json_at,
    subscription_json_at, subscription_value_proto, JsonOutputView, Subscription,
    SubscriptionValue,
};
use crate::records::{PoolCreatedView, SubscriptionView, TradeReportView};
use crate::secondary_pool::{
    empty_trade, known_trade_call_at, last_trade, lemma_trade_value_proto_injective,
    trade_value_proto, Trade, TradeValue,
};
use crate::tracker::{
    created_at, created_pool_at, created_view_at, created_views, known_subscription_at, known_trade_at, pool_marks_spec, subscription_view_at,
    subscription_views, trade_view_at, trade_views,
};
use crate::uint::{be_value, decimal};
use vstd::prelude::*;

verus! {

/// `x` is the record of the `PoolCreated` log `log` of `factory` in `blk`:
/// the transaction hash as hexadecimal text, the log's index, the block's
/// number and time, and the created pool (word 0).
pub open spec fn pool_record_of_log(x: PoolCreatedView, blk: Block, factory: Seq<u8>, log: Log) -> bool {
    &&& log.address@ == factory
    &&& is_pool_created(log)
    &&& x.evt_tx_hash == hex_lower(log.tx_hash@)
    &&& x.evt_index == log.block_index
    &&& x.evt_block_time == blk.timestamp
    &&& x.evt_block_number == blk.number
    &&& x.pool == address_at(log.data@, 0)
}

/// `x` is the record of some `PoolCreated` log of `factory` in `blk`.
pub open spec fn from_pool_created_log(blk: Block, factory: Seq<u8>, x: PoolCreatedView) -> bool {
    exists|i: int| 0 <= i < blk.logs@.len() && #[trigger] pool_record_of_log(x, blk, factory, blk.logs@[i])
}

/// Every pool-creation record of a factory module comes from a
/// `PoolCreated` log emitted by that factory and carries its parameter.
pub proof fn law_pool_created_records_carry_event_words(blk: Block, factory: Seq<u8>)
    ensures
        forall|j: int|
            0 <= j < created_views(blk, factory).len() ==> from_pool_created_log(
                blk,
                factory,
                #[trigger] created_views(blk, factory)[j],
            ),
{
    assert forall|j: int| 0 <= j < created_views(blk, factory).len() implies from_pool_created_log(
        blk,
        factory,
        #[trigger] created_views(blk, factory)[j],
    ) by {
        lemma_select_map_index(blk.logs@.len(), created_at(blk, factory), created_view_at(blk), j);
        let i = choose|i: int|
            0 <= i < blk.logs@.len() && #[trigger] created_at(blk, factory)(i) && created_views(
                blk,
                factory,
            )[j] == created_view_at(blk)(i);
        assert(pool_record_of_log(created_views(blk, factory)[j], blk, factory, blk.logs@[i]));
    }
}

/// `p` is the pool created by some `PoolCreated` log of `factory` in `blk`.
pub open spec fn created_by_log(blk: Block, factory: Seq<u8>, p: Seq<u8>) -> bool {
    exists|i: int|
        0 <= i < blk.logs@.len() && blk.logs@[i].address@ == factory && is_pool_created(blk.logs@[i])
            && p == #[trigger] address_at(blk.logs@[i].data@, 0)
}

/// Every pool that `map_pools` reports is the `pool` parameter (word 0) of a
/// `PoolCreated` log emitted by the factory.
pub proof fn law_mapped_pools_are_created_by_factory(blk: Block, factory: Seq<u8>)
    ensures
        forall|j: int|
            0 <= j < select_map(blk.logs@.len(), created_at(blk, factory), created_pool_at(blk)).len()
                ==> created_by_log(
                blk,
                factory,
                #[trigger] select_map(blk.logs@.len(), created_at(blk, factory), created_pool_at(blk))[j],
            ),
{
    let sel = select_map(blk.logs@.len(), created_at(blk, factory), created_pool_at(blk));
    assert forall|j: int| 0 <= j < sel.len() implies created_by_log(blk, factory, #[trigger] sel[j]) by {
        lemma_select_map_index(blk.logs@.len(), created_at(blk, factory), created_pool_at(blk), j);
        let i = choose|i: int|
            0 <= i < blk.logs@.len() && #[trigger] created_at(blk, factory)(i) && sel[j]
                == created_pool_at(blk)(i);
        assert(sel[j] == address_at(blk.logs@[i].data@, 0));
    }
}

/// `x` is the subscription record of `log` in `blk`: the transaction hash
/// and the emitter as hexadecimal text, the log's index, the block's number
/// and time, and the event's parameters, `assetIn` (word 0), `assetOut`
/// (word 1), `subscription` (word 2, decimal), `investor` (word 3), `price`
/// (word 4, decimal) and `executionDate` (word 5, decimal).
pub open spec fn subscription_record_of_log(x: SubscriptionView, blk: Block, log: Log) -> bool {
    &&& x.evt_tx_hash == hex_lower(log.tx_hash@)
    &&& x.evt_index == log.block_index
    &&& x.evt_block_time == blk.timestamp
    &&& x.evt_block_number == blk.number
    &&& x.evt_address == hex_lower(log.address@)
    &&& x.asset_in == address_at(log.data@, 0)
    &&& x.asset_out == address_at(log.data@, 1)
    &&& x.subscription == decimal(be_value(word_at(log.data@, 2)))
    &&& x.investor == address_at(log.data@, 3)
    &&& x.price == decimal(be_value(word_at(log.data@, 4)))
    &&& x.execution_date == decimal(be_value(word_at(log.data@, 5)))
}

/// `x` is the subscription record of a `Subscription` log of a known pool.
pub open spec fn from_known_subscription_log(blk: Block, known: Seq<bool>, x: SubscriptionView) -> bool {
    exists|i: int|
        0 <= i < blk.logs@.len() && known[i] && is_subscription(blk.logs@[i])
            && #[trigger] subscription_record_of_log(x, blk, blk.logs@[i])
}

/// Every subscription record that a factory module reports carries, field
/// by field, the parameters of the `Subscription` log of a known pool that
/// it comes from.
pub proof fn law_subscription_records_carry_event_words(blk: Block, known: Seq<bool>)
    ensures
        forall|j: int|
            0 <= j < subscription_views(blk, known).len() ==> from_known_subscription_log(
                blk,
                known,
                #[trigger] subscription_views(blk, known)[j],
            ),
{
    assert forall|j: int| 0 <= j < subscription_views(blk, known).len() implies from_known_subscription_log(
        blk,
        known,
        #[trigger] subscription_views(blk, known)[j],
    ) by {
        lemma_select_map_index(
            blk.logs@.len(),
            known_subscription_at(blk, known),
            subscription_view_at(blk),
            j,
        );
        let i = choose|i: int|
            0 <= i < blk.logs@.len() && #[trigger] known_subscription_at(blk, known)(i)
                && subscription_views(blk, known)[j] == subscription_view_at(blk)(i);
        assert(subscription_record_of_log(subscription_views(blk, known)[j], blk, blk.logs@[i]));
    }
}

/// `x` is the trade record of `log` in `blk`: the transaction hash and the
/// emitter as hexadecimal text, the log's index, the block's number and
/// time, and the event's parameters, `security` (word 0), `orderRef`
/// (word 1), `party` (word 2), `counterparty` (word 3), `orderType`
/// (word 4), `price` (word 5, decimal), `currency` (word 6), `amount`
/// (word 7, decimal) and `executionDate` (word 8, decimal).
pub open spec fn trade_record_of_log(x: TradeReportView, blk: Block, log: Log) -> bool {
    &&& x.evt_tx_hash == hex_lower(log.tx_hash@)
    &&& x.evt_index == log.block_index
    &&& x.evt_block_time == blk.timestamp
    &&& x.evt_block_number == blk.number
    &&& x.evt_address == hex_lower(log.address@)
    &&& x.security == address_at(log.data@, 0)
    &&& x.order_ref == word_at(log.data@, 1)
    &&& x.party == address_at(log.data@, 2)
    &&& x.counterparty == address_at(log.data@, 3)
    &&& x.order_type == word_at(log.data@, 4)
    &&& x.price == decimal(be_value(word_at(log.data@, 5)))
    &&& x.currency == address_at(log.data@, 6)
    &&& x.amount == decimal(be_value(word_at(log.data@, 7)))
    &&& x.execution_date == decimal(be_value(word_at(log.data@, 8)))
}

/// `x` is the trade record of a trade report log (signature hash `topic`) of
/// a known pool.
pub open spec fn from_known_trade_log(
    blk: Block,
    known: Seq<bool>,
    topic: Seq<u8>,
    x: TradeReportView,
) -> bool {
    exists|i: int|
        0 <= i < blk.logs@.len() && known[i] && is_trade_report(blk.logs@[i], topic)
            && #[trigger] trade_record_of_log(x, blk, blk.logs@[i])
}

/// Every trade record that a trade-reporting factory module reports carries,
/// field by field, the parameters of the trade report log of a known pool
/// that it comes from.
pub proof fn law_trade_records_carry_event_words(blk: Block, known: Seq<bool>, topic: Seq<u8>)
    ensures
        forall|j: int|
            0 <= j < trade_views(blk, known, topic).len() ==> from_known_trade_log(
                blk,
                known,
                topic,
                #[trigger] trade_views(blk, known, topic)[j],
            ),
{
    assert forall|j: int| 0 <= j < trade_views(blk, known, topic).len() implies from_known_trade_log(
        blk,
        known,
        topic,
        #[trigger] trade_views(blk, known, topic)[j],
    ) by {
        lemma_select_map_index(blk.logs@.len(), known_trade_at(blk, known, topic), trade_view_at(blk), j);
        let i = choose|i: int|
            0 <= i < blk.logs@.len() && #[trigger] known_trade_at(blk, known, topic)(i)
                && trade_views(blk, known, topic)[j] == trade_view_at(blk)(i);
        assert(trade_record_of_log(trade_views(blk, known, topic)[j], blk, blk.logs@[i]));
    }
}

/// `line` announces the pool created by the primary factory's `PoolCreated`
/// log `log`: the pool (word 0) as `0x`-prefixed hexadecimal text and no
/// subscription field.
pub open spec fn pool_line_of_log(line: JsonOutputView, log: Log) -> bool {
    &&& log.address@ == factory_contract()
    &&& is_pool_created(log)
    &&& line.event_type == "PoolCreated"@
    &&& line.pool == Some(prefixed_hex_lower(address_at(log.data@, 0)))
    &&& line.asset_in is None
    &&& line.asset_out is None
    &&& line.subscription is None
    &&& line.investor is None
    &&& line.price is None
    &&& line.execution_date is None
}

/// `line` reports the `Subscription` log `log`: the pool and the addresses
/// `assetIn` (word 0), `assetOut` (word 1) and `investor` (word 3) as
/// `0x`-prefixed hexadecimal text, the amounts `subscription` (word 2),
/// `price` (word 4) and `executionDate` (word 5) as decimal text.
pub open spec fn subscription_line_of_log(line: JsonOutputView, log: Log) -> bool {
    &&& is_subscription(log)
    &&& line.event_type == "Subscription"@
    &&& line.pool == Some(prefixed_hex_lower(log.address@))
    &&& line.asset_in == Some(prefixed_hex_lower(address_at(log.data@, 0)))
    &&& line.asset_out == Some(prefixed_hex_lower(address_at(log.data@, 1)))
    &&& line.subscription == Some(decimal(be_value(word_at(log.data@, 2))))
    &&& line.investor == Some(prefixed_hex_lower(address_at(log.data@, 3)))
    &&& line.price == Some(decimal(be_value(word_at(log.data@, 4))))
    &&& line.execution_date == Some(decimal(be_value(word_at(log.data@, 5))))
}

/// `line` comes from a receipt log of the primary factory that creates a
/// pool, or from a `Subscription` call log of a known pool.
pub open spec fn line_from_log(blk: Block, known: Seq<bool>, line: JsonOutputView) -> bool {
    ||| exists|i: int| 0 <= i < blk.logs@.len() && #[trigger] pool_line_of_log(line, blk.logs@[i])
    ||| exists|i: int|
        0 <= i < blk.call_logs@.len() && known[i] && #[trigger] subscription_line_of_log(
            line,
            blk.call_logs@[i],
        )
}

/// Every line of the JSON-lines output carries the block's number and its
/// time in seconds, and reports either a pool that the primary factory
/// creates or a subscription to a known pool, with the event's parameters
/// in their fields.
pub proof fn law_json_lines_carry_block_and_event_words(blk: Block, known: Seq<bool>)
    ensures
        forall|j: int|
            0 <= j < block_lines(blk, known).len() ==> {
                &&& (#[trigger] block_lines(blk, known)[j]).block_number == Some(blk.number)
                &&& block_lines(blk, known)[j].timestamp == Some(blk.timestamp.seconds as u64)
                &&& line_from_log(blk, known, block_lines(blk, known)[j])
            },
{
    let keep_p = created_at(blk, factory_contract());
    let pl = select_map(blk.logs@.len(), keep_p, pool_json_at(blk));
    let keep_s = known_subscription_call_at(blk, known);
    let sl = select_map(blk.call_logs@.len(), keep_s, subscription_json_at(blk));
    let lines = block_lines(blk, known);
    assert(lines == pl + sl);
    assert forall|j: int| 0 <= j < lines.len() implies {
        &&& (#[trigger] block_lines(blk, known)[j]).block_number == Some(blk.number)
        &&& block_lines(blk, known)[j].timestamp == Some(blk.timestamp.seconds as u64)
        &&& line_from_log(blk, known, block_lines(blk, known)[j])
    } by {
        if j < pl.len() {
            lemma_select_map_index(blk.logs@.len(), keep_p, pool_json_at(blk), j);
            let i = choose|i: int|
                0 <= i < blk.logs@.len() && #[trigger] keep_p(i) && pl[j] == pool_json_at(blk)(i);
            assert(lines[j] == pl[j]);
            assert(pool_line_of_log(lines[j], blk.logs@[i]));
        } else {
            let u = j - pl.len();
            lemma_select_map_index(blk.call_logs@.len(), keep_s, subscription_json_at(blk), u);
            let i = choose|i: int|
                0 <= i < blk.call_logs@.len() && #[trigger] keep_s(i) && sl[u]
                    == subscription_json_at(blk)(i);
            assert(lines[j] == sl[u]);
            assert(subscription_line_of_log(lines[j], blk.call_logs@[i]));
        }
    }
}

/// The write `m` of a pool store is that of log `i`: the pool that `factory`
/// creates there (word 0) or, for a log holding the pool event with
/// signature hash `topic`, its emitter; as hexadecimal text, set to 1 at the
/// log's ordinal.
pub open spec fn mark_of_log(
    blk: Block,
    factory: Seq<u8>,
    topic: Seq<u8>,
    words: nat,
    m: (u64, Seq<char>, i64),
    i: int,
) -> bool {
    let log = blk.logs@[i];
    ||| log.address@ == factory && is_pool_created(log) && m == (
        log.ordinal,
        hex_lower(address_at(log.data@, 0)),
        1i64,
    )
    ||| log_matches(log, topic, words) && m == (log.ordinal, hex_lower(log.address@), 1i64)
}

/// The write `m` is that of one of the first `n` logs of `blk`.
pub open spec fn mark_of_some_log(
    blk: Block,
    factory: Seq<u8>,
    topic: Seq<u8>,
    words: nat,
    n: nat,
    m: (u64, Seq<char>, i64),
) -> bool {
    exists|i: int| 0 <= i < n && #[trigger] mark_of_log(blk, factory, topic, words, m, i)
}

/// Every write of a tracking pool store (that of the margin factory module)
/// is the mark of a pool that `factory` itself creates in the block, or of
/// the emitter of a pool event: a pool created by another contract is never
/// marked.
pub proof fn law_pool_marks_come_from_factory_or_events(
    blk: Block,
    factory: Seq<u8>,
    topic: Seq<u8>,
    words: nat,
    n: nat,
)
    requires
        n <= blk.logs@.len(),
    ensures
        forall|k: int|
            0 <= k < pool_marks_spec(blk, factory, topic, words, n).len() ==> mark_of_some_log(
                blk,
                factory,
                topic,
                words,
                n,
                #[trigger] pool_marks_spec(blk, factory, topic, words, n)[k],
            ),
    decreases n,
{
    if n > 0 {
        let m = (n - 1) as nat;
        law_pool_marks_come_from_factory_or_events(blk, factory, topic, words, m);
        let prev = pool_marks_spec(blk, factory, topic, words, m);
        let cur = pool_marks_spec(blk, factory, topic, words, n);
        let log = blk.logs@[m as int];
        let created = if log.address@ == factory && is_pool_created(log) {
            prev.push((log.ordinal, hex_lower(address_at(log.data@, 0)), 1i64))
        } else {
            prev
        };
        assert(cur == if log_matches(log, topic, words) {
            created.push((log.ordinal, hex_lower(log.address@), 1i64))
        } else {
            created
        });
        assert forall|k: int| 0 <= k < cur.len() implies mark_of_some_log(
            blk,
            factory,
            topic,
            words,
            n,
            #[trigger] cur[k],
        ) by {
            if k < prev.len() {
                assert(cur[k] == prev[k]);
                assert(mark_of_some_log(blk, factory, topic, words, m, prev[k]));
                let i = choose|i: int|
                    0 <= i < m && #[trigger] mark_of_log(blk, factory, topic, words, prev[k], i);
                assert(mark_of_log(blk, factory, topic, words, cur[k], i));
            } else {
                assert(mark_of_log(blk, factory, topic, words, cur[k], m as int));
            }
        }
    }
}

/// The subscription `s` holds the parameters of the `Subscription` log
/// `log`: `assetIn` (word 0), `assetOut` (word 1), `subscription` (word 2),
/// `investor` (word 3), `price` (word 4) and `executionDate` (word 5).
pub open spec fn subscription_holds_log(s: SubscriptionValue, log: Log) -> bool {
    &&& s.asset_in_address == address_at(log.data@, 0)
    &&& s.asset_out_address == address_at(log.data@, 1)
    &&& s.subscription_amount == be_value(word_at(log.data@, 2))
    &&& s.investor_address == address_at(log.data@, 3)
    &&& s.price == be_value(word_at(log.data@, 4))
    &&& s.execution_date == be_value(word_at(log.data@, 5))
}

/// Call log `i` is a `Subscription` event of a known pool.
pub open spec fn is_known_subscription_call(blk: Block, known: Seq<bool>, i: int) -> bool {
    known[i] && is_subscription(blk.call_logs@[i])
}

/// The subscription that `map_subscriptions` reports holds the parameters
/// of a `Subscription` call log of a known pool after which no call log is
/// one; when there is no such log it is the empty subscription.
pub proof fn law_reported_subscription_is_the_last(blk: Block, known: Seq<bool>)
    requires
        known.len() == blk.call_logs@.len(),
        forall|i: int|
            0 <= i < blk.call_logs@.len() && known[i] && is_subscription(
                #[trigger] blk.call_logs@[i],
            ) ==> crate::primary_pool::subscription_amounts_fit(blk.call_logs@[i]),
    ensures
        ({
            let n = blk.call_logs@.len() as int;
            let s = last_subscription(blk, known);
            ||| exists|i: int|
                0 <= i < n && #[trigger] is_known_subscription_call(blk, known, i) && (forall|k: int|
                    i < k < n ==> !is_known_subscription_call(blk, known, k))
                    && subscription_holds_log(s, blk.call_logs@[i])
            ||| (forall|k: int| 0 <= k < n ==> !#[trigger] is_known_subscription_call(blk, known, k))
                && s == empty_subscription()
        }),
{
    let n = blk.call_logs@.len();
    let keep = known_subscription_call_at(blk, known);
    lemma_last_index_is_last(n, keep);
    match last_index(n, keep) {
        Some(i) => {
            assert(keep(i));
            assert(is_known_subscription_call(blk, known, i));
            assert forall|k: int| i < k < n implies !is_known_subscription_call(blk, known, k) by {
                assert(!keep(k));
            }
            assert(crate::primary_pool::subscription_amounts_fit(blk.call_logs@[i]));
            assert(subscription_holds_log(last_subscription(blk, known), blk.call_logs@[i]));
        },
        None => {
            assert forall|k: int| 0 <= k < n implies !#[trigger] is_known_subscription_call(blk, known, k) by {
                assert(!keep(k));
            }
        },
    }
}

/// The trade `t` holds the parameters of the `TradeReport` log `log`:
/// `security` (word 0), `orderRef` (word 1), `party` (word 2),
/// `counterparty` (word 3), `orderType` (word 4), `price` (word 5),
/// `currency` (word 6), `amount` (word 7) and `executionDate` (word 8).
pub open spec fn trade_holds_log(t: TradeValue, log: Log) -> bool {
    &&& t.security_address == address_at(log.data@, 0)
    &&& t.order_ref == word_at(log.data@, 1)
    &&& t.party == address_at(log.data@, 2)
    &&& t.counterparty == address_at(log.data@, 3)
    &&& t.order_type == word_at(log.data@, 4)
    &&& t.price == be_value(word_at(log.data@, 5))
    &&& t.currency_address == address_at(log.data@, 6)
    &&& t.traded_amount == be_value(word_at(log.data@, 7))
    &&& t.execution_date == be_value(word_at(log.data@, 8))
}

/// Call log `i` is a `TradeReport` event of a known pool.
pub open spec fn is_known_trade_call(blk: Block, known: Seq<bool>, i: int) -> bool {
    known[i] && is_trade_report(blk.call_logs@[i], trade_report_topic())
}

/// The trade that `map_trades` reports holds the parameters of a
/// `TradeReport` call log of a known pool after which no call log is one;
/// when there is no such log it is the empty trade.
pub proof fn law_reported_trade_is_the_last(blk: Block, known: Seq<bool>)
    requires
        known.len() == blk.call_logs@.len(),
        forall|i: int|
            0 <= i < blk.call_logs@.len() && known[i] && is_trade_report(
                #[trigger] blk.call_logs@[i],
                trade_report_topic(),
            ) ==> crate::secondary_pool::trade_amounts_fit(blk.call_logs@[i]),
    ensures
        ({
            let n = blk.call_logs@.len() as int;
            let t = last_trade(blk, known);
            ||| exists|i: int|
                0 <= i < n && #[trigger] is_known_trade_call(blk, known, i) && (forall|k: int|
                    i < k < n ==> !is_known_trade_call(blk, known, k)) && trade_holds_log(
                    t,
                    blk.call_logs@[i],
                )
            ||| (forall|k: int| 0 <= k < n ==> !#[trigger] is_known_trade_call(blk, known, k)) && t
                == empty_trade()
        }),
{
    let n = blk.call_logs@.len();
    let keep = known_trade_call_at(blk, known);
    lemma_last_index_is_last(n, keep);
    match last_index(n, keep) {
        Some(i) => {
            assert(keep(i));
            assert(is_known_trade_call(blk, known, i));
            assert forall|k: int| i < k < n implies !is_known_trade_call(blk, known, k) by {
                assert(!keep(k));
            }
            assert(crate::secondary_pool::trade_amounts_fit(blk.call_logs@[i]));
            assert(trade_holds_log(last_trade(blk, known), blk.call_logs@[i]));
        },
        None => {
            assert forall|k: int| 0 <= k < n implies !#[trigger] is_known_trade_call(blk, known, k) by {
                assert(!keep(k));
            }
        },
    }
}

/// The subscription whose encoding is `bytes`, if any. At most one
/// subscription has a given encoding
/// ([`lemma_subscription_value_proto_injective`]).
pub open spec fn decoded_subscription_value(bytes: Seq<u8>) -> Option<SubscriptionValue> {
    if exists|v: SubscriptionValue| subscription_value_proto(v) == bytes {
        Some(choose|v: SubscriptionValue| subscription_value_proto(v) == bytes)
    } else {
        None
    }
}

/// The key-value operations of the subscription store's deltas: a created
/// or updated key is set, at the delta's ordinal, to a value that decodes
/// back to the delta's new value; a deleted key is deleted, with no value.
pub proof fn law_subscription_kv_values_decode(deltas: Seq<Delta<Subscription>>)
    ensures
        forall|i: int|
            #![trigger deltas[i]]
            0 <= i < deltas.len() ==> {
                let op = deltas.map_values(
                    |d: Delta<Subscription>| crate::primary_pool::kv_operation_of(d),
                )[i];
                let d = deltas[i];
                &&& op.0 == d.key@
                &&& op.2 == d.ordinal
                &&& d.operation == DeltaOperation::Delete ==> op.3 == 2 && op.1.len() == 0
                &&& d.operation != DeltaOperation::Delete ==> op.3 == 1
                    && decoded_subscription_value(op.1) == Some(d.new_value@)
            },
{
    assert forall|i: int| #![trigger deltas[i]] 0 <= i < deltas.len() implies {
        let op = deltas.map_values(
            |d: Delta<Subscription>| crate::primary_pool::kv_operation_of(d),
        )[i];
        let d = deltas[i];
        &&& op.0 == d.key@
        &&& op.2 == d.ordinal
        &&& d.operation == DeltaOperation::Delete ==> op.3 == 2 && op.1.len() == 0
        &&& d.operation != DeltaOperation::Delete ==> op.3 == 1
            && decoded_subscription_value(op.1) == Some(d.new_value@)
    } by {
        let d = deltas[i];
        if d.operation != DeltaOperation::Delete {
            let bytes = subscription_value_proto(d.new_value@);
            assert(exists|v: SubscriptionValue| subscription_value_proto(v) == bytes);
            let v = choose|v: SubscriptionValue| subscription_value_proto(v) == bytes;
            lemma_subscription_value_proto_injective(v, d.new_value@);
        }
    }
}

/// The trade whose encoding is `bytes`, if any. At most one trade has a
/// given encoding ([`lemma_trade_value_proto_injective`]).
pub open spec fn decoded_trade_value(bytes: Seq<u8>) -> Option<TradeValue> {
    if exists|v: TradeValue| trade_value_proto(v) == bytes {
        Some(choose|v: TradeValue| trade_value_proto(v) == bytes)
    } else {
        None
    }
}

/// The key-value operations of the trade store's deltas: a created or
/// updated key is set, at the delta's ordinal, to a value that decodes back
/// to the delta's new value; a deleted key is deleted, with no value.
pub proof fn law_trade_kv_values_decode(deltas: Seq<Delta<Trade>>)
    ensures
        forall|i: int|
            #![trigger deltas[i]]
            0 <= i < deltas.len() ==> {
                let op = deltas.map_values(
                    |d: Delta<Trade>| crate::secondary_pool::kv_operation_of(d),
                )[i];
                let d = deltas[i];
                &&& op.0 == d.key@
                &&& op.2 == d.ordinal
                &&& d.operation == DeltaOperation::Delete ==> op.3 == 2 && op.1.len() == 0
                &&& d.operation != DeltaOperation::Delete ==> op.3 == 1
                    && decoded_trade_value(op.1) == Some(d.new_value@)
            },
{
    assert forall|i: int| #![trigger deltas[i]] 0 <= i < deltas.len() implies {
        let op = deltas.map_values(
            |d: Delta<Trade>| crate::secondary_pool::kv_operation_of(d),
        )[i];
        let d = deltas[i];
        &&& op.0 == d.key@
        &&& op.2 == d.ordinal
        &&& d.operation == DeltaOperation::Delete ==> op.3 == 2 && op.1.len() == 0
        &&& d.operation != DeltaOperation::Delete ==> op.3 == 1
            && decoded_trade_value(op.1) == Some(d.new_value@)
    } by {
        let d = deltas[i];
        if d.operation != DeltaOperation::Delete {
            let bytes = trade_value_proto(d.new_value@);
            assert(exists|v: TradeValue| trade_value_proto(v) == bytes);
            let v = choose|v: TradeValue| trade_value_proto(v) == bytes;
            lemma_trade_value_proto_injective(v, d.new_value@);
        }
    }
}

} // verus!
