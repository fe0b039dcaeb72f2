//! Properties that relate the modules to one another.
use crate::abi::{address_at, is_subscription, is_trade_report, log_matches, trade_report_topic};
use crate::primary_factory::primarypool_factory_address;
use crate::secondary_factory::secondarypool_factory_address;
use crate::block::{
    last_index, lemma_last_index_valid, lemma_select_map_index, lemma_select_map_last, lemma_select_map_related,
    select_map, Block,
};
use crate::group::{is_grouping, lemma_values_with_key_select};
use crate::hexstr::{
    hex_lower, is_lower_hex_digit, lemma_hex_lower_digits, lemma_hex_lower_injective,
    lemma_hex_lower_len, prefixed_hex_lower,
};
use crate::pools::{pool_sets_spec, Pool, SetValue};
use crate::primary_pool::{
    block_lines, empty_subscription, factory_contract, known_subscription_call_at,
    last_subscription, pool_json_at, subscription_amounts_fit, subscription_json_at,
    subscription_of_log,
    JsonOutputView,
};
use crate::records::{
    lemma_subscription_proto_injective, lemma_trade_report_proto_injective,
    pool_created_view, subscription_proto, subscription_view, trade_report_proto, trade_report_view,
    PoolCreatedView, SubscriptionView, TradeReportView,
};
use crate::tracker::{
    created_at, created_mark_at, created_marks, created_pool_at, created_view_at, created_views, keyed_subscription_at,
    keyed_subscriptions, keyed_trade_at, keyed_trades, known_subscription_at, known_trade_at,
    pool_marks_spec, subscription_append_at, subscription_appends, subscription_view_at,
    subscription_views, trade_append_at, trade_appends, trade_view_at, trade_views,
};
use crate::uint::decimal;
use vstd::prelude::*;

verus! {

/// The per-pool store of a trade-reporting factory module receives exactly
/// the trade records that its events module reports, in the same order: the
/// `i`-th append is the `i`-th record, encoded and written as hexadecimal
/// text under the record's pool key.
pub proof fn law_trade_appends_encode_records(blk: Block, known: Seq<bool>, topic: Seq<u8>)
    ensures
        trade_appends(blk, known, topic).len() == trade_views(blk, known, topic).len(),
        forall|i: int|
            0 <= i < trade_views(blk, known, topic).len() ==> {
                &&& (#[trigger] trade_appends(blk, known, topic)[i]).1 == trade_views(
                    blk,
                    known,
                    topic,
                )[i].evt_address
                &&& trade_appends(blk, known, topic)[i].2 == hex_lower(
                    trade_report_proto(trade_views(blk, known, topic)[i]),
                )
            },
{
    let rel = |a: (u64, Seq<char>, Seq<char>), v: TradeReportView|
        a.1 == v.evt_address && a.2 == hex_lower(trade_report_proto(v));
    lemma_select_map_related(
        blk.logs@.len(),
        known_trade_at(blk, known, topic),
        trade_append_at(blk),
        trade_view_at(blk),
        rel,
    );
    assert forall|i: int| 0 <= i < trade_views(blk, known, topic).len() implies {
        &&& (#[trigger] trade_appends(blk, known, topic)[i]).1 == trade_views(
            blk,
            known,
            topic,
        )[i].evt_address
        &&& trade_appends(blk, known, topic)[i].2 == hex_lower(
            trade_report_proto(trade_views(blk, known, topic)[i]),
        )
    } by {
        assert(rel(trade_appends(blk, known, topic)[i], trade_views(blk, known, topic)[i]));
    }
}

/// The per-pool store of the primary factory module receives exactly the
/// subscription records that its events module reports, in the same order,
/// each encoded and written as hexadecimal text under its pool key.
pub proof fn law_subscription_appends_encode_records(blk: Block, known: Seq<bool>)
    ensures
        subscription_appends(blk, known).len() == subscription_views(blk, known).len(),
        forall|i: int|
            0 <= i < subscription_views(blk, known).len() ==> {
                &&& (#[trigger] subscription_appends(blk, known)[i]).1 == subscription_views(
                    blk,
                    known,
                )[i].evt_address
                &&& subscription_appends(blk, known)[i].2 == hex_lower(
                    subscription_proto(subscription_views(blk, known)[i]),
                )
            },
{
    let rel = |a: (u64, Seq<char>, Seq<char>), v: SubscriptionView|
        a.1 == v.evt_address && a.2 == hex_lower(subscription_proto(v));
    lemma_select_map_related(
        blk.logs@.len(),
        known_subscription_at(blk, known),
        subscription_append_at(blk),
        subscription_view_at(blk),
        rel,
    );
    assert forall|i: int| 0 <= i < subscription_views(blk, known).len() implies {
        &&& (#[trigger] subscription_appends(blk, known)[i]).1 == subscription_views(
            blk,
            known,
        )[i].evt_address
        &&& subscription_appends(blk, known)[i].2 == hex_lower(
            subscription_proto(subscription_views(blk, known)[i]),
        )
    } by {
        assert(rel(subscription_appends(blk, known)[i], subscription_views(blk, known)[i]));
    }
}

/// Some group of `g` has key `k`.
pub open spec fn has_group<V>(g: Seq<(Seq<char>, Seq<V>)>, k: Seq<char>) -> bool {
    exists|a: int| #![trigger g[a]] 0 <= a < g.len() && g[a].0 == k
}

/// Some write of `marks` puts 1 under key `k`.
pub open spec fn has_mark(marks: Seq<(u64, Seq<char>, i64)>, k: Seq<char>) -> bool {
    exists|j: int| #![trigger marks[j]] 0 <= j < marks.len() && marks[j].1 == k && marks[j].2 == 1
}

/// Log `i` is a trade report of a known pool whose key is `key`.
pub open spec fn trade_of_pool_at(
    blk: Block,
    known: Seq<bool>,
    topic: Seq<u8>,
    key: Seq<char>,
) -> spec_fn(int) -> bool {
    |i: int|
        known[i] && is_trade_report(blk.logs@[i], topic) && hex_lower(blk.logs@[i].address@)
            == key
}

/// The trade records of the pool whose key is `key`, in log order.
pub open spec fn trades_of_pool(
    blk: Block,
    known: Seq<bool>,
    topic: Seq<u8>,
    key: Seq<char>,
) -> Seq<TradeReportView> {
    select_map(blk.logs@.len(), trade_of_pool_at(blk, known, topic, key), trade_view_at(blk))
}

/// The per-pool grouping of trades partitions the trades that the events
/// module reports: every reported trade has the group of its pool, and each
/// group holds, in log order, exactly the trades of its pool (group keys
/// being distinct, each trade is in exactly one group).
pub proof fn law_trade_groups_partition_records(
    blk: Block,
    known: Seq<bool>,
    topic: Seq<u8>,
    g: Seq<(Seq<char>, Seq<TradeReportView>)>,
)
    requires
        is_grouping(keyed_trades(blk, known, topic), g),
    ensures
        forall|a: int|
            0 <= a < g.len() ==> #[trigger] g[a].1 == trades_of_pool(blk, known, topic, g[a].0),
        forall|i: int|
            0 <= i < trade_views(blk, known, topic).len() ==> has_group(
                g,
                (#[trigger] trade_views(blk, known, topic)[i]).evt_address,
            ),
{
    let n = blk.logs@.len();
    let keep = known_trade_at(blk, known, topic);
    let kf = keyed_trade_at(blk);
    assert forall|a: int| 0 <= a < g.len() implies #[trigger] g[a].1 == trades_of_pool(
        blk,
        known,
        topic,
        g[a].0,
    ) by {
        let k = g[a].0;
        lemma_values_with_key_select(n, keep, kf, k);
        assert((|i: int| keep(i) && kf(i).0 == k) =~= trade_of_pool_at(blk, known, topic, k));
        assert((|i: int| kf(i).1) =~= trade_view_at(blk));
    }
    let rel = |e: (Seq<char>, TradeReportView), v: TradeReportView| e.0 == v.evt_address;
    lemma_select_map_related(n, keep, kf, trade_view_at(blk), rel);
    assert forall|i: int| 0 <= i < trade_views(blk, known, topic).len() implies has_group(
        g,
        (#[trigger] trade_views(blk, known, topic)[i]).evt_address,
    ) by {
        let e = keyed_trades(blk, known, topic);
        assert(rel(e[i], trade_views(blk, known, topic)[i]));
        assert(e[i] == e[i]);
        let a = choose|a: int| #![trigger g[a]] 0 <= a < g.len() && g[a].0 == e[i].0;
        assert(g[a].0 == trade_views(blk, known, topic)[i].evt_address);
    }
}

/// Log `i` is a subscription to a known pool whose key is `key`.
pub open spec fn subscription_of_pool_at(blk: Block, known: Seq<bool>, key: Seq<char>) -> spec_fn(
    int,
) -> bool {
    |i: int| known[i] && is_subscription(blk.logs@[i]) && hex_lower(blk.logs@[i].address@) == key
}

/// The subscription records of the pool whose key is `key`, in log order.
pub open spec fn subscriptions_of_pool(blk: Block, known: Seq<bool>, key: Seq<char>) -> Seq<
    SubscriptionView,
> {
    select_map(blk.logs@.len(), subscription_of_pool_at(blk, known, key), subscription_view_at(blk))
}

/// The per-pool grouping of subscriptions partitions the subscriptions that
/// the events module reports: every reported subscription has the group of
/// its pool, and each group holds, in log order, exactly the subscriptions
/// to its pool.
pub proof fn law_subscription_groups_partition_records(
    blk: Block,
    known: Seq<bool>,
    g: Seq<(Seq<char>, Seq<SubscriptionView>)>,
)
    requires
        is_grouping(keyed_subscriptions(blk, known), g),
    ensures
        forall|a: int|
            0 <= a < g.len() ==> #[trigger] g[a].1 == subscriptions_of_pool(blk, known, g[a].0),
        forall|i: int|
            0 <= i < subscription_views(blk, known).len() ==> has_group(
                g,
                (#[trigger] subscription_views(blk, known)[i]).evt_address,
            ),
{
    let n = blk.logs@.len();
    let keep = known_subscription_at(blk, known);
    let kf = keyed_subscription_at(blk);
    assert forall|a: int| 0 <= a < g.len() implies #[trigger] g[a].1 == subscriptions_of_pool(
        blk,
        known,
        g[a].0,
    ) by {
        let k = g[a].0;
        lemma_values_with_key_select(n, keep, kf, k);
        assert((|i: int| keep(i) && kf(i).0 == k) =~= subscription_of_pool_at(blk, known, k));
        assert((|i: int| kf(i).1) =~= subscription_view_at(blk));
    }
    let rel = |e: (Seq<char>, SubscriptionView), v: SubscriptionView| e.0 == v.evt_address;
    lemma_select_map_related(n, keep, kf, subscription_view_at(blk), rel);
    assert forall|i: int| 0 <= i < subscription_views(blk, known).len() implies has_group(
        g,
        (#[trigger] subscription_views(blk, known)[i]).evt_address,
    ) by {
        let e = keyed_subscriptions(blk, known);
        assert(rel(e[i], subscription_views(blk, known)[i]));
        assert(e[i] == e[i]);
        let a = choose|a: int| #![trigger g[a]] 0 <= a < g.len() && g[a].0 == e[i].0;
        assert(g[a].0 == subscription_views(blk, known)[i].evt_address);
    }
}

proof fn lemma_marks_prefix(
    blk: Block,
    factory: Seq<u8>,
    topic: Seq<u8>,
    words: nat,
    n: nat,
)
    requires
        0 < n,
    ensures
        pool_marks_spec(blk, factory, topic, words, (n - 1) as nat).len() <= pool_marks_spec(
            blk,
            factory,
            topic,
            words,
            n,
        ).len(),
        forall|k: int|
            0 <= k < pool_marks_spec(blk, factory, topic, words, (n - 1) as nat).len()
                ==> #[trigger] pool_marks_spec(blk, factory, topic, words, n)[k]
                == pool_marks_spec(blk, factory, topic, words, (n - 1) as nat)[k],
{
}

proof fn lemma_pools_marked_upto(
    blk: Block,
    factory: Seq<u8>,
    topic: Seq<u8>,
    words: nat,
    n: nat,
)
    requires
        n <= blk.logs@.len(),
    ensures
        forall|j: int|
            0 <= j < select_map(n, created_at(blk, factory), created_view_at(blk)).len()
                ==> has_mark(
                pool_marks_spec(blk, factory, topic, words, n),
                hex_lower(
                    (#[trigger] select_map(n, created_at(blk, factory), created_view_at(blk))[j]).pool,
                ),
            ),
        forall|i: int|
            0 <= i < n && log_matches(#[trigger] blk.logs@[i], topic, words) ==> exists|k: int|
                0 <= k < pool_marks_spec(blk, factory, topic, words, n).len() && #[trigger]
                    pool_marks_spec(blk, factory, topic, words, n)[k] == (
                    blk.logs@[i].ordinal,
                    hex_lower(blk.logs@[i].address@),
                    1i64,
                ),
    decreases n,
{
    if n > 0 {
        let m = (n - 1) as nat;
        lemma_pools_marked_upto(blk, factory, topic, words, m);
        lemma_marks_prefix(blk, factory, topic, words, n);
        let prev = pool_marks_spec(blk, factory, topic, words, m);
        let cur = pool_marks_spec(blk, factory, topic, words, n);
        let sp = select_map(m, created_at(blk, factory), created_view_at(blk));
        let sc = select_map(n, created_at(blk, factory), created_view_at(blk));
        let log = blk.logs@[n - 1];
        let created = if log.address@ == factory && crate::abi::is_pool_created(log) {
            prev.push((log.ordinal, hex_lower(crate::abi::address_at(log.data@, 0)), 1i64))
        } else {
            prev
        };
        assert(cur == if log_matches(log, topic, words) {
            created.push((log.ordinal, hex_lower(log.address@), 1i64))
        } else {
            created
        });
        assert forall|j: int| 0 <= j < sc.len() implies has_mark(
            cur,
            hex_lower((#[trigger] sc[j]).pool),
        ) by {
            if j < sp.len() {
                assert(sc[j] == sp[j]);
                assert(has_mark(prev, hex_lower(sp[j].pool)));
                let k = choose|k: int|
                    #![trigger prev[k]]
                    0 <= k < prev.len() && prev[k].1 == hex_lower(sp[j].pool) && prev[k].2 == 1;
                assert(cur[k] == prev[k]);
            } else {
                assert(created_at(blk, factory)(n - 1));
                assert(sc[j] == pool_created_view(blk, log));
                let k = prev.len() as int;
                assert(created[k] == cur[k]);
                assert(cur[k].1 == hex_lower(sc[j].pool));
            }
        }
        assert forall|i: int|
            0 <= i < n && log_matches(#[trigger] blk.logs@[i], topic, words) implies exists|k: int|
            0 <= k < cur.len() && #[trigger] cur[k] == (
                blk.logs@[i].ordinal,
                hex_lower(blk.logs@[i].address@),
                1i64,
            ) by {
            if i < m {
                let k = choose|k: int|
                    0 <= k < prev.len() && #[trigger] prev[k] == (
                        blk.logs@[i].ordinal,
                        hex_lower(blk.logs@[i].address@),
                        1i64,
                    );
                assert(cur[k] == prev[k]);
            } else {
                let k = created.len() as int;
                assert(cur[k] == (log.ordinal, hex_lower(log.address@), 1i64));
            }
        }
    }
}

/// The store of the margin factory module marks every pool that its events
/// module reports as created, and every emitter of a margin trade report:
/// each with value 1 under the key of the pool's address.
pub proof fn law_created_pools_are_marked(
    blk: Block,
    factory: Seq<u8>,
    topic: Seq<u8>,
    words: nat,
)
    ensures
        forall|j: int|
            0 <= j < created_views(blk, factory).len() ==> has_mark(
                pool_marks_spec(blk, factory, topic, words, blk.logs@.len()),
                hex_lower((#[trigger] created_views(blk, factory)[j]).pool),
            ),
        forall|i: int|
            0 <= i < blk.logs@.len() && log_matches(#[trigger] blk.logs@[i], topic, words)
                ==> exists|k: int|
                0 <= k < pool_marks_spec(blk, factory, topic, words, blk.logs@.len()).len()
                    && #[trigger] pool_marks_spec(blk, factory, topic, words, blk.logs@.len())[k]
                    == (blk.logs@[i].ordinal, hex_lower(blk.logs@[i].address@), 1i64),
{
    lemma_pools_marked_upto(blk, factory, topic, words, blk.logs@.len());
}

/// The JSON-lines output first announces, in order, exactly the pools that
/// `map_pools` finds, each as `0x`-prefixed hexadecimal text, and then only
/// subscriptions.
pub proof fn law_json_lines_announce_pools_first(blk: Block, known: Seq<bool>)
    ensures
        ({
            let pools = select_map(
                blk.logs@.len(),
                created_at(blk, factory_contract()),
                created_pool_at(blk),
            );
            let lines = block_lines(blk, known);
            &&& lines.len() >= pools.len()
            &&& forall|j: int|
                0 <= j < pools.len() ==> (#[trigger] lines[j]).event_type == "PoolCreated"@
                    && lines[j].pool == Some(prefixed_hex_lower(pools[j]))
            &&& forall|j: int|
                pools.len() <= j < lines.len() ==> (#[trigger] lines[j]).event_type
                    == "Subscription"@
        }),
{
    let n = blk.logs@.len();
    let keep = created_at(blk, factory_contract());
    let rel = |p: Seq<u8>, l: JsonOutputView|
        l.event_type == "PoolCreated"@ && l.pool == Some(prefixed_hex_lower(p));
    lemma_select_map_related(n, keep, created_pool_at(blk), pool_json_at(blk), rel);
    let pools = select_map(n, keep, created_pool_at(blk));
    let pl = select_map(n, keep, pool_json_at(blk));
    let sl = select_map(
        blk.call_logs@.len(),
        known_subscription_call_at(blk, known),
        subscription_json_at(blk),
    );
    let always = |u: int, l: JsonOutputView| l.event_type == "Subscription"@;
    lemma_select_map_related(
        blk.call_logs@.len(),
        known_subscription_call_at(blk, known),
        |i: int| i,
        subscription_json_at(blk),
        always,
    );
    let lines = block_lines(blk, known);
    assert(lines == pl + sl);
    assert forall|j: int| 0 <= j < pools.len() implies (#[trigger] lines[j]).event_type
        == "PoolCreated"@ && lines[j].pool == Some(prefixed_hex_lower(pools[j])) by {
        assert(rel(pools[j], pl[j]));
        assert(lines[j] == pl[j]);
    }
    assert forall|j: int| pools.len() <= j < lines.len() implies (
    #[trigger] lines[j]).event_type == "Subscription"@ by {
        let u = j - pl.len();
        assert(lines[j] == sl[u]);
        assert(always(select_map(
            blk.call_logs@.len(),
            known_subscription_call_at(blk, known),
            |i: int| i,
        )[u], sl[u]));
    }
}

/// `map_subscriptions` reports the subscription of the last subscription
/// line of the JSON-lines output, or the empty subscription when that output
/// has no subscription line.
pub proof fn law_last_subscription_matches_last_line(blk: Block, known: Seq<bool>)
    requires
        known.len() == blk.call_logs@.len(),
        forall|i: int|
            0 <= i < blk.call_logs@.len() && known[i] && is_subscription(
                #[trigger] blk.call_logs@[i],
            ) ==> subscription_amounts_fit(blk.call_logs@[i]),
    ensures
        ({
            let lines = select_map(
                blk.call_logs@.len(),
                known_subscription_call_at(blk, known),
                subscription_json_at(blk),
            );
            let s = last_subscription(blk, known);
            &&& lines.len() == 0 ==> s == empty_subscription()
            &&& lines.len() > 0 ==> {
                &&& lines.last().asset_in == Some(prefixed_hex_lower(s.asset_in_address))
                &&& lines.last().asset_out == Some(prefixed_hex_lower(s.asset_out_address))
                &&& lines.last().investor == Some(prefixed_hex_lower(s.investor_address))
                &&& lines.last().subscription == Some(decimal(s.subscription_amount as nat))
                &&& lines.last().price == Some(decimal(s.price as nat))
                &&& lines.last().execution_date == Some(decimal(s.execution_date as nat))
            }
        }),
{
    let n = blk.call_logs@.len();
    let keep = known_subscription_call_at(blk, known);
    lemma_select_map_last(n, keep, subscription_json_at(blk));
    lemma_last_index_valid(n, keep);
    if let Some(i) = last_index(n, keep) {
        assert(keep(i));
        assert(subscription_amounts_fit(blk.call_logs@[i]));
    }
}

/// The pool store of the primary and secondary factory modules holds exactly
/// the pools their factory creates: the `j`-th write marks, with value 1, the
/// key of the `j`-th pool that the events module reports as created, and
/// there is no other write.
pub proof fn law_factory_store_marks_only_created_pools(blk: Block, factory: Seq<u8>)
    ensures
        created_marks(blk, factory).len() == created_views(blk, factory).len(),
        forall|j: int|
            0 <= j < created_marks(blk, factory).len() ==> {
                &&& (#[trigger] created_marks(blk, factory)[j]).1 == hex_lower(
                    created_views(blk, factory)[j].pool,
                )
                &&& created_marks(blk, factory)[j].2 == 1
            },
{
    let rel = |m: (u64, Seq<char>, i64), v: PoolCreatedView| m.1 == hex_lower(v.pool) && m.2 == 1;
    lemma_select_map_related(
        blk.logs@.len(),
        created_at(blk, factory),
        created_mark_at(blk),
        created_view_at(blk),
        rel,
    );
    assert forall|j: int| 0 <= j < created_marks(blk, factory).len() implies {
        &&& (#[trigger] created_marks(blk, factory)[j]).1 == hex_lower(
            created_views(blk, factory)[j].pool,
        )
        &&& created_marks(blk, factory)[j].2 == 1
    } by {
        assert(rel(created_marks(blk, factory)[j], created_views(blk, factory)[j]));
    }
}

/// The trade report record whose encoding, written as hexadecimal text, is
/// `text`, if any. At most one record has a given encoding
/// ([`lemma_trade_report_proto_injective`]), and hexadecimal text determines
/// its bytes ([`lemma_hex_lower_injective`]), so this is the decoding of an
/// appended value.
pub open spec fn decoded_trade_append(text: Seq<char>) -> Option<TradeReportView> {
    if exists|v: TradeReportView| hex_lower(trade_report_proto(v)) == text {
        Some(choose|v: TradeReportView| hex_lower(trade_report_proto(v)) == text)
    } else {
        None
    }
}

/// The subscription record whose encoding, written as hexadecimal text, is
/// `text`, if any (see [`decoded_trade_append`]).
pub open spec fn decoded_subscription_append(text: Seq<char>) -> Option<SubscriptionView> {
    if exists|v: SubscriptionView| hex_lower(subscription_proto(v)) == text {
        Some(choose|v: SubscriptionView| hex_lower(subscription_proto(v)) == text)
    } else {
        None
    }
}

/// Every value that a trade-reporting factory module appends to its
/// per-pool store is text of lowercase hexadecimal digits, of even length,
/// that decodes back to the trade record its events module reports for the
/// same log; it is appended under that record's pool key.
#[verifier::spinoff_prover]
#[verifier::rlimit(40)]
pub proof fn law_trade_appends_decode_to_records(blk: Block, known: Seq<bool>, topic: Seq<u8>)
    ensures
        trade_appends(blk, known, topic).len() == trade_views(blk, known, topic).len(),
        forall|i: int|
            0 <= i < trade_views(blk, known, topic).len() ==> {
                let text = (#[trigger] trade_appends(blk, known, topic)[i]).2;
                &&& decoded_trade_append(text) == Some(trade_views(blk, known, topic)[i])
                &&& text.len() % 2 == 0
                &&& forall|c: int| 0 <= c < text.len() ==> is_lower_hex_digit(#[trigger] text[c])
                &&& trade_appends(blk, known, topic)[i].1 == trade_views(blk, known, topic)[i].evt_address
            },
{
    law_trade_appends_encode_records(blk, known, topic);
    assert forall|i: int| 0 <= i < trade_views(blk, known, topic).len() implies {
        let text = (#[trigger] trade_appends(blk, known, topic)[i]).2;
        &&& decoded_trade_append(text) == Some(trade_views(blk, known, topic)[i])
        &&& text.len() % 2 == 0
        &&& forall|c: int| 0 <= c < text.len() ==> is_lower_hex_digit(#[trigger] text[c])
        &&& trade_appends(blk, known, topic)[i].1 == trade_views(blk, known, topic)[i].evt_address
    } by {
        let x = trade_views(blk, known, topic)[i];
        let text = trade_appends(blk, known, topic)[i].2;
        assert(text == hex_lower(trade_report_proto(x)));
        assert(exists|v: TradeReportView| hex_lower(trade_report_proto(v)) == text);
        let v = choose|v: TradeReportView| hex_lower(trade_report_proto(v)) == text;
        lemma_hex_lower_injective(trade_report_proto(v), trade_report_proto(x));
        lemma_trade_report_proto_injective(v, x);
        lemma_hex_lower_len(trade_report_proto(x));
        lemma_hex_lower_digits(trade_report_proto(x));
    }
}

/// Every value that the primary factory module appends to its per-pool
/// store is text of lowercase hexadecimal digits, of even length, that
/// decodes back to the subscription record its events module reports for
/// the same log; it is appended under that record's pool key.
#[verifier::spinoff_prover]
#[verifier::rlimit(40)]
pub proof fn law_subscription_appends_decode_to_records(blk: Block, known: Seq<bool>)
    ensures
        subscription_appends(blk, known).len() == subscription_views(blk, known).len(),
        forall|i: int|
            0 <= i < subscription_views(blk, known).len() ==> {
                let text = (#[trigger] subscription_appends(blk, known)[i]).2;
                &&& decoded_subscription_append(text) == Some(subscription_views(blk, known)[i])
                &&& text.len() % 2 == 0
                &&& forall|c: int| 0 <= c < text.len() ==> is_lower_hex_digit(#[trigger] text[c])
                &&& subscription_appends(blk, known)[i].1 == subscription_views(blk, known)[i].evt_address
            },
{
    law_subscription_appends_encode_records(blk, known);
    assert forall|i: int| 0 <= i < subscription_views(blk, known).len() implies {
        let text = (#[trigger] subscription_appends(blk, known)[i]).2;
        &&& decoded_subscription_append(text) == Some(subscription_views(blk, known)[i])
        &&& text.len() % 2 == 0
        &&& forall|c: int| 0 <= c < text.len() ==> is_lower_hex_digit(#[trigger] text[c])
        &&& subscription_appends(blk, known)[i].1 == subscription_views(blk, known)[i].evt_address
    } by {
        let x = subscription_views(blk, known)[i];
        let text = subscription_appends(blk, known)[i].2;
        assert(text == hex_lower(subscription_proto(x)));
        assert(exists|v: SubscriptionView| hex_lower(subscription_proto(v)) == text);
        let v = choose|v: SubscriptionView| hex_lower(subscription_proto(v)) == text;
        lemma_hex_lower_injective(subscription_proto(v), subscription_proto(x));
        lemma_subscription_proto_injective(v, x);
        lemma_hex_lower_len(subscription_proto(x));
        lemma_hex_lower_digits(subscription_proto(x));
    }
}

/// Some write of `sets` is under key `key`.
pub open spec fn has_key<T>(sets: Seq<SetValue<T>>, key: Seq<char>) -> bool {
    exists|j: int| #![trigger sets[j]] 0 <= j < sets.len() && sets[j].key@ == key
}

/// A pool module's subscription or trade reader finds exactly the pools that
/// its pool store wrote: the reader looks up the key of a log's emitter
/// (its lowercase hexadecimal text, as [`crate::hexstr::pool_key`] makes it),
/// and that key was written by `store_pools_created` if and only if the
/// emitter is one of the stored pools.
pub proof fn law_stored_pools_are_found(pools: Seq<Pool>, sets: Seq<SetValue<Pool>>, emitter: Seq<u8>)
    requires
        pool_sets_spec(pools, sets),
    ensures
        has_key(sets, hex_lower(emitter)) <==> exists|j: int|
            #![trigger pools[j]]
            0 <= j < pools.len() && pools[j].pool_address@ == emitter,
{
    if has_key(sets, hex_lower(emitter)) {
        let j = choose|j: int| #![trigger sets[j]] 0 <= j < sets.len() && sets[j].key@ == hex_lower(emitter);
        lemma_hex_lower_injective(pools[j].pool_address@, emitter);
        assert(pools[j].pool_address@ == emitter);
    }
    if exists|j: int| #![trigger pools[j]] 0 <= j < pools.len() && pools[j].pool_address@ == emitter {
        let j = choose|j: int| #![trigger pools[j]] 0 <= j < pools.len() && pools[j].pool_address@ == emitter;
        assert(sets[j].key@ == hex_lower(emitter));
    }
}

/// With the known flags read from the pool store's writes, the subscription
/// that `map_subscriptions` reports is that of the last `Subscription` call
/// log whose emitter is a stored pool: a pool written by `store_pools_created`
/// is found by the subscription reader.
pub proof fn law_stored_pool_subscription_is_read(
    pools: Seq<Pool>,
    sets: Seq<SetValue<Pool>>,
    blk: Block,
    known: Seq<bool>,
)
    requires
        pool_sets_spec(pools, sets),
        known.len() == blk.call_logs@.len(),
        forall|i: int|
            0 <= i < known.len() ==> #[trigger] known[i] == has_key(
                sets,
                hex_lower(blk.call_logs@[i].address@),
            ),
    ensures
        forall|i: int|
            0 <= i < known.len() ==> (#[trigger] known[i] <==> exists|j: int|
                #![trigger pools[j]]
                0 <= j < pools.len() && pools[j].pool_address@ == blk.call_logs@[i].address@),
        last_subscription(blk, known) == match last_index(
            blk.call_logs@.len(),
            |i: int|
                is_subscription(blk.call_logs@[i]) && exists|j: int|
                    #![trigger pools[j]]
                    0 <= j < pools.len() && pools[j].pool_address@ == blk.call_logs@[i].address@,
        ) {
            Some(i) => subscription_of_log(blk.call_logs@[i]),
            None => empty_subscription(),
        },
{
    assert forall|i: int| 0 <= i < known.len() implies (#[trigger] known[i] <==> exists|j: int|
        #![trigger pools[j]]
        0 <= j < pools.len() && pools[j].pool_address@ == blk.call_logs@[i].address@) by {
        law_stored_pools_are_found(pools, sets, blk.call_logs@[i].address@);
    }
    let in_pools = |i: int|
        is_subscription(blk.call_logs@[i]) && exists|j: int|
            #![trigger pools[j]]
            0 <= j < pools.len() && pools[j].pool_address@ == blk.call_logs@[i].address@;
    lemma_last_index_same(blk.call_logs@.len(), known_subscription_call_at(blk, known), in_pools);
}

proof fn lemma_last_index_same(n: nat, p: spec_fn(int) -> bool, q: spec_fn(int) -> bool)
    requires
        forall|i: int| 0 <= i < n ==> #[trigger] p(i) == q(i),
    ensures
        last_index(n, p) == last_index(n, q),
    decreases n,
{
    if n > 0 {
        lemma_last_index_same((n - 1) as nat, p, q);
    }
}

/// The pool store that a factory module builds with its writes
/// ([`created_marks`]), read at ordinal `ordinal` of block `blk`: after the
/// writes of all earlier blocks and those of `blk` at ordinals up to
/// `ordinal`, key `key` is set.
pub open spec fn store_has_key(
    earlier: Seq<Block>,
    blk: Block,
    factory: Seq<u8>,
    ordinal: u64,
    key: Seq<char>,
) -> bool {
    ||| exists|b: int, j: int|
        0 <= b < earlier.len() && 0 <= j < created_marks(earlier[b], factory).len()
            && (#[trigger] created_marks(earlier[b], factory)[j]).1 == key
    ||| exists|j: int|
        0 <= j < created_marks(blk, factory).len() && (#[trigger] created_marks(blk, factory)[j]).1
            == key && created_marks(blk, factory)[j].0 <= ordinal
}

/// `factory` created the pool `pool` in an earlier block, or in `blk` at a
/// log whose ordinal is at most `ordinal`.
pub open spec fn created_before(
    earlier: Seq<Block>,
    blk: Block,
    factory: Seq<u8>,
    ordinal: u64,
    pool: Seq<u8>,
) -> bool {
    ||| exists|b: int, i: int|
        0 <= b < earlier.len() && 0 <= i < earlier[b].logs@.len() && #[trigger] created_at(
            earlier[b],
            factory,
        )(i) && address_at(earlier[b].logs@[i].data@, 0) == pool
    ||| exists|i: int|
        0 <= i < blk.logs@.len() && #[trigger] created_at(blk, factory)(i) && address_at(
            blk.logs@[i].data@,
            0,
        ) == pool && blk.logs@[i].ordinal <= ordinal
}

/// A key that the pool store holds is the key of a pool that the factory
/// created no later than the read.
pub proof fn lemma_stored_key_was_created(
    earlier: Seq<Block>,
    blk: Block,
    factory: Seq<u8>,
    ordinal: u64,
    pool: Seq<u8>,
)
    requires
        store_has_key(earlier, blk, factory, ordinal, hex_lower(pool)),
    ensures
        created_before(earlier, blk, factory, ordinal, pool),
{
    let key = hex_lower(pool);
    if exists|b: int, j: int|
        0 <= b < earlier.len() && 0 <= j < created_marks(earlier[b], factory).len()
            && (#[trigger] created_marks(earlier[b], factory)[j]).1 == key {
        let (b, j) = choose|b: int, j: int|
            0 <= b < earlier.len() && 0 <= j < created_marks(earlier[b], factory).len()
                && (#[trigger] created_marks(earlier[b], factory)[j]).1 == key;
        let eb = earlier[b];
        lemma_select_map_index(eb.logs@.len(), created_at(eb, factory), created_mark_at(eb), j);
        let i = choose|i: int|
            0 <= i < eb.logs@.len() && #[trigger] created_at(eb, factory)(i) && created_marks(
                eb,
                factory,
            )[j] == created_mark_at(eb)(i);
        lemma_hex_lower_injective(address_at(eb.logs@[i].data@, 0), pool);
        assert(created_at(earlier[b], factory)(i));
    } else {
        let j = choose|j: int|
            0 <= j < created_marks(blk, factory).len() && (#[trigger] created_marks(blk, factory)[j]).1
                == key && created_marks(blk, factory)[j].0 <= ordinal;
        lemma_select_map_index(blk.logs@.len(), created_at(blk, factory), created_mark_at(blk), j);
        let i = choose|i: int|
            0 <= i < blk.logs@.len() && #[trigger] created_at(blk, factory)(i) && created_marks(
                blk,
                factory,
            )[j] == created_mark_at(blk)(i);
        lemma_hex_lower_injective(address_at(blk.logs@[i].data@, 0), pool);
        assert(created_at(blk, factory)(i));
    }
}

/// `x` is the record of a pool-creation log of `factory` in `blk`.
pub open spec fn from_factory_log(blk: Block, factory: Seq<u8>, x: PoolCreatedView) -> bool {
    exists|i: int|
        0 <= i < blk.logs@.len() && blk.logs@[i].address@ == factory && x == #[trigger] pool_created_view(
            blk,
            blk.logs@[i],
        )
}

/// `x` is the record of a `Subscription` log of `blk` whose emitter
/// `factory` created no later than that log.
pub open spec fn subscription_of_created_pool(
    earlier: Seq<Block>,
    blk: Block,
    factory: Seq<u8>,
    x: SubscriptionView,
) -> bool {
    exists|i: int|
        0 <= i < blk.logs@.len() && is_subscription(blk.logs@[i]) && x == #[trigger] subscription_view(
            blk,
            blk.logs@[i],
        ) && created_before(earlier, blk, factory, blk.logs@[i].ordinal, blk.logs@[i].address@)
}

/// `x` is the record of a trade report log (signature hash `topic`) of
/// `blk` whose emitter `factory` created no later than that log.
pub open spec fn trade_of_created_pool(
    earlier: Seq<Block>,
    blk: Block,
    factory: Seq<u8>,
    topic: Seq<u8>,
    x: TradeReportView,
) -> bool {
    exists|i: int|
        0 <= i < blk.logs@.len() && is_trade_report(blk.logs@[i], topic) && x
            == #[trigger] trade_report_view(blk, blk.logs@[i]) && created_before(
            earlier,
            blk,
            factory,
            blk.logs@[i].ordinal,
            blk.logs@[i].address@,
        )
}

/// Every pool-creation record of a block comes from a log of the factory.
proof fn lemma_created_views_from_factory(blk: Block, factory: Seq<u8>)
    ensures
        forall|j: int|
            0 <= j < created_views(blk, factory).len() ==> from_factory_log(
                blk,
                factory,
                #[trigger] created_views(blk, factory)[j],
            ),
{
    assert forall|j: int| 0 <= j < created_views(blk, factory).len() implies from_factory_log(
        blk,
        factory,
        #[trigger] created_views(blk, factory)[j],
    ) by {
        lemma_select_map_index(blk.logs@.len(), created_at(blk, factory), created_view_at(blk), j);
        let i = choose|i: int|
            0 <= i < blk.logs@.len() && #[trigger] created_at(blk, factory)(i) && created_views(
                blk,
                factory,
            )[j] == created_view_at(blk)(i);
        assert(blk.logs@[i].address@ == factory);
        assert(created_views(blk, factory)[j] == pool_created_view(blk, blk.logs@[i]));
    }
}

/// With the known flags read from the pool store that the primary factory
/// module builds over the earlier blocks and this one, its events hold only
/// pools created by the factory (each from a log of the factory) and
/// subscriptions to pools that the factory created no later than the
/// subscription's log; each subscription's `evt_address` is that pool's key.
pub proof fn law_primary_events_come_from_factory_pools(
    earlier: Seq<Block>,
    blk: Block,
    known: Seq<bool>,
)
    requires
        known.len() == blk.logs@.len(),
        forall|i: int|
            0 <= i < known.len() ==> #[trigger] known[i] == store_has_key(
                earlier,
                blk,
                primarypool_factory_address(),
                blk.logs@[i].ordinal,
                hex_lower(blk.logs@[i].address@),
            ),
    ensures
        forall|j: int|
            0 <= j < created_views(blk, primarypool_factory_address()).len() ==> from_factory_log(
                blk,
                primarypool_factory_address(),
                #[trigger] created_views(blk, primarypool_factory_address())[j],
            ),
        forall|j: int|
            0 <= j < subscription_views(blk, known).len() ==> subscription_of_created_pool(
                earlier,
                blk,
                primarypool_factory_address(),
                #[trigger] subscription_views(blk, known)[j],
            ),
{
    let factory = primarypool_factory_address();
    lemma_created_views_from_factory(blk, factory);
    assert forall|j: int| 0 <= j < subscription_views(blk, known).len() implies subscription_of_created_pool(
        earlier,
        blk,
        factory,
        #[trigger] subscription_views(blk, known)[j],
    ) by {
        lemma_select_map_index(
            blk.logs@.len(),
            known_subscription_at(blk, known),
            subscription_view_at(blk),
            j,
        );
        let i = choose|i: int|
            0 <= i < blk.logs@.len() && #[trigger] known_subscription_at(blk, known)(i)
                && subscription_views(blk, known)[j] == subscription_view_at(blk)(i);
        assert(known[i]);
        lemma_stored_key_was_created(earlier, blk, factory, blk.logs@[i].ordinal, blk.logs@[i].address@);
        assert(subscription_views(blk, known)[j] == subscription_view(blk, blk.logs@[i]));
    }
}

/// With the known flags read from the pool store that the secondary factory
/// module builds over the earlier blocks and this one, its events hold only
/// pools created by the factory (each from a log of the factory) and trade
/// reports of pools that the factory created no later than the report's
/// log; each report's `evt_address` is that pool's key.
pub proof fn law_secondary_events_come_from_factory_pools(
    earlier: Seq<Block>,
    blk: Block,
    known: Seq<bool>,
)
    requires
        known.len() == blk.logs@.len(),
        forall|i: int|
            0 <= i < known.len() ==> #[trigger] known[i] == store_has_key(
                earlier,
                blk,
                secondarypool_factory_address(),
                blk.logs@[i].ordinal,
                hex_lower(blk.logs@[i].address@),
            ),
    ensures
        forall|j: int|
            0 <= j < created_views(blk, secondarypool_factory_address()).len() ==> from_factory_log(
                blk,
                secondarypool_factory_address(),
                #[trigger] created_views(blk, secondarypool_factory_address())[j],
            ),
        forall|j: int|
            0 <= j < trade_views(blk, known, trade_report_topic()).len() ==> trade_of_created_pool(
                earlier,
                blk,
                secondarypool_factory_address(),
                trade_report_topic(),
                #[trigger] trade_views(blk, known, trade_report_topic())[j],
            ),
{
    let factory = secondarypool_factory_address();
    let topic = trade_report_topic();
    lemma_created_views_from_factory(blk, factory);
    assert forall|j: int| 0 <= j < trade_views(blk, known, topic).len() implies trade_of_created_pool(
        earlier,
        blk,
        factory,
        topic,
        #[trigger] trade_views(blk, known, topic)[j],
    ) by {
        lemma_select_map_index(
            blk.logs@.len(),
            known_trade_at(blk, known, topic),
            trade_view_at(blk),
            j,
        );
        let i = choose|i: int|
            0 <= i < blk.logs@.len() && #[trigger] known_trade_at(blk, known, topic)(i)
                && trade_views(blk, known, topic)[j] == trade_view_at(blk)(i);
        assert(known[i]);
        lemma_stored_key_was_created(earlier, blk, factory, blk.logs@[i].ordinal, blk.logs@[i].address@);
        assert(trade_views(blk, known, topic)[j] == trade_report_view(blk, blk.logs@[i]));
    }
}

} // verus!
