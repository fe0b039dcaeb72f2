//! The secondary pool module: pools created by the secondary issue factory
//! at `0xe3e79e4106327e6eAeFBD03C1fD3A4A531c59b10`, the trades reported by
//! them, their store writes and key-value output.
use crate::abi::{address_at, decode_trade_report, is_trade_report, trade_report_topic, trade_report_topic_bytes, word_at};
use crate::block::{last_index, select_map, Block, Log};
use crate::hexstr::{hex_digit, hex_lower, substreams_hex};
use crate::kv::{kv_operations_contents, kv_push_delete, kv_push_new, new_kv_operations};
use crate::pools::{pool_sets, pool_sets_spec, Delta, DeltaOperation, Pool, SetValue};
use crate::proto::{
    bytes_field, lemma_bytes_field_from, lemma_bytes_field_split, lemma_uint_field_from,
    lemma_uint_field_split, put_bytes_field, put_uint_field, uint_field,
};
use vstd::seq_lib::lemma_concat_associative;
use crate::tracker::{created_at, created_pool_at, created_pools, views};
use crate::uint::{be_value, uint_to_u64};
use substreams_sink_kv::pb::sf::substreams::sink::kv::v1::KvOperations;
use vstd::prelude::*;

verus! {

/// The address of the secondary issue factory.
pub open spec fn factory_contract() -> Seq<u8> {
    seq![
        0xe3u8, 0xe7u8, 0x9eu8, 0x41u8, 0x06u8, 0x32u8, 0x7eu8, 0x6eu8, 0xaeu8, 0xfbu8,
        0xd0u8, 0x3cu8, 0x1fu8, 0xd3u8, 0xa4u8, 0xa5u8, 0x31u8, 0xc5u8, 0x9bu8, 0x10u8,
    ]
}

/// The address of the secondary issue factory, as bytes.
pub fn factory_contract_bytes() -> (r: Vec<u8>)
    ensures
        r@ == factory_contract(),
{
    vec![
        0xe3u8, 0xe7u8, 0x9eu8, 0x41u8, 0x06u8, 0x32u8, 0x7eu8, 0x6eu8, 0xaeu8, 0xfbu8,
        0xd0u8, 0x3cu8, 0x1fu8, 0xd3u8, 0xa4u8, 0xa5u8, 0x31u8, 0xc5u8, 0x9bu8, 0x10u8,
    ]
}

/// The pools the factory creates in the block, in log order.
pub fn map_pools(blk: &Block) -> (r: Vec<Pool>)
    ensures
        views(r@) == select_map(
            blk.logs@.len(),
            created_at(*blk, factory_contract()),
            created_pool_at(*blk),
        ),
{
    let factory = factory_contract_bytes();
    created_pools(blk, &factory)
}

/// The store writes of the created pools: the `i`-th pool (from 0) at
/// ordinal `i + 1` under the hexadecimal text of its address.
pub fn store_pools_created(pools: Vec<Pool>) -> (r: Vec<SetValue<Pool>>)
    ensures
        pool_sets_spec(pools@, r@),
{
    pool_sets(pools)
}

/// A trade, with its amounts as `u64`.
#[derive(Debug)]
pub struct Trade {
    pub security_address: Vec<u8>,
    pub order_ref: Vec<u8>,
    pub party: Vec<u8>,
    pub counterparty: Vec<u8>,
    pub order_type: Vec<u8>,
    pub price: u64,
    pub currency_address: Vec<u8>,
    pub traded_amount: u64,
    pub execution_date: u64,
}

/// The view of a [`Trade`].
#[verifier::ext_equal]
pub struct TradeValue {
    pub security_address: Seq<u8>,
    pub order_ref: Seq<u8>,
    pub party: Seq<u8>,
    pub counterparty: Seq<u8>,
    pub order_type: Seq<u8>,
    pub price: u64,
    pub currency_address: Seq<u8>,
    pub traded_amount: u64,
    pub execution_date: u64,
}

impl View for Trade {
    type V = TradeValue;

    open spec fn view(&self) -> TradeValue {
        TradeValue {
            security_address: self.security_address@,
            order_ref: self.order_ref@,
            party: self.party@,
            counterparty: self.counterparty@,
            order_type: self.order_type@,
            price: self.price,
            currency_address: self.currency_address@,
            traded_amount: self.traded_amount,
            execution_date: self.execution_date,
        }
    }
}

/// The empty trade: no addresses or references, zero amounts.
pub open spec fn empty_trade() -> TradeValue {
    TradeValue {
        security_address: Seq::empty(),
        order_ref: Seq::empty(),
        party: Seq::empty(),
        counterparty: Seq::empty(),
        order_type: Seq::empty(),
        price: 0,
        currency_address: Seq::empty(),
        traded_amount: 0,
        execution_date: 0,
    }
}

impl Default for Trade {
    fn default() -> (r: Self)
        ensures
            r@ == empty_trade(),
    {
        Trade {
            security_address: Vec::new(),
            order_ref: Vec::new(),
            party: Vec::new(),
            counterparty: Vec::new(),
            order_type: Vec::new(),
            price: 0,
            currency_address: Vec::new(),
            traded_amount: 0,
            execution_date: 0,
        }
    }
}

/// The amounts of the `TradeReport` event in `log` fit in a `u64`.
pub open spec fn trade_amounts_fit(log: Log) -> bool {
    &&& be_value(word_at(log.data@, 5)) <= u64::MAX
    &&& be_value(word_at(log.data@, 7)) <= u64::MAX
    &&& be_value(word_at(log.data@, 8)) <= u64::MAX
}

/// The trade held by the `TradeReport` event in `log`.
pub open spec fn trade_of_log(log: Log) -> TradeValue {
    TradeValue {
        security_address: address_at(log.data@, 0),
        order_ref: word_at(log.data@, 1),
        party: address_at(log.data@, 2),
        counterparty: address_at(log.data@, 3),
        order_type: word_at(log.data@, 4),
        price: be_value(word_at(log.data@, 5)) as u64,
        currency_address: address_at(log.data@, 6),
        traded_amount: be_value(word_at(log.data@, 7)) as u64,
        execution_date: be_value(word_at(log.data@, 8)) as u64,
    }
}

/// Call log `i` is a `TradeReport` event of a known pool.
pub open spec fn known_trade_call_at(blk: Block, known: Seq<bool>) -> spec_fn(int) -> bool {
    |i: int| known[i] && is_trade_report(blk.call_logs@[i], trade_report_topic())
}

/// The trade that [`map_trades`] reports: that of the last `TradeReport`
/// event of a known pool among the call logs, or the empty trade when there
/// is none.
pub open spec fn last_trade(blk: Block, known: Seq<bool>) -> TradeValue {
    match last_index(blk.call_logs@.len(), known_trade_call_at(blk, known)) {
        Some(i) => trade_of_log(blk.call_logs@[i]),
        None => empty_trade(),
    }
}

/// The last trade reported by a known pool in the block. `known[i]` tells
/// whether the emitter of `blk.call_logs[i]` is a known pool.
pub fn map_trades(blk: &Block, known: &Vec<bool>) -> (r: Trade)
    requires
        known@.len() == blk.call_logs@.len(),
        forall|i: int|
            0 <= i < known@.len() && known@[i] && is_trade_report(
                #[trigger] blk.call_logs@[i],
                trade_report_topic(),
            ) ==> trade_amounts_fit(blk.call_logs@[i]),
    ensures
        r@ == last_trade(*blk, known@),
{
    let topic = trade_report_topic_bytes();
    let mut out = Trade::default();
    let mut i: usize = 0;
    while i < blk.call_logs.len()
        invariant
            i <= blk.call_logs@.len(),
            topic@ == trade_report_topic(),
            known@.len() == blk.call_logs@.len(),
            forall|j: int|
                0 <= j < known@.len() && known@[j] && is_trade_report(
                    #[trigger] blk.call_logs@[j],
                    trade_report_topic(),
                ) ==> trade_amounts_fit(blk.call_logs@[j]),
            out@ == match last_index(i as nat, known_trade_call_at(*blk, known@)) {
                Some(j) => trade_of_log(blk.call_logs@[j]),
                None => empty_trade(),
            },
        decreases blk.call_logs@.len() - i,
    {
        let log = &blk.call_logs[i];
        if known[i] {
            if let Some(event) = decode_trade_report(log, &topic) {
                assert(trade_amounts_fit(blk.call_logs@[i as int]));
                out.security_address = event.security;
                out.order_ref = event.order_ref;
                out.party = event.party;
                out.counterparty = event.counterparty;
                out.order_type = event.order_type;
                out.price = uint_to_u64(event.price.as_slice());
                out.currency_address = event.currency;
                out.traded_amount = uint_to_u64(event.amount.as_slice());
                out.execution_date = uint_to_u64(event.execution_date.as_slice());
            }
        }
        i = i + 1;
    }
    out
}

/// The store write of the block's trade: ordinal 1, key `73` (the
/// hexadecimal text of `s`).
pub fn store_trade_created(trades: Trade) -> (r: SetValue<Trade>)
    ensures
        r.ordinal == 1,
        r.key@ == seq!['7', '3'],
        r.value@ == trades@,
{
    let s: Vec<u8> = vec![0x73u8];
    let key = substreams_hex(s.as_slice());
    proof {
        assert(s@.drop_last() =~= Seq::<u8>::empty());
        assert(hex_lower(s@.drop_last()) =~= Seq::<char>::empty());
        assert(s@.last() == 0x73u8);
        assert(hex_digit(0x73u8 as int / 16) == '7');
        assert(hex_digit(0x73u8 as int % 16) == '3');
        assert(hex_lower(s@) =~= seq!['7', '3']);
    }
    SetValue { ordinal: 1, key, value: trades }
}

/// The check module's output: always the empty trade.
pub fn map_subscriptions_check(blk: &Block) -> (r: Trade)
    ensures
        r@ == empty_trade(),
{
    Trade::default()
}

/// Wire encoding of a trade: `security_address` = 1, `order_ref` = 2,
/// `party` = 3, `counterparty` = 4, `order_type` = 5, `price` = 6,
/// `currency_address` = 7, `traded_amount` = 8, `execution_date` = 9.
pub open spec fn trade_value_proto(v: TradeValue) -> Seq<u8> {
    bytes_field(1, v.security_address) + (
        bytes_field(2, v.order_ref) + (
        bytes_field(3, v.party) + (
        bytes_field(4, v.counterparty) + (
        bytes_field(5, v.order_type) + (
        uint_field(6, v.price as nat) + (
        bytes_field(7, v.currency_address) + (
        uint_field(8, v.traded_amount as nat) + (
        uint_field(9, v.execution_date as nat)))))))))
}

/// The encoding of a trade determines it.
pub proof fn lemma_trade_value_proto_injective(a: TradeValue, b: TradeValue)
    requires
        trade_value_proto(a) == trade_value_proto(b),
    ensures
        a == b,
{
    let e = Seq::<u8>::empty();
    let a9 = uint_field(9, a.execution_date as nat);
    assert(a9 + e =~= a9);
    let a8 = uint_field(8, a.traded_amount as nat) + a9;
    let a7 = bytes_field(7, a.currency_address) + a8;
    let a6 = uint_field(6, a.price as nat) + a7;
    let a5 = bytes_field(5, a.order_type) + a6;
    let a4 = bytes_field(4, a.counterparty) + a5;
    let a3 = bytes_field(3, a.party) + a4;
    let a2 = bytes_field(2, a.order_ref) + a3;
    let a1 = bytes_field(1, a.security_address) + a2;
    let b9 = uint_field(9, b.execution_date as nat);
    assert(b9 + e =~= b9);
    let b8 = uint_field(8, b.traded_amount as nat) + b9;
    let b7 = bytes_field(7, b.currency_address) + b8;
    let b6 = uint_field(6, b.price as nat) + b7;
    let b5 = bytes_field(5, b.order_type) + b6;
    let b4 = bytes_field(4, b.counterparty) + b5;
    let b3 = bytes_field(3, b.party) + b4;
    let b2 = bytes_field(2, b.order_ref) + b3;
    let b1 = bytes_field(1, b.security_address) + b2;
    lemma_uint_field_from(9, a.execution_date as nat, e);
    lemma_uint_field_from(8, a.traded_amount as nat, a9);
    lemma_bytes_field_from(7, a.currency_address, a8);
    lemma_uint_field_from(6, a.price as nat, a7);
    lemma_bytes_field_from(5, a.order_type, a6);
    lemma_bytes_field_from(4, a.counterparty, a5);
    lemma_bytes_field_from(3, a.party, a4);
    lemma_bytes_field_from(2, a.order_ref, a3);
    lemma_bytes_field_from(1, a.security_address, a2);
    lemma_uint_field_from(9, b.execution_date as nat, e);
    lemma_uint_field_from(8, b.traded_amount as nat, b9);
    lemma_bytes_field_from(7, b.currency_address, b8);
    lemma_uint_field_from(6, b.price as nat, b7);
    lemma_bytes_field_from(5, b.order_type, b6);
    lemma_bytes_field_from(4, b.counterparty, b5);
    lemma_bytes_field_from(3, b.party, b4);
    lemma_bytes_field_from(2, b.order_ref, b3);
    lemma_bytes_field_from(1, b.security_address, b2);
    lemma_bytes_field_split(1, a.security_address, b.security_address, a2, b2);
    lemma_bytes_field_split(2, a.order_ref, b.order_ref, a3, b3);
    lemma_bytes_field_split(3, a.party, b.party, a4, b4);
    lemma_bytes_field_split(4, a.counterparty, b.counterparty, a5, b5);
    lemma_bytes_field_split(5, a.order_type, b.order_type, a6, b6);
    lemma_uint_field_split(6, a.price as nat, b.price as nat, a7, b7);
    lemma_bytes_field_split(7, a.currency_address, b.currency_address, a8, b8);
    lemma_uint_field_split(8, a.traded_amount as nat, b.traded_amount as nat, a9, b9);
    lemma_uint_field_split(9, a.execution_date as nat, b.execution_date as nat, e, e);
    assert(a =~= b);
}

/// Encodes a trade.
pub fn encode_trade_value(t: &Trade) -> (r: Vec<u8>)
    ensures
        r@ == trade_value_proto(t@),
{
    let mut buf: Vec<u8> = Vec::new();
    let ghost g0 = buf@;
    put_bytes_field(&mut buf, 1, t.security_address.as_slice());
    let ghost g1 = buf@;
    put_bytes_field(&mut buf, 2, t.order_ref.as_slice());
    let ghost g2 = buf@;
    put_bytes_field(&mut buf, 3, t.party.as_slice());
    let ghost g3 = buf@;
    put_bytes_field(&mut buf, 4, t.counterparty.as_slice());
    let ghost g4 = buf@;
    put_bytes_field(&mut buf, 5, t.order_type.as_slice());
    let ghost g5 = buf@;
    put_uint_field(&mut buf, 6, t.price);
    let ghost g6 = buf@;
    put_bytes_field(&mut buf, 7, t.currency_address.as_slice());
    let ghost g7 = buf@;
    put_uint_field(&mut buf, 8, t.traded_amount);
    let ghost g8 = buf@;
    put_uint_field(&mut buf, 9, t.execution_date);
    proof {
        let t9 = uint_field(9, t@.execution_date as nat);
        let t8 = uint_field(8, t@.traded_amount as nat) + t9;
        let t7 = bytes_field(7, t@.currency_address) + t8;
        let t6 = uint_field(6, t@.price as nat) + t7;
        let t5 = bytes_field(5, t@.order_type) + t6;
        let t4 = bytes_field(4, t@.counterparty) + t5;
        let t3 = bytes_field(3, t@.party) + t4;
        let t2 = bytes_field(2, t@.order_ref) + t3;
        let t1 = bytes_field(1, t@.security_address) + t2;
        lemma_concat_associative(g7, uint_field(8, t@.traded_amount as nat), t9);
        lemma_concat_associative(g6, bytes_field(7, t@.currency_address), t8);
        lemma_concat_associative(g5, uint_field(6, t@.price as nat), t7);
        lemma_concat_associative(g4, bytes_field(5, t@.order_type), t6);
        lemma_concat_associative(g3, bytes_field(4, t@.counterparty), t5);
        lemma_concat_associative(g2, bytes_field(3, t@.party), t4);
        lemma_concat_associative(g1, bytes_field(2, t@.order_ref), t3);
        lemma_concat_associative(g0, bytes_field(1, t@.security_address), t2);
        assert(g0 + t1 =~= t1);
    }
    buf
}

/// The key-value operation of a store delta: a created or updated key is
/// set to the encoding of its new value; a deleted key is deleted.
pub open spec fn kv_operation_of(d: Delta<Trade>) -> (Seq<char>, Seq<u8>, u64, i32) {
    if d.operation == DeltaOperation::Delete {
        (d.key@, Seq::empty(), d.ordinal, 2i32)
    } else {
        (d.key@, trade_value_proto(d.new_value@), d.ordinal, 1i32)
    }
}

/// The key-value operations of the trade store's deltas, one per delta, in
/// order. A delta whose operation is unset is rejected.
pub fn kv_out(deltas: &Vec<Delta<Trade>>) -> (r: KvOperations)
    requires
        forall|i: int| 0 <= i < deltas@.len() ==> #[trigger] deltas@[i].operation != DeltaOperation::Unset,
    ensures
        kv_operations_contents(r) == deltas@.map_values(|d: Delta<Trade>| kv_operation_of(d)),
{
    let mut ops = new_kv_operations();
    let mut i: usize = 0;
    while i < deltas.len()
        invariant
            i <= deltas@.len(),
            forall|j: int| 0 <= j < deltas@.len() ==> #[trigger] deltas@[j].operation != DeltaOperation::Unset,
            kv_operations_contents(ops) == deltas@.subrange(0, i as int).map_values(
                |d: Delta<Trade>| kv_operation_of(d),
            ),
        decreases deltas@.len() - i,
    {
        let d = &deltas[i];
        match d.operation {
            DeltaOperation::Create | DeltaOperation::Update => {
                let value = encode_trade_value(&d.new_value);
                kv_push_new(&mut ops, d.key.as_str(), value.as_slice(), d.ordinal);
            },
            DeltaOperation::Delete => {
                kv_push_delete(&mut ops, d.key.as_str(), d.ordinal);
            },
            DeltaOperation::Unset => {
                assert(deltas@[i as int].operation != DeltaOperation::Unset);
            },
        }
        assert(deltas@.subrange(0, i + 1) =~= deltas@.subrange(0, i as int).push(deltas@[i as int]));
        assert(kv_operations_contents(ops) =~= deltas@.subrange(0, i + 1).map_values(
            |d: Delta<Trade>| kv_operation_of(d),
        ));
        i = i + 1;
    }
    assert(deltas@.subrange(0, deltas@.len() as int) =~= deltas@);
    ops
}

} // verus!
