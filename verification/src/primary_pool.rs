//! The primary pool module: pools created by the primary issue factory at
//! `0xDA13BC71FEe08FfD523f10458B0e2c2D8427BBD5`, the subscriptions made to
//! them, their store writes, key-value output and JSON-lines output.
use crate::abi::{
    address_at, decode_pool_created, decode_subscription, is_subscription, word_at,
};
use crate::block::{last_index, select_map, Block, Log};
use crate::hexstr::{
    hex_digit, hex_lower, pool_key, prefixed, prefixed_hex, prefixed_hex_lower, substreams_hex,
};
use crate::kv::{kv_operations_contents, kv_push_delete, kv_push_new, new_kv_operations};
use crate::pools::{pool_sets, pool_sets_spec, Delta, DeltaOperation, Pool, SetValue};
use crate::proto::{
    bytes_field, lemma_bytes_field_from, lemma_bytes_field_split, lemma_uint_field_from,
    lemma_uint_field_split, put_bytes_field, put_uint_field, uint_field,
};
use vstd::seq_lib::lemma_concat_associative;
use crate::tracker::{created_at, created_pool_at, created_pools, views};
use crate::uint::{be_value, decimal, uint_to_u64, word_decimal};
use substreams_sink_kv::pb::sf::substreams::sink::kv::v1::KvOperations;
use vstd::prelude::*;

verus! {

/// The address of the primary issue factory.
pub open spec fn factory_contract() -> Seq<u8> {
    seq![
        0xdau8, 0x13u8, 0xbcu8, 0x71u8, 0xfeu8, 0xe0u8, 0x8fu8, 0xfdu8, 0x52u8, 0x3fu8,
        0x10u8, 0x45u8, 0x8bu8, 0x0eu8, 0x2cu8, 0x2du8, 0x84u8, 0x27u8, 0xbbu8, 0xd5u8,
    ]
}

/// The address of the primary issue factory, as bytes.
pub fn factory_contract_bytes() -> (r: Vec<u8>)
    ensures
        r@ == factory_contract(),
{
    vec![
        0xdau8, 0x13u8, 0xbcu8, 0x71u8, 0xfeu8, 0xe0u8, 0x8fu8, 0xfdu8, 0x52u8, 0x3fu8,
        0x10u8, 0x45u8, 0x8bu8, 0x0eu8, 0x2cu8, 0x2du8, 0x84u8, 0x27u8, 0xbbu8, 0xd5u8,
    ]
}

/// The pools the factory creates in the block, in log order.
pub fn map_pools(blk: &Block) -> (r: Vec<Pool>)
    ensures
        views(r@) == select_map(
            blk.logs@.len(),
            created_at(*blk, factory_contract()),
            created_pool_at(*blk),
        ),
{
    let factory = factory_contract_bytes();
    created_pools(blk, &factory)
}

/// The store writes of the created pools: the `i`-th pool (from 0) at
/// ordinal `i + 1` under the hexadecimal text of its address.
pub fn store_pools_created(pools: Vec<Pool>) -> (r: Vec<SetValue<Pool>>)
    ensures
        pool_sets_spec(pools@, r@),
{
    pool_sets(pools)
}

/// A subscription, with its amounts as `u64`.
#[derive(Debug)]
pub struct Subscription {
    pub asset_in_address: Vec<u8>,
    pub asset_out_address: Vec<u8>,
    pub subscription_amount: u64,
    pub investor_address: Vec<u8>,
    pub price: u64,
    pub execution_date: u64,
}

/// The view of a [`Subscription`].
#[verifier::ext_equal]
pub struct SubscriptionValue {
    pub asset_in_address: Seq<u8>,
    pub asset_out_address: Seq<u8>,
    pub subscription_amount: u64,
    pub investor_address: Seq<u8>,
    pub price: u64,
    pub execution_date: u64,
}

impl View for Subscription {
    type V = SubscriptionValue;

    open spec fn view(&self) -> SubscriptionValue {
        SubscriptionValue {
            asset_in_address: self.asset_in_address@,
            asset_out_address: self.asset_out_address@,
            subscription_amount: self.subscription_amount,
            investor_address: self.investor_address@,
            price: self.price,
            execution_date: self.execution_date,
        }
    }
}

/// The empty subscription: no addresses, zero amounts.
pub open spec fn empty_subscription() -> SubscriptionValue {
    SubscriptionValue {
        asset_in_address: Seq::empty(),
        asset_out_address: Seq::empty(),
        subscription_amount: 0,
        investor_address: Seq::empty(),
        price: 0,
        execution_date: 0,
    }
}

impl Default for Subscription {
    fn default() -> (r: Self)
        ensures
            r@ == empty_subscription(),
    {
        Subscription {
            asset_in_address: Vec::new(),
            asset_out_address: Vec::new(),
            subscription_amount: 0,
            investor_address: Vec::new(),
            price: 0,
            execution_date: 0,
        }
    }
}

/// The amounts of the `Subscription` event in `log` fit in a `u64`.
pub open spec fn subscription_amounts_fit(log: Log) -> bool {
    &&& be_value(word_at(log.data@, 2)) <= u64::MAX
    &&& be_value(word_at(log.data@, 4)) <= u64::MAX
    &&& be_value(word_at(log.data@, 5)) <= u64::MAX
}

/// The subscription held by the `Subscription` event in `log`.
pub open spec fn subscription_of_log(log: Log) -> SubscriptionValue {
    SubscriptionValue {
        asset_in_address: address_at(log.data@, 0),
        asset_out_address: address_at(log.data@, 1),
        subscription_amount: be_value(word_at(log.data@, 2)) as u64,
        investor_address: address_at(log.data@, 3),
        price: be_value(word_at(log.data@, 4)) as u64,
        execution_date: be_value(word_at(log.data@, 5)) as u64,
    }
}

/// Call log `i` is a `Subscription` event of a known pool.
pub open spec fn known_subscription_call_at(blk: Block, known: Seq<bool>) -> spec_fn(
    int,
) -> bool {
    |i: int| known[i] && is_subscription(blk.call_logs@[i])
}

/// The subscription that [`map_subscriptions`] reports: that of the last
/// `Subscription` event of a known pool among the call logs, or the empty
/// subscription when there is none.
pub open spec fn last_subscription(blk: Block, known: Seq<bool>) -> SubscriptionValue {
    match last_index(blk.call_logs@.len(), known_subscription_call_at(blk, known)) {
        Some(i) => subscription_of_log(blk.call_logs@[i]),
        None => empty_subscription(),
    }
}

/// The last subscription made to a known pool in the block. `known[i]`
/// tells whether the emitter of `blk.call_logs[i]` is a known pool.
pub fn map_subscriptions(blk: &Block, known: &Vec<bool>) -> (r: Subscription)
    requires
        known@.len() == blk.call_logs@.len(),
        forall|i: int|
            0 <= i < known@.len() && known@[i] && is_subscription(#[trigger] blk.call_logs@[i])
                ==> subscription_amounts_fit(blk.call_logs@[i]),
    ensures
        r@ == last_subscription(*blk, known@),
{
    let mut out = Subscription::default();
    let mut i: usize = 0;
    while i < blk.call_logs.len()
        invariant
            i <= blk.call_logs@.len(),
            known@.len() == blk.call_logs@.len(),
            forall|j: int|
                0 <= j < known@.len() && known@[j] && is_subscription(#[trigger] blk.call_logs@[j])
                    ==> subscription_amounts_fit(blk.call_logs@[j]),
            out@ == match last_index(i as nat, known_subscription_call_at(*blk, known@)) {
                Some(j) => subscription_of_log(blk.call_logs@[j]),
                None => empty_subscription(),
            },
        decreases blk.call_logs@.len() - i,
    {
        let log = &blk.call_logs[i];
        if known[i] {
            if let Some(event) = decode_subscription(log) {
                assert(subscription_amounts_fit(blk.call_logs@[i as int]));
                out.asset_in_address = event.asset_in;
                out.asset_out_address = event.asset_out;
                out.subscription_amount = uint_to_u64(event.subscription.as_slice());
                out.investor_address = event.investor;
                out.price = uint_to_u64(event.price.as_slice());
                out.execution_date = uint_to_u64(event.execution_date.as_slice());
            }
        }
        i = i + 1;
    }
    out
}

/// The store write of the block's subscription: ordinal 1, key `73` (the
/// hexadecimal text of `s`).
pub fn store_subscription_created(subscriptions: Subscription) -> (r: SetValue<Subscription>)
    ensures
        r.ordinal == 1,
        r.key@ == seq!['7', '3'],
        r.value@ == subscriptions@,
{
    let s: Vec<u8> = vec![0x73u8];
    let key = substreams_hex(s.as_slice());
    proof {
        assert(s@.drop_last() =~= Seq::<u8>::empty());
        assert(hex_lower(s@.drop_last()) =~= Seq::<char>::empty());
        assert(s@.last() == 0x73u8);
        assert(hex_digit(0x73u8 as int / 16) == '7');
        assert(hex_digit(0x73u8 as int % 16) == '3');
        assert(hex_lower(s@) =~= seq!['7', '3']);
    }
    SetValue { ordinal: 1, key, value: subscriptions }
}

/// The check module's output: always the empty subscription.
pub fn map_subscriptions_check(blk: &Block) -> (r: Subscription)
    ensures
        r@ == empty_subscription(),
{
    Subscription::default()
}

/// Wire encoding of a subscription: `asset_in_address` = 1,
/// `asset_out_address` = 2, `subscription_amount` = 3, `investor_address` = 4,
/// `price` = 5, `execution_date` = 6.
pub open spec fn subscription_value_proto(v: SubscriptionValue) -> Seq<u8> {
    bytes_field(1, v.asset_in_address) + (
        bytes_field(2, v.asset_out_address) + (
        uint_field(3, v.subscription_amount as nat) + (
        bytes_field(4, v.investor_address) + (
        uint_field(5, v.price as nat) + (
        uint_field(6, v.execution_date as nat))))))
}

/// The encoding of a subscription determines it.
pub proof fn lemma_subscription_value_proto_injective(a: SubscriptionValue, b: SubscriptionValue)
    requires
        subscription_value_proto(a) == subscription_value_proto(b),
    ensures
        a == b,
{
    let e = Seq::<u8>::empty();
    let a6 = uint_field(6, a.execution_date as nat);
    assert(a6 + e =~= a6);
    let a5 = uint_field(5, a.price as nat) + a6;
    let a4 = bytes_field(4, a.investor_address) + a5;
    let a3 = uint_field(3, a.subscription_amount as nat) + a4;
    let a2 = bytes_field(2, a.asset_out_address) + a3;
    let a1 = bytes_field(1, a.asset_in_address) + a2;
    let b6 = uint_field(6, b.execution_date as nat);
    assert(b6 + e =~= b6);
    let b5 = uint_field(5, b.price as nat) + b6;
    let b4 = bytes_field(4, b.investor_address) + b5;
    let b3 = uint_field(3, b.subscription_amount as nat) + b4;
    let b2 = bytes_field(2, b.asset_out_address) + b3;
    let b1 = bytes_field(1, b.asset_in_address) + b2;
    lemma_uint_field_from(6, a.execution_date as nat, e);
    lemma_uint_field_from(5, a.price as nat, a6);
    lemma_bytes_field_from(4, a.investor_address, a5);
    lemma_uint_field_from(3, a.subscription_amount as nat, a4);
    lemma_bytes_field_from(2, a.asset_out_address, a3);
    lemma_bytes_field_from(1, a.asset_in_address, a2);
    lemma_uint_field_from(6, b.execution_date as nat, e);
    lemma_uint_field_from(5, b.price as nat, b6);
    lemma_bytes_field_from(4, b.investor_address, b5);
    lemma_uint_field_from(3, b.subscription_amount as nat, b4);
    lemma_bytes_field_from(2, b.asset_out_address, b3);
    lemma_bytes_field_from(1, b.asset_in_address, b2);
    lemma_bytes_field_split(1, a.asset_in_address, b.asset_in_address, a2, b2);
    lemma_bytes_field_split(2, a.asset_out_address, b.asset_out_address, a3, b3);
    lemma_uint_field_split(3, a.subscription_amount as nat, b.subscription_amount as nat, a4, b4);
    lemma_bytes_field_split(4, a.investor_address, b.investor_address, a5, b5);
    lemma_uint_field_split(5, a.price as nat, b.price as nat, a6, b6);
    lemma_uint_field_split(6, a.execution_date as nat, b.execution_date as nat, e, e);
    assert(a =~= b);
}

/// Encodes a subscription.
pub fn encode_subscription_value(s: &Subscription) -> (r: Vec<u8>)
    ensures
        r@ == subscription_value_proto(s@),
{
    let mut buf: Vec<u8> = Vec::new();
    let ghost g0 = buf@;
    put_bytes_field(&mut buf, 1, s.asset_in_address.as_slice());
    let ghost g1 = buf@;
    put_bytes_field(&mut buf, 2, s.asset_out_address.as_slice());
    let ghost g2 = buf@;
    put_uint_field(&mut buf, 3, s.subscription_amount);
    let ghost g3 = buf@;
    put_bytes_field(&mut buf, 4, s.investor_address.as_slice());
    let ghost g4 = buf@;
    put_uint_field(&mut buf, 5, s.price);
    let ghost g5 = buf@;
    put_uint_field(&mut buf, 6, s.execution_date);
    proof {
        let t6 = uint_field(6, s@.execution_date as nat);
        let t5 = uint_field(5, s@.price as nat) + t6;
        let t4 = bytes_field(4, s@.investor_address) + t5;
        let t3 = uint_field(3, s@.subscription_amount as nat) + t4;
        let t2 = bytes_field(2, s@.asset_out_address) + t3;
        let t1 = bytes_field(1, s@.asset_in_address) + t2;
        lemma_concat_associative(g4, uint_field(5, s@.price as nat), t6);
        lemma_concat_associative(g3, bytes_field(4, s@.investor_address), t5);
        lemma_concat_associative(g2, uint_field(3, s@.subscription_amount as nat), t4);
        lemma_concat_associative(g1, bytes_field(2, s@.asset_out_address), t3);
        lemma_concat_associative(g0, bytes_field(1, s@.asset_in_address), t2);
        assert(g0 + t1 =~= t1);
    }
    buf
}

/// The key-value operation of a store delta: a created or updated key is
/// set to the encoding of its new value; a deleted key is deleted.
pub open spec fn kv_operation_of(d: Delta<Subscription>) -> (Seq<char>, Seq<u8>, u64, i32) {
    if d.operation == DeltaOperation::Delete {
        (d.key@, Seq::empty(), d.ordinal, 2i32)
    } else {
        (d.key@, subscription_value_proto(d.new_value@), d.ordinal, 1i32)
    }
}

/// The key-value operations of the subscription store's deltas, one per
/// delta, in order. A delta whose operation is unset is rejected.
pub fn kv_out(deltas: &Vec<Delta<Subscription>>) -> (r: KvOperations)
    requires
        forall|i: int| 0 <= i < deltas@.len() ==> #[trigger] deltas@[i].operation != DeltaOperation::Unset,
    ensures
        kv_operations_contents(r) == deltas@.map_values(|d: Delta<Subscription>| kv_operation_of(d)),
{
    let mut ops = new_kv_operations();
    let mut i: usize = 0;
    while i < deltas.len()
        invariant
            i <= deltas@.len(),
            forall|j: int| 0 <= j < deltas@.len() ==> #[trigger] deltas@[j].operation != DeltaOperation::Unset,
            kv_operations_contents(ops) == deltas@.subrange(0, i as int).map_values(
                |d: Delta<Subscription>| kv_operation_of(d),
            ),
        decreases deltas@.len() - i,
    {
        let d = &deltas[i];
        let ghost before = kv_operations_contents(ops);
        match d.operation {
            DeltaOperation::Create | DeltaOperation::Update => {
                let value = encode_subscription_value(&d.new_value);
                kv_push_new(&mut ops, d.key.as_str(), value.as_slice(), d.ordinal);
            },
            DeltaOperation::Delete => {
                kv_push_delete(&mut ops, d.key.as_str(), d.ordinal);
            },
            DeltaOperation::Unset => {
                assert(deltas@[i as int].operation != DeltaOperation::Unset);
            },
        }
        assert(deltas@.subrange(0, i + 1) =~= deltas@.subrange(0, i as int).push(deltas@[i as int]));
        assert(kv_operations_contents(ops) =~= deltas@.subrange(0, i + 1).map_values(
            |d: Delta<Subscription>| kv_operation_of(d),
        ));
        i = i + 1;
    }
    assert(deltas@.subrange(0, deltas@.len() as int) =~= deltas@);
    ops
}

/// One line of the JSON-lines output: an event and the block it came from.
#[derive(Debug)]
pub struct JsonOutput {
    pub event_type: String,
    pub pool: Option<String>,
    pub asset_in: Option<String>,
    pub asset_out: Option<String>,
    pub subscription: Option<String>,
    pub investor: Option<String>,
    pub price: Option<String>,
    pub execution_date: Option<String>,
    pub block_number: Option<u64>,
    pub timestamp: Option<u64>,
}

/// The view of a [`JsonOutput`].
#[verifier::ext_equal]
pub struct JsonOutputView {
    pub event_type: Seq<char>,
    pub pool: Option<Seq<char>>,
    pub asset_in: Option<Seq<char>>,
    pub asset_out: Option<Seq<char>>,
    pub subscription: Option<Seq<char>>,
    pub investor: Option<Seq<char>>,
    pub price: Option<Seq<char>>,
    pub execution_date: Option<Seq<char>>,
    pub block_number: Option<u64>,
    pub timestamp: Option<u64>,
}

/// The view of an optional text.
pub open spec fn text_view(t: Option<String>) -> Option<Seq<char>> {
    match t {
        Some(s) => Some(s@),
        None => None,
    }
}

impl View for JsonOutput {
    type V = JsonOutputView;

    open spec fn view(&self) -> JsonOutputView {
        JsonOutputView {
            event_type: self.event_type@,
            pool: text_view(self.pool),
            asset_in: text_view(self.asset_in),
            asset_out: text_view(self.asset_out),
            subscription: text_view(self.subscription),
            investor: text_view(self.investor),
            price: text_view(self.price),
            execution_date: text_view(self.execution_date),
            block_number: self.block_number,
            timestamp: self.timestamp,
        }
    }
}

/// The line of a pool creation held by `log`: the pool as `0x`-prefixed
/// hexadecimal text, the block number and the block time in seconds.
pub open spec fn pool_line_view(blk: Block, log: Log) -> JsonOutputView {
    JsonOutputView {
        event_type: "PoolCreated"@,
        pool: Some(prefixed_hex_lower(address_at(log.data@, 0))),
        asset_in: None,
        asset_out: None,
        subscription: None,
        investor: None,
        price: None,
        execution_date: None,
        block_number: Some(blk.number),
        timestamp: Some(blk.timestamp.seconds as u64),
    }
}

/// The line of the pool creation in log `i`.
pub open spec fn pool_json_at(blk: Block) -> spec_fn(int) -> JsonOutputView {
    |i: int| pool_line_view(blk, blk.logs@[i])
}

/// The line of the subscription in call log `i`: addresses as `0x`-prefixed
/// hexadecimal text, amounts as decimal text.
pub open spec fn subscription_json_at(blk: Block) -> spec_fn(int) -> JsonOutputView {
    |i: int|
        {
            let log = blk.call_logs@[i];
            JsonOutputView {
                event_type: "Subscription"@,
                pool: Some(prefixed_hex_lower(log.address@)),
                asset_in: Some(prefixed_hex_lower(address_at(log.data@, 0))),
                asset_out: Some(prefixed_hex_lower(address_at(log.data@, 1))),
                subscription: Some(decimal(be_value(word_at(log.data@, 2)))),
                investor: Some(prefixed_hex_lower(address_at(log.data@, 3))),
                price: Some(decimal(be_value(word_at(log.data@, 4)))),
                execution_date: Some(decimal(be_value(word_at(log.data@, 5)))),
                block_number: Some(blk.number),
                timestamp: Some(blk.timestamp.seconds as u64),
            }
        }
}

/// The lines of the block: first one per pool the factory creates (receipt
/// logs, in order), then one per subscription to a known pool (call logs,
/// in order). `known[i]` tells whether the emitter of `blk.call_logs[i]` is a
/// known pool.
pub open spec fn block_lines(blk: Block, known: Seq<bool>) -> Seq<JsonOutputView> {
    select_map(blk.logs@.len(), created_at(blk, factory_contract()), pool_json_at(blk))
        + select_map(
        blk.call_logs@.len(),
        known_subscription_call_at(blk, known),
        subscription_json_at(blk),
    )
}

fn pool_line(blk: &Block, log: &Log, pool: &Vec<u8>) -> (r: JsonOutput)
    requires
        pool@ == address_at(log.data@, 0),
    ensures
        r@ == pool_line_view(*blk, *log),
{
    JsonOutput {
        event_type: String::from_str("PoolCreated"),
        pool: Some(prefixed_hex(pool.as_slice())),
        asset_in: None,
        asset_out: None,
        subscription: None,
        investor: None,
        price: None,
        execution_date: None,
        block_number: Some(blk.number),
        timestamp: Some(blk.timestamp.seconds as u64),
    }
}

/// The JSON-lines records of the block (see [`block_lines`]).
pub fn get_events(blk: &Block, known: &Vec<bool>) -> (r: Vec<JsonOutput>)
    requires
        known@.len() == blk.call_logs@.len(),
    ensures
        views(r@) == block_lines(*blk, known@),
{
    let factory = factory_contract_bytes();
    let mut pools: Vec<JsonOutput> = Vec::new();
    let mut i: usize = 0;
    while i < blk.logs.len()
        invariant
            i <= blk.logs@.len(),
            factory@ == factory_contract(),
            views(pools@) == select_map(
                i as nat,
                created_at(*blk, factory_contract()),
                pool_json_at(*blk),
            ),
        decreases blk.logs@.len() - i,
    {
        let log = &blk.logs[i];
        if crate::abi::bytes_eq(log.address.as_slice(), factory.as_slice()) {
            if let Some(event) = decode_pool_created(log) {
                let line = pool_line(blk, log, &event.pool);
                let ghost before = pools@;
                pools.push(line);
                assert(views(pools@) =~= views(before).push(line@));
            }
        }
        i = i + 1;
    }
    let mut subs: Vec<JsonOutput> = Vec::new();
    let mut k: usize = 0;
    while k < blk.call_logs.len()
        invariant
            k <= blk.call_logs@.len(),
            known@.len() == blk.call_logs@.len(),
            views(subs@) == select_map(
                k as nat,
                known_subscription_call_at(*blk, known@),
                subscription_json_at(*blk),
            ),
        decreases blk.call_logs@.len() - k,
    {
        let log = &blk.call_logs[k];
        if known[k] {
            if let Some(event) = decode_subscription(log) {
                let pool_address = pool_key(log.address.as_slice());
                let line = JsonOutput {
                    event_type: String::from_str("Subscription"),
                    pool: Some(prefixed(&pool_address)),
                    asset_in: Some(prefixed_hex(event.asset_in.as_slice())),
                    asset_out: Some(prefixed_hex(event.asset_out.as_slice())),
                    subscription: Some(word_decimal(&event.subscription)),
                    investor: Some(prefixed_hex(event.investor.as_slice())),
                    price: Some(word_decimal(&event.price)),
                    execution_date: Some(word_decimal(&event.execution_date)),
                    block_number: Some(blk.number),
                    timestamp: Some(blk.timestamp.seconds as u64),
                };
                let ghost before = subs@;
                subs.push(line);
                assert(views(subs@) =~= views(before).push(line@));
            }
        }
        k = k + 1;
    }
    let ghost p = pools@;
    let ghost s = subs@;
    pools.append(&mut subs);
    assert(views(pools@) =~= views(p) + views(s));
    pools
}

} // verus!
