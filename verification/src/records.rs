//! Output records of the pool-factory modules: one per matched event, with
//! the transaction, the log and the block it came from. Each record has a
//! mathematical view and a Protocol Buffers encoding.
use crate::abi::{
    address_at, subscription_of, trade_report_of, word_at, PoolCreated, SubscriptionEvent,
    TradeReportEvent,
};
use crate::block::{Block, Log, Timestamp};
use crate::hexstr::{hex_lower, substreams_hex};
use crate::proto::{
    lemma_bytes_field_from, lemma_bytes_field_split, lemma_message_field_from,
    lemma_message_field_split, lemma_string_field_from, lemma_string_field_split,
    lemma_timestamp_message_injective, lemma_uint_field_from, lemma_uint_field_split,
    bytes_field, encode_timestamp, message_field, put_bytes_field, put_message_field,
    put_string_field, put_uint_field, string_field, timestamp_message, uint_field,
};
use crate::uint::{be_value, decimal, word_decimal};
use vstd::prelude::*;
use vstd::seq_lib::lemma_concat_associative;

verus! {

/// A pool created by a factory.
#[derive(Debug)]
pub struct PoolCreatedRecord {
    pub evt_tx_hash: String,
    pub evt_index: u32,
    pub evt_block_time: Timestamp,
    pub evt_block_number: u64,
    pub pool: Vec<u8>,
}

/// The view of a [`PoolCreatedRecord`].
#[verifier::ext_equal]
pub struct PoolCreatedView {
    pub evt_tx_hash: Seq<char>,
    pub evt_index: u32,
    pub evt_block_time: Timestamp,
    pub evt_block_number: u64,
    pub pool: Seq<u8>,
}

impl View for PoolCreatedRecord {
    type V = PoolCreatedView;

    open spec fn view(&self) -> PoolCreatedView {
        PoolCreatedView {
            evt_tx_hash: self.evt_tx_hash@,
            evt_index: self.evt_index,
            evt_block_time: self.evt_block_time,
            evt_block_number: self.evt_block_number,
            pool: self.pool@,
        }
    }
}

/// The record of the `PoolCreated` event held by `log`.
pub open spec fn pool_created_view(blk: Block, log: Log) -> PoolCreatedView {
    PoolCreatedView {
        evt_tx_hash: hex_lower(log.tx_hash@),
        evt_index: log.block_index,
        evt_block_time: blk.timestamp,
        evt_block_number: blk.number,
        pool: address_at(log.data@, 0),
    }
}

/// Builds the record of a decoded `PoolCreated` event.
pub fn pool_created_record(blk: &Block, log: &Log, event: PoolCreated) -> (r: PoolCreatedRecord)
    requires
        event.pool@ == address_at(log.data@, 0),
    ensures
        r@ == pool_created_view(*blk, *log),
{
    PoolCreatedRecord {
        evt_tx_hash: substreams_hex(log.tx_hash.as_slice()),
        evt_index: log.block_index,
        evt_block_time: blk.timestamp,
        evt_block_number: blk.number,
        pool: event.pool,
    }
}

/// A subscription to a primary pool.
#[derive(Debug)]
pub struct SubscriptionRecord {
    pub evt_tx_hash: String,
    pub evt_index: u32,
    pub evt_block_time: Timestamp,
    pub evt_block_number: u64,
    pub evt_address: String,
    pub asset_in: Vec<u8>,
    pub asset_out: Vec<u8>,
    pub execution_date: String,
    pub investor: Vec<u8>,
    pub price: String,
    pub subscription: String,
}

/// The view of a [`SubscriptionRecord`].
#[verifier::ext_equal]
pub struct SubscriptionView {
    pub evt_tx_hash: Seq<char>,
    pub evt_index: u32,
    pub evt_block_time: Timestamp,
    pub evt_block_number: u64,
    pub evt_address: Seq<char>,
    pub asset_in: Seq<u8>,
    pub asset_out: Seq<u8>,
    pub execution_date: Seq<char>,
    pub investor: Seq<u8>,
    pub price: Seq<char>,
    pub subscription: Seq<char>,
}

impl View for SubscriptionRecord {
    type V = SubscriptionView;

    open spec fn view(&self) -> SubscriptionView {
        SubscriptionView {
            evt_tx_hash: self.evt_tx_hash@,
            evt_index: self.evt_index,
            evt_block_time: self.evt_block_time,
            evt_block_number: self.evt_block_number,
            evt_address: self.evt_address@,
            asset_in: self.asset_in@,
            asset_out: self.asset_out@,
            execution_date: self.execution_date@,
            investor: self.investor@,
            price: self.price@,
            subscription: self.subscription@,
        }
    }
}

/// The record of the `Subscription` event held by `log`: addresses as
/// bytes, amounts as decimal text.
pub open spec fn subscription_view(blk: Block, log: Log) -> SubscriptionView {
    SubscriptionView {
        evt_tx_hash: hex_lower(log.tx_hash@),
        evt_index: log.block_index,
        evt_block_time: blk.timestamp,
        evt_block_number: blk.number,
        evt_address: hex_lower(log.address@),
        asset_in: address_at(log.data@, 0),
        asset_out: address_at(log.data@, 1),
        execution_date: decimal(be_value(word_at(log.data@, 5))),
        investor: address_at(log.data@, 3),
        price: decimal(be_value(word_at(log.data@, 4))),
        subscription: decimal(be_value(word_at(log.data@, 2))),
    }
}

/// Builds the record of a decoded `Subscription` event.
pub fn subscription_record(blk: &Block, log: &Log, event: SubscriptionEvent) -> (r:
    SubscriptionRecord)
    requires
        subscription_of(event, *log),
    ensures
        r@ == subscription_view(*blk, *log),
{
    let execution_date = word_decimal(&event.execution_date);
    let price = word_decimal(&event.price);
    let subscription = word_decimal(&event.subscription);
    SubscriptionRecord {
        evt_tx_hash: substreams_hex(log.tx_hash.as_slice()),
        evt_index: log.block_index,
        evt_block_time: blk.timestamp,
        evt_block_number: blk.number,
        evt_address: substreams_hex(log.address.as_slice()),
        asset_in: event.asset_in,
        asset_out: event.asset_out,
        execution_date,
        investor: event.investor,
        price,
        subscription,
    }
}

/// A trade reported by a secondary or margin pool.
#[derive(Debug)]
pub struct TradeReportRecord {
    pub evt_tx_hash: String,
    pub evt_index: u32,
    pub evt_block_time: Timestamp,
    pub evt_block_number: u64,
    pub evt_address: String,
    pub amount: String,
    pub counterparty: Vec<u8>,
    pub currency: Vec<u8>,
    pub execution_date: String,
    pub order_ref: Vec<u8>,
    pub order_type: Vec<u8>,
    pub party: Vec<u8>,
    pub price: String,
    pub security: Vec<u8>,
}

/// The view of a [`TradeReportRecord`].
#[verifier::ext_equal]
pub struct TradeReportView {
    pub evt_tx_hash: Seq<char>,
    pub evt_index: u32,
    pub evt_block_time: Timestamp,
    pub evt_block_number: u64,
    pub evt_address: Seq<char>,
    pub amount: Seq<char>,
    pub counterparty: Seq<u8>,
    pub currency: Seq<u8>,
    pub execution_date: Seq<char>,
    pub order_ref: Seq<u8>,
    pub order_type: Seq<u8>,
    pub party: Seq<u8>,
    pub price: Seq<char>,
    pub security: Seq<u8>,
}

impl View for TradeReportRecord {
    type V = TradeReportView;

    open spec fn view(&self) -> TradeReportView {
        TradeReportView {
            evt_tx_hash: self.evt_tx_hash@,
            evt_index: self.evt_index,
            evt_block_time: self.evt_block_time,
            evt_block_number: self.evt_block_number,
            evt_address: self.evt_address@,
            amount: self.amount@,
            counterparty: self.counterparty@,
            currency: self.currency@,
            execution_date: self.execution_date@,
            order_ref: self.order_ref@,
            order_type: self.order_type@,
            party: self.party@,
            price: self.price@,
            security: self.security@,
        }
    }
}

/// The record of the trade report held by `log`: addresses and references
/// as bytes, amounts as decimal text.
pub open spec fn trade_report_view(blk: Block, log: Log) -> TradeReportView {
    TradeReportView {
        evt_tx_hash: hex_lower(log.tx_hash@),
        evt_index: log.block_index,
        evt_block_time: blk.timestamp,
        evt_block_number: blk.number,
        evt_address: hex_lower(log.address@),
        amount: decimal(be_value(word_at(log.data@, 7))),
        counterparty: address_at(log.data@, 3),
        currency: address_at(log.data@, 6),
        execution_date: decimal(be_value(word_at(log.data@, 8))),
        order_ref: word_at(log.data@, 1),
        order_type: word_at(log.data@, 4),
        party: address_at(log.data@, 2),
        price: decimal(be_value(word_at(log.data@, 5))),
        security: address_at(log.data@, 0),
    }
}

/// Builds the record of a decoded trade report.
pub fn trade_report_record(blk: &Block, log: &Log, event: TradeReportEvent) -> (r:
    TradeReportRecord)
    requires
        trade_report_of(event, *log),
    ensures
        r@ == trade_report_view(*blk, *log),
{
    let amount = word_decimal(&event.amount);
    let execution_date = word_decimal(&event.execution_date);
    let price = word_decimal(&event.price);
    TradeReportRecord {
        evt_tx_hash: substreams_hex(log.tx_hash.as_slice()),
        evt_index: log.block_index,
        evt_block_time: blk.timestamp,
        evt_block_number: blk.number,
        evt_address: substreams_hex(log.address.as_slice()),
        amount,
        counterparty: event.counterparty,
        currency: event.currency,
        execution_date,
        order_ref: event.order_ref,
        order_type: event.order_type,
        party: event.party,
        price,
        security: event.security,
    }
}

/// Wire encoding of a pool-creation record: `evt_tx_hash` = 1,
/// `evt_index` = 2, `evt_block_time` = 3, `evt_block_number` = 4, `pool` = 5.
pub open spec fn pool_created_proto(v: PoolCreatedView) -> Seq<u8> {
    string_field(1, v.evt_tx_hash) + (
        uint_field(2, v.evt_index as nat) + (
        message_field(3, timestamp_message(v.evt_block_time)) + (
        uint_field(4, v.evt_block_number as nat) + (
        bytes_field(5, v.pool)))))
}

/// Wire encoding of a subscription record: the event fields 1 to 4 as for
/// pool creation, then `evt_address` = 5, `asset_in` = 6, `asset_out` = 7,
/// `execution_date` = 8, `investor` = 9, `price` = 10, `subscription` = 11.
pub open spec fn subscription_proto(v: SubscriptionView) -> Seq<u8> {
    string_field(1, v.evt_tx_hash) + (
        uint_field(2, v.evt_index as nat) + (
        message_field(3, timestamp_message(v.evt_block_time)) + (
        uint_field(4, v.evt_block_number as nat) + (
        string_field(5, v.evt_address) + (
        bytes_field(6, v.asset_in) + (
        bytes_field(7, v.asset_out) + (
        string_field(8, v.execution_date) + (
        bytes_field(9, v.investor) + (
        string_field(10, v.price) + (
        string_field(11, v.subscription)))))))))))
}

/// Wire encoding of a trade report record: the event fields 1 to 4 as for
/// pool creation, then `evt_address` = 5, `amount` = 6, `counterparty` = 7,
/// `currency` = 8, `execution_date` = 9, `order_ref` = 10, `order_type` = 11,
/// `party` = 12, `price` = 13, `security` = 14.
pub open spec fn trade_report_proto(v: TradeReportView) -> Seq<u8> {
    string_field(1, v.evt_tx_hash) + (
        uint_field(2, v.evt_index as nat) + (
        message_field(3, timestamp_message(v.evt_block_time)) + (
        uint_field(4, v.evt_block_number as nat) + (
        string_field(5, v.evt_address) + (
        string_field(6, v.amount) + (
        bytes_field(7, v.counterparty) + (
        bytes_field(8, v.currency) + (
        string_field(9, v.execution_date) + (
        bytes_field(10, v.order_ref) + (
        bytes_field(11, v.order_type) + (
        bytes_field(12, v.party) + (
        string_field(13, v.price) + (
        bytes_field(14, v.security))))))))))))))
}

/// Encodes a pool-creation record.
pub fn encode_pool_created(r: &PoolCreatedRecord) -> (out: Vec<u8>)
    ensures
        out@ == pool_created_proto(r@),
{
    let mut buf: Vec<u8> = Vec::new();
    let ghost g0 = buf@;
    put_string_field(&mut buf, 1, &r.evt_tx_hash);
    let ghost g1 = buf@;
    put_uint_field(&mut buf, 2, r.evt_index as u64);
    let ghost g2 = buf@;
    let ts = encode_timestamp(r.evt_block_time);
    put_message_field(&mut buf, 3, &ts);
    let ghost g3 = buf@;
    put_uint_field(&mut buf, 4, r.evt_block_number);
    let ghost g4 = buf@;
    put_bytes_field(&mut buf, 5, r.pool.as_slice());
    proof {
        let t5 = bytes_field(5, r@.pool);
        let t4 = uint_field(4, r@.evt_block_number as nat) + t5;
        let t3 = message_field(3, timestamp_message(r@.evt_block_time)) + t4;
        let t2 = uint_field(2, r@.evt_index as nat) + t3;
        let t1 = string_field(1, r@.evt_tx_hash) + t2;
        lemma_concat_associative(g3, uint_field(4, r@.evt_block_number as nat), t5);
        lemma_concat_associative(g2, message_field(3, timestamp_message(r@.evt_block_time)), t4);
        lemma_concat_associative(g1, uint_field(2, r@.evt_index as nat), t3);
        lemma_concat_associative(g0, string_field(1, r@.evt_tx_hash), t2);
        assert(g0 + t1 =~= t1);
        assert(t1 == pool_created_proto(r@));
    }
    buf
}

/// Encodes a subscription record.
pub fn encode_subscription(r: &SubscriptionRecord) -> (out: Vec<u8>)
    ensures
        out@ == subscription_proto(r@),
{
    let mut buf: Vec<u8> = Vec::new();
    let ghost g0 = buf@;
    put_string_field(&mut buf, 1, &r.evt_tx_hash);
    let ghost g1 = buf@;
    put_uint_field(&mut buf, 2, r.evt_index as u64);
    let ghost g2 = buf@;
    let ts = encode_timestamp(r.evt_block_time);
    put_message_field(&mut buf, 3, &ts);
    let ghost g3 = buf@;
    put_uint_field(&mut buf, 4, r.evt_block_number);
    let ghost g4 = buf@;
    put_string_field(&mut buf, 5, &r.evt_address);
    let ghost g5 = buf@;
    put_bytes_field(&mut buf, 6, r.asset_in.as_slice());
    let ghost g6 = buf@;
    put_bytes_field(&mut buf, 7, r.asset_out.as_slice());
    let ghost g7 = buf@;
    put_string_field(&mut buf, 8, &r.execution_date);
    let ghost g8 = buf@;
    put_bytes_field(&mut buf, 9, r.investor.as_slice());
    let ghost g9 = buf@;
    put_string_field(&mut buf, 10, &r.price);
    let ghost g10 = buf@;
    put_string_field(&mut buf, 11, &r.subscription);
    proof {
        let t11 = string_field(11, r@.subscription);
        let t10 = string_field(10, r@.price) + t11;
        let t9 = bytes_field(9, r@.investor) + t10;
        let t8 = string_field(8, r@.execution_date) + t9;
        let t7 = bytes_field(7, r@.asset_out) + t8;
        let t6 = bytes_field(6, r@.asset_in) + t7;
        let t5 = string_field(5, r@.evt_address) + t6;
        let t4 = uint_field(4, r@.evt_block_number as nat) + t5;
        let t3 = message_field(3, timestamp_message(r@.evt_block_time)) + t4;
        let t2 = uint_field(2, r@.evt_index as nat) + t3;
        let t1 = string_field(1, r@.evt_tx_hash) + t2;
        lemma_concat_associative(g9, string_field(10, r@.price), t11);
        lemma_concat_associative(g8, bytes_field(9, r@.investor), t10);
        lemma_concat_associative(g7, string_field(8, r@.execution_date), t9);
        lemma_concat_associative(g6, bytes_field(7, r@.asset_out), t8);
        lemma_concat_associative(g5, bytes_field(6, r@.asset_in), t7);
        lemma_concat_associative(g4, string_field(5, r@.evt_address), t6);
        lemma_concat_associative(g3, uint_field(4, r@.evt_block_number as nat), t5);
        lemma_concat_associative(g2, message_field(3, timestamp_message(r@.evt_block_time)), t4);
        lemma_concat_associative(g1, uint_field(2, r@.evt_index as nat), t3);
        lemma_concat_associative(g0, string_field(1, r@.evt_tx_hash), t2);
        assert(g0 + t1 =~= t1);
        assert(t1 == subscription_proto(r@));
    }
    buf
}

/// Encodes a trade report record.
pub fn encode_trade_report(r: &TradeReportRecord) -> (out: Vec<u8>)
    ensures
        out@ == trade_report_proto(r@),
{
    let mut buf: Vec<u8> = Vec::new();
    let ghost g0 = buf@;
    put_string_field(&mut buf, 1, &r.evt_tx_hash);
    let ghost g1 = buf@;
    put_uint_field(&mut buf, 2, r.evt_index as u64);
    let ghost g2 = buf@;
    let ts = encode_timestamp(r.evt_block_time);
    put_message_field(&mut buf, 3, &ts);
    let ghost g3 = buf@;
    put_uint_field(&mut buf, 4, r.evt_block_number);
    let ghost g4 = buf@;
    put_string_field(&mut buf, 5, &r.evt_address);
    let ghost g5 = buf@;
    put_string_field(&mut buf, 6, &r.amount);
    let ghost g6 = buf@;
    put_bytes_field(&mut buf, 7, r.counterparty.as_slice());
    let ghost g7 = buf@;
    put_bytes_field(&mut buf, 8, r.currency.as_slice());
    let ghost g8 = buf@;
    put_string_field(&mut buf, 9, &r.execution_date);
    let ghost g9 = buf@;
    put_bytes_field(&mut buf, 10, r.order_ref.as_slice());
    let ghost g10 = buf@;
    put_bytes_field(&mut buf, 11, r.order_type.as_slice());
    let ghost g11 = buf@;
    put_bytes_field(&mut buf, 12, r.party.as_slice());
    let ghost g12 = buf@;
    put_string_field(&mut buf, 13, &r.price);
    let ghost g13 = buf@;
    put_bytes_field(&mut buf, 14, r.security.as_slice());
    proof {
        let t14 = bytes_field(14, r@.security);
        let t13 = string_field(13, r@.price) + t14;
        let t12 = bytes_field(12, r@.party) + t13;
        let t11 = bytes_field(11, r@.order_type) + t12;
        let t10 = bytes_field(10, r@.order_ref) + t11;
        let t9 = string_field(9, r@.execution_date) + t10;
        let t8 = bytes_field(8, r@.currency) + t9;
        let t7 = bytes_field(7, r@.counterparty) + t8;
        let t6 = string_field(6, r@.amount) + t7;
        let t5 = string_field(5, r@.evt_address) + t6;
        let t4 = uint_field(4, r@.evt_block_number as nat) + t5;
        let t3 = message_field(3, timestamp_message(r@.evt_block_time)) + t4;
        let t2 = uint_field(2, r@.evt_index as nat) + t3;
        let t1 = string_field(1, r@.evt_tx_hash) + t2;
        lemma_concat_associative(g12, string_field(13, r@.price), t14);
        lemma_concat_associative(g11, bytes_field(12, r@.party), t13);
        lemma_concat_associative(g10, bytes_field(11, r@.order_type), t12);
        lemma_concat_associative(g9, bytes_field(10, r@.order_ref), t11);
        lemma_concat_associative(g8, string_field(9, r@.execution_date), t10);
        lemma_concat_associative(g7, bytes_field(8, r@.currency), t9);
        lemma_concat_associative(g6, bytes_field(7, r@.counterparty), t8);
        lemma_concat_associative(g5, string_field(6, r@.amount), t7);
        lemma_concat_associative(g4, string_field(5, r@.evt_address), t6);
        lemma_concat_associative(g3, uint_field(4, r@.evt_block_number as nat), t5);
        lemma_concat_associative(g2, message_field(3, timestamp_message(r@.evt_block_time)), t4);
        lemma_concat_associative(g1, uint_field(2, r@.evt_index as nat), t3);
        lemma_concat_associative(g0, string_field(1, r@.evt_tx_hash), t2);
        assert(g0 + t1 =~= t1);
        assert(t1 == trade_report_proto(r@));
    }
    buf
}

/// The encoding of a trade report record determines the record.
pub proof fn lemma_trade_report_proto_injective(a: TradeReportView, b: TradeReportView)
    requires
        trade_report_proto(a) == trade_report_proto(b),
    ensures
        a == b,
{
    let e = Seq::<u8>::empty();
    let a14 = bytes_field(14, a.security);
    assert(a14 + e =~= a14);
    let a13 = string_field(13, a.price) + a14;
    let a12 = bytes_field(12, a.party) + a13;
    let a11 = bytes_field(11, a.order_type) + a12;
    let a10 = bytes_field(10, a.order_ref) + a11;
    let a9 = string_field(9, a.execution_date) + a10;
    let a8 = bytes_field(8, a.currency) + a9;
    let a7 = bytes_field(7, a.counterparty) + a8;
    let a6 = string_field(6, a.amount) + a7;
    let a5 = string_field(5, a.evt_address) + a6;
    let a4 = uint_field(4, a.evt_block_number as nat) + a5;
    let a3 = message_field(3, timestamp_message(a.evt_block_time)) + a4;
    let a2 = uint_field(2, a.evt_index as nat) + a3;
    let a1 = string_field(1, a.evt_tx_hash) + a2;
    let b14 = bytes_field(14, b.security);
    assert(b14 + e =~= b14);
    let b13 = string_field(13, b.price) + b14;
    let b12 = bytes_field(12, b.party) + b13;
    let b11 = bytes_field(11, b.order_type) + b12;
    let b10 = bytes_field(10, b.order_ref) + b11;
    let b9 = string_field(9, b.execution_date) + b10;
    let b8 = bytes_field(8, b.currency) + b9;
    let b7 = bytes_field(7, b.counterparty) + b8;
    let b6 = string_field(6, b.amount) + b7;
    let b5 = string_field(5, b.evt_address) + b6;
    let b4 = uint_field(4, b.evt_block_number as nat) + b5;
    let b3 = message_field(3, timestamp_message(b.evt_block_time)) + b4;
    let b2 = uint_field(2, b.evt_index as nat) + b3;
    let b1 = string_field(1, b.evt_tx_hash) + b2;
    lemma_bytes_field_from(14, a.security, e);
    lemma_string_field_from(13, a.price, a14);
    lemma_bytes_field_from(12, a.party, a13);
    lemma_bytes_field_from(11, a.order_type, a12);
    lemma_bytes_field_from(10, a.order_ref, a11);
    lemma_string_field_from(9, a.execution_date, a10);
    lemma_bytes_field_from(8, a.currency, a9);
    lemma_bytes_field_from(7, a.counterparty, a8);
    lemma_string_field_from(6, a.amount, a7);
    lemma_string_field_from(5, a.evt_address, a6);
    lemma_uint_field_from(4, a.evt_block_number as nat, a5);
    lemma_message_field_from(3, timestamp_message(a.evt_block_time), a4);
    lemma_uint_field_from(2, a.evt_index as nat, a3);
    lemma_string_field_from(1, a.evt_tx_hash, a2);
    lemma_bytes_field_from(14, b.security, e);
    lemma_string_field_from(13, b.price, b14);
    lemma_bytes_field_from(12, b.party, b13);
    lemma_bytes_field_from(11, b.order_type, b12);
    lemma_bytes_field_from(10, b.order_ref, b11);
    lemma_string_field_from(9, b.execution_date, b10);
    lemma_bytes_field_from(8, b.currency, b9);
    lemma_bytes_field_from(7, b.counterparty, b8);
    lemma_string_field_from(6, b.amount, b7);
    lemma_string_field_from(5, b.evt_address, b6);
    lemma_uint_field_from(4, b.evt_block_number as nat, b5);
    lemma_message_field_from(3, timestamp_message(b.evt_block_time), b4);
    lemma_uint_field_from(2, b.evt_index as nat, b3);
    lemma_string_field_from(1, b.evt_tx_hash, b2);
    lemma_string_field_split(1, a.evt_tx_hash, b.evt_tx_hash, a2, b2);
    lemma_uint_field_split(2, a.evt_index as nat, b.evt_index as nat, a3, b3);
    lemma_message_field_split(3, timestamp_message(a.evt_block_time), timestamp_message(b.evt_block_time), a4, b4);
    lemma_timestamp_message_injective(a.evt_block_time, b.evt_block_time);
    lemma_uint_field_split(4, a.evt_block_number as nat, b.evt_block_number as nat, a5, b5);
    lemma_string_field_split(5, a.evt_address, b.evt_address, a6, b6);
    lemma_string_field_split(6, a.amount, b.amount, a7, b7);
    lemma_bytes_field_split(7, a.counterparty, b.counterparty, a8, b8);
    lemma_bytes_field_split(8, a.currency, b.currency, a9, b9);
    lemma_string_field_split(9, a.execution_date, b.execution_date, a10, b10);
    lemma_bytes_field_split(10, a.order_ref, b.order_ref, a11, b11);
    lemma_bytes_field_split(11, a.order_type, b.order_type, a12, b12);
    lemma_bytes_field_split(12, a.party, b.party, a13, b13);
    lemma_string_field_split(13, a.price, b.price, a14, b14);
    lemma_bytes_field_split(14, a.security, b.security, e, e);
    assert(a =~= b);
}

/// The encoding of a subscription record determines the record.
pub proof fn lemma_subscription_proto_injective(a: SubscriptionView, b: SubscriptionView)
    requires
        subscription_proto(a) == subscription_proto(b),
    ensures
        a == b,
{
    let e = Seq::<u8>::empty();
    let a11 = string_field(11, a.subscription);
    assert(a11 + e =~= a11);
    let a10 = string_field(10, a.price) + a11;
    let a9 = bytes_field(9, a.investor) + a10;
    let a8 = string_field(8, a.execution_date) + a9;
    let a7 = bytes_field(7, a.asset_out) + a8;
    let a6 = bytes_field(6, a.asset_in) + a7;
    let a5 = string_field(5, a.evt_address) + a6;
    let a4 = uint_field(4, a.evt_block_number as nat) + a5;
    let a3 = message_field(3, timestamp_message(a.evt_block_time)) + a4;
    let a2 = uint_field(2, a.evt_index as nat) + a3;
    let a1 = string_field(1, a.evt_tx_hash) + a2;
    let b11 = string_field(11, b.subscription);
    assert(b11 + e =~= b11);
    let b10 = string_field(10, b.price) + b11;
    let b9 = bytes_field(9, b.investor) + b10;
    let b8 = string_field(8, b.execution_date) + b9;
    let b7 = bytes_field(7, b.asset_out) + b8;
    let b6 = bytes_field(6, b.asset_in) + b7;
    let b5 = string_field(5, b.evt_address) + b6;
    let b4 = uint_field(4, b.evt_block_number as nat) + b5;
    let b3 = message_field(3, timestamp_message(b.evt_block_time)) + b4;
    let b2 = uint_field(2, b.evt_index as nat) + b3;
    let b1 = string_field(1, b.evt_tx_hash) + b2;
    lemma_string_field_from(11, a.subscription, e);
    lemma_string_field_from(10, a.price, a11);
    lemma_bytes_field_from(9, a.investor, a10);
    lemma_string_field_from(8, a.execution_date, a9);
    lemma_bytes_field_from(7, a.asset_out, a8);
    lemma_bytes_field_from(6, a.asset_in, a7);
    lemma_string_field_from(5, a.evt_address, a6);
    lemma_uint_field_from(4, a.evt_block_number as nat, a5);
    lemma_message_field_from(3, timestamp_message(a.evt_block_time), a4);
    lemma_uint_field_from(2, a.evt_index as nat, a3);
    lemma_string_field_from(1, a.evt_tx_hash, a2);
    lemma_string_field_from(11, b.subscription, e);
    lemma_string_field_from(10, b.price, b11);
    lemma_bytes_field_from(9, b.investor, b10);
    lemma_string_field_from(8, b.execution_date, b9);
    lemma_bytes_field_from(7, b.asset_out, b8);
    lemma_bytes_field_from(6, b.asset_in, b7);
    lemma_string_field_from(5, b.evt_address, b6);
    lemma_uint_field_from(4, b.evt_block_number as nat, b5);
    lemma_message_field_from(3, timestamp_message(b.evt_block_time), b4);
    lemma_uint_field_from(2, b.evt_index as nat, b3);
    lemma_string_field_from(1, b.evt_tx_hash, b2);
    lemma_string_field_split(1, a.evt_tx_hash, b.evt_tx_hash, a2, b2);
    lemma_uint_field_split(2, a.evt_index as nat, b.evt_index as nat, a3, b3);
    lemma_message_field_split(3, timestamp_message(a.evt_block_time), timestamp_message(b.evt_block_time), a4, b4);
    lemma_timestamp_message_injective(a.evt_block_time, b.evt_block_time);
    lemma_uint_field_split(4, a.evt_block_number as nat, b.evt_block_number as nat, a5, b5);
    lemma_string_field_split(5, a.evt_address, b.evt_address, a6, b6);
    lemma_bytes_field_split(6, a.asset_in, b.asset_in, a7, b7);
    lemma_bytes_field_split(7, a.asset_out, b.asset_out, a8, b8);
    lemma_string_field_split(8, a.execution_date, b.execution_date, a9, b9);
    lemma_bytes_field_split(9, a.investor, b.investor, a10, b10);
    lemma_string_field_split(10, a.price, b.price, a11, b11);
    lemma_string_field_split(11, a.subscription, b.subscription, e, e);
    assert(a =~= b);
}

} // verus!
