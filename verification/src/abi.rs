//! Events of the pool contracts, decoded from logs. Every parameter of these
//! events is static and not indexed: a log carries one topic, the event's
//! signature hash, and one 32-byte data word per parameter.
use crate::block::Log;
use vstd::prelude::*;
use vstd::slice::slice_subrange;

verus! {

/// The `i`-th 32-byte word of event data.
pub open spec fn word_at(data: Seq<u8>, i: int) -> Seq<u8> {
    data.subrange(32 * i, 32 * i + 32)
}

/// The address held in the `i`-th word of event data: the word's last 20 bytes.
pub open spec fn address_at(data: Seq<u8>, i: int) -> Seq<u8> {
    data.subrange(32 * i + 12, 32 * i + 32)
}

/// A log holds the event whose signature hash is `topic` and that has
/// `words` static, non-indexed parameters: one topic, equal to `topic`, and
/// exactly `words` data words.
pub open spec fn log_matches(log: Log, topic: Seq<u8>, words: nat) -> bool {
    &&& log.topics@.len() == 1
    &&& log.data@.len() == 32 * words
    &&& log.topics@[0]@ == topic
}

/// Keccak-256 of the signature `PoolCreated(address)`: the first topic of
/// `PoolCreated(address pool)`, emitted by a pool factory.
pub open spec fn pool_created_topic() -> Seq<u8> {
    seq![
        0x83u8, 0xa4u8, 0x8fu8, 0xbcu8, 0xfcu8, 0x99u8, 0x13u8, 0x35u8,
        0x31u8, 0x4eu8, 0x74u8, 0xd0u8, 0x49u8, 0x6au8, 0xabu8, 0x6au8,
        0x19u8, 0x87u8, 0xe9u8, 0x92u8, 0xddu8, 0xc8u8, 0x5du8, 0xddu8,
        0xbcu8, 0xc4u8, 0xd6u8, 0xddu8, 0x6eu8, 0xf2u8, 0xe9u8, 0xfcu8,
    ]
}

/// The first topic of `PoolCreated` events.
pub fn pool_created_topic_bytes() -> (r: Vec<u8>)
    ensures
        r@ == pool_created_topic(),
{
    vec![
        0x83u8, 0xa4u8, 0x8fu8, 0xbcu8, 0xfcu8, 0x99u8, 0x13u8, 0x35u8,
        0x31u8, 0x4eu8, 0x74u8, 0xd0u8, 0x49u8, 0x6au8, 0xabu8, 0x6au8,
        0x19u8, 0x87u8, 0xe9u8, 0x92u8, 0xddu8, 0xc8u8, 0x5du8, 0xddu8,
        0xbcu8, 0xc4u8, 0xd6u8, 0xddu8, 0x6eu8, 0xf2u8, 0xe9u8, 0xfcu8,
    ]
}

/// Keccak-256 of the signature `Subscription(address,address,uint256,address,uint256,uint256)`: the first topic of
/// `Subscription(address assetIn, address assetOut, uint256 subscription, address investor, uint256 price, uint256 executionDate)`, emitted by a primary pool.
pub open spec fn subscription_topic() -> Seq<u8> {
    seq![
        0x56u8, 0x0fu8, 0x9au8, 0x9au8, 0xa8u8, 0x40u8, 0x25u8, 0x7bu8,
        0x3fu8, 0x71u8, 0xf9u8, 0xf0u8, 0xccu8, 0x55u8, 0x27u8, 0x01u8,
        0x69u8, 0x40u8, 0x8du8, 0x78u8, 0x25u8, 0x95u8, 0xc4u8, 0x16u8,
        0xc1u8, 0x04u8, 0x2eu8, 0xccu8, 0xf7u8, 0x42u8, 0x6cu8, 0x9cu8,
    ]
}

/// The first topic of `Subscription` events.
pub fn subscription_topic_bytes() -> (r: Vec<u8>)
    ensures
        r@ == subscription_topic(),
{
    vec![
        0x56u8, 0x0fu8, 0x9au8, 0x9au8, 0xa8u8, 0x40u8, 0x25u8, 0x7bu8,
        0x3fu8, 0x71u8, 0xf9u8, 0xf0u8, 0xccu8, 0x55u8, 0x27u8, 0x01u8,
        0x69u8, 0x40u8, 0x8du8, 0x78u8, 0x25u8, 0x95u8, 0xc4u8, 0x16u8,
        0xc1u8, 0x04u8, 0x2eu8, 0xccu8, 0xf7u8, 0x42u8, 0x6cu8, 0x9cu8,
    ]
}

/// Keccak-256 of the signature `TradeReport(address,bytes32,address,address,bytes32,uint256,address,uint256,uint256)`: the first topic of
/// `TradeReport(address security, bytes32 orderRef, address party, address counterparty, bytes32 orderType, uint256 price, address currency, uint256 amount, uint256 executionDate)`, emitted by a secondary pool.
pub open spec fn trade_report_topic() -> Seq<u8> {
    seq![
        0xd6u8, 0xa8u8, 0x06u8, 0x53u8, 0x5eu8, 0xc4u8, 0xf1u8, 0x72u8,
        0x13u8, 0x9eu8, 0xdeu8, 0x2eu8, 0x9du8, 0x6bu8, 0xbbu8, 0xe2u8,
        0x09u8, 0x57u8, 0xcau8, 0x8au8, 0x45u8, 0x4fu8, 0xd4u8, 0x0cu8,
        0x97u8, 0x47u8, 0xfeu8, 0x13u8, 0x9eu8, 0xfeu8, 0x42u8, 0x47u8,
    ]
}

/// The first topic of `TradeReport` events.
pub fn trade_report_topic_bytes() -> (r: Vec<u8>)
    ensures
        r@ == trade_report_topic(),
{
    vec![
        0xd6u8, 0xa8u8, 0x06u8, 0x53u8, 0x5eu8, 0xc4u8, 0xf1u8, 0x72u8,
        0x13u8, 0x9eu8, 0xdeu8, 0x2eu8, 0x9du8, 0x6bu8, 0xbbu8, 0xe2u8,
        0x09u8, 0x57u8, 0xcau8, 0x8au8, 0x45u8, 0x4fu8, 0xd4u8, 0x0cu8,
        0x97u8, 0x47u8, 0xfeu8, 0x13u8, 0x9eu8, 0xfeu8, 0x42u8, 0x47u8,
    ]
}

/// Keccak-256 of the signature `MarginTradeReport(address,bytes32,address,address,bytes32,uint256,address,uint256,uint256)`: the first topic of
/// `MarginTradeReport(...)`, with the parameters of `TradeReport`, emitted by a margin pool.
pub open spec fn margin_trade_report_topic() -> Seq<u8> {
    seq![
        0x73u8, 0xd5u8, 0x87u8, 0x0eu8, 0xccu8, 0x5cu8, 0x28u8, 0x46u8,
        0x61u8, 0x06u8, 0xf0u8, 0x13u8, 0xbfu8, 0x01u8, 0x2du8, 0x6bu8,
        0xe5u8, 0xb2u8, 0x11u8, 0xd5u8, 0xe9u8, 0x69u8, 0xd5u8, 0x65u8,
        0xd4u8, 0xe1u8, 0xcfu8, 0x58u8, 0x3du8, 0x3eu8, 0x56u8, 0xf9u8,
    ]
}

/// The first topic of `MarginTradeReport` events.
pub fn margin_trade_report_topic_bytes() -> (r: Vec<u8>)
    ensures
        r@ == margin_trade_report_topic(),
{
    vec![
        0x73u8, 0xd5u8, 0x87u8, 0x0eu8, 0xccu8, 0x5cu8, 0x28u8, 0x46u8,
        0x61u8, 0x06u8, 0xf0u8, 0x13u8, 0xbfu8, 0x01u8, 0x2du8, 0x6bu8,
        0xe5u8, 0xb2u8, 0x11u8, 0xd5u8, 0xe9u8, 0x69u8, 0xd5u8, 0x65u8,
        0xd4u8, 0xe1u8, 0xcfu8, 0x58u8, 0x3du8, 0x3eu8, 0x56u8, 0xf9u8,
    ]
}

/// The static parameter types of the events.
#[derive(Clone, Copy, PartialEq, Eq, Debug)]
pub enum WordKind {
    Address,
    Uint256,
    Bytes32,
}

/// What `ethabi` decodes from a word of kind `kind`: the last 20 bytes for
/// an address, the whole 32 bytes otherwise.
pub open spec fn decoded_word(kind: WordKind, word: Seq<u8>) -> Seq<u8> {
    match kind {
        WordKind::Address => word.subrange(12, 32),
        _ => word.subrange(0, 32),
    }
}

/// `ethabi::decode` with a single static parameter type. The source reads
/// the first 32-byte word of the input: for `address` it keeps the word's
/// last 20 bytes, for `uint256` it reads the word as a big-endian number
/// (written back big-endian, the same 32 bytes), for `bytes32` it takes the
/// 32 bytes. An input shorter than 32 bytes (the empty one included) is an
/// error.
#[verifier::external_body]
fn abi_decode_word(kind: WordKind, word: &[u8]) -> (r: Option<Vec<u8>>)
    ensures
        r is Some <==> word@.len() >= 32,
        r matches Some(v) ==> v@ == decoded_word(kind, word@),
{
    let param = match kind {
        WordKind::Address => ethabi::ParamType::Address,
        WordKind::Uint256 => ethabi::ParamType::Uint(256),
        WordKind::Bytes32 => ethabi::ParamType::FixedBytes(32),
    };
    match ethabi::decode(&[param], word).map(|tokens| tokens.into_iter().next()) {
        Ok(Some(ethabi::Token::Address(a))) => Some(a.as_bytes().to_vec()),
        Ok(Some(ethabi::Token::Uint(u))) => Some(<[u8; 32]>::from(u).to_vec()),
        Ok(Some(ethabi::Token::FixedBytes(b))) => Some(b),
        _ => None,
    }
}

fn address_word(data: &Vec<u8>, i: usize) -> (r: Vec<u8>)
    requires
        i < 16,
        32 * i + 32 <= data@.len(),
    ensures
        r@ == address_at(data@, i as int),
{
    let w = slice_subrange(data.as_slice(), 32 * i, 32 * i + 32);
    let r = abi_decode_word(WordKind::Address, w);
    assert(w@.subrange(12, 32) =~= address_at(data@, i as int));
    r.unwrap()
}

fn uint_word(data: &Vec<u8>, i: usize) -> (r: Vec<u8>)
    requires
        i < 16,
        32 * i + 32 <= data@.len(),
    ensures
        r@ == word_at(data@, i as int),
{
    let w = slice_subrange(data.as_slice(), 32 * i, 32 * i + 32);
    let r = abi_decode_word(WordKind::Uint256, w);
    assert(w@.subrange(0, 32) =~= word_at(data@, i as int));
    r.unwrap()
}

fn bytes32_word(data: &Vec<u8>, i: usize) -> (r: Vec<u8>)
    requires
        i < 16,
        32 * i + 32 <= data@.len(),
    ensures
        r@ == word_at(data@, i as int),
{
    let w = slice_subrange(data.as_slice(), 32 * i, 32 * i + 32);
    let r = abi_decode_word(WordKind::Bytes32, w);
    assert(w@.subrange(0, 32) =~= word_at(data@, i as int));
    r.unwrap()
}

/// Byte-wise equality of two byte strings.
pub fn bytes_eq(a: &[u8], b: &[u8]) -> (r: bool)
    ensures
        r == (a@ == b@),
{
    if a.len() != b.len() {
        return false;
    }
    let mut i: usize = 0;
    while i < a.len()
        invariant
            i <= a@.len(),
            a@.len() == b@.len(),
            forall|j: int| 0 <= j < i ==> a@[j] == b@[j],
        decreases a@.len() - i,
    {
        if a[i] != b[i] {
            return false;
        }
        i = i + 1;
    }
    assert(a@ =~= b@);
    true
}

/// Whether a log holds the event with signature hash `topic` and `words`
/// static, non-indexed parameters.
pub fn matches_event(log: &Log, topic: &Vec<u8>, words: usize) -> (r: bool)
    requires
        words < 16,
    ensures
        r == log_matches(*log, topic@, words as nat),
{
    if log.topics.len() != 1 {
        return false;
    }
    if log.data.len() != 32 * words {
        return false;
    }
    bytes_eq(log.topics[0].as_slice(), topic.as_slice())
}

/// A decoded `PoolCreated` event.
pub struct PoolCreated {
    pub pool: Vec<u8>,
}

/// A log holds a `PoolCreated` event.
pub open spec fn is_pool_created(log: Log) -> bool {
    log_matches(log, pool_created_topic(), 1)
}

/// Decodes a `PoolCreated` event; `None` when the log does not hold one.
pub fn decode_pool_created(log: &Log) -> (r: Option<PoolCreated>)
    ensures
        r is Some <==> is_pool_created(*log),
        r matches Some(e) ==> e.pool@ == address_at(log.data@, 0),
{
    let topic = pool_created_topic_bytes();
    if !matches_event(log, &topic, 1) {
        return None;
    }
    Some(PoolCreated { pool: address_word(&log.data, 0) })
}

/// A decoded `Subscription` event. Amounts are 32-byte big-endian words.
pub struct SubscriptionEvent {
    pub asset_in: Vec<u8>,
    pub asset_out: Vec<u8>,
    pub subscription: Vec<u8>,
    pub investor: Vec<u8>,
    pub price: Vec<u8>,
    pub execution_date: Vec<u8>,
}

/// A log holds a `Subscription` event.
pub open spec fn is_subscription(log: Log) -> bool {
    log_matches(log, subscription_topic(), 6)
}

/// The fields of a `Subscription` event are those of the log's data words.
pub open spec fn subscription_of(e: SubscriptionEvent, log: Log) -> bool {
    &&& e.asset_in@ == address_at(log.data@, 0)
    &&& e.asset_out@ == address_at(log.data@, 1)
    &&& e.subscription@ == word_at(log.data@, 2)
    &&& e.investor@ == address_at(log.data@, 3)
    &&& e.price@ == word_at(log.data@, 4)
    &&& e.execution_date@ == word_at(log.data@, 5)
}

/// Decodes a `Subscription` event; `None` when the log does not hold one.
pub fn decode_subscription(log: &Log) -> (r: Option<SubscriptionEvent>)
    ensures
        r is Some <==> is_subscription(*log),
        r matches Some(e) ==> subscription_of(e, *log),
{
    let topic = subscription_topic_bytes();
    if !matches_event(log, &topic, 6) {
        return None;
    }
    let d = &log.data;
    Some(
        SubscriptionEvent {
            asset_in: address_word(d, 0),
            asset_out: address_word(d, 1),
            subscription: uint_word(d, 2),
            investor: address_word(d, 3),
            price: uint_word(d, 4),
            execution_date: uint_word(d, 5),
        },
    )
}

/// A decoded `TradeReport` or `MarginTradeReport` event. Amounts are 32-byte
/// big-endian words.
pub struct TradeReportEvent {
    pub security: Vec<u8>,
    pub order_ref: Vec<u8>,
    pub party: Vec<u8>,
    pub counterparty: Vec<u8>,
    pub order_type: Vec<u8>,
    pub price: Vec<u8>,
    pub currency: Vec<u8>,
    pub amount: Vec<u8>,
    pub execution_date: Vec<u8>,
}

/// A log holds a trade report event with signature hash `topic`.
pub open spec fn is_trade_report(log: Log, topic: Seq<u8>) -> bool {
    log_matches(log, topic, 9)
}

/// The fields of a trade report are those of the log's data words.
pub open spec fn trade_report_of(e: TradeReportEvent, log: Log) -> bool {
    &&& e.security@ == address_at(log.data@, 0)
    &&& e.order_ref@ == word_at(log.data@, 1)
    &&& e.party@ == address_at(log.data@, 2)
    &&& e.counterparty@ == address_at(log.data@, 3)
    &&& e.order_type@ == word_at(log.data@, 4)
    &&& e.price@ == word_at(log.data@, 5)
    &&& e.currency@ == address_at(log.data@, 6)
    &&& e.amount@ == word_at(log.data@, 7)
    &&& e.execution_date@ == word_at(log.data@, 8)
}

/// Decodes a trade report (`TradeReport` or `MarginTradeReport`, chosen by
/// `topic`); `None` when the log does not hold one.
pub fn decode_trade_report(log: &Log, topic: &Vec<u8>) -> (r: Option<TradeReportEvent>)
    ensures
        r is Some <==> is_trade_report(*log, topic@),
        r matches Some(e) ==> trade_report_of(e, *log),
{
    if !matches_event(log, topic, 9) {
        return None;
    }
    let d = &log.data;
    Some(
        TradeReportEvent {
            security: address_word(d, 0),
            order_ref: bytes32_word(d, 1),
            party: address_word(d, 2),
            counterparty: address_word(d, 3),
            order_type: bytes32_word(d, 4),
            price: uint_word(d, 5),
            currency: address_word(d, 6),
            amount: uint_word(d, 7),
            execution_date: uint_word(d, 8),
        },
    )
}

} // verus!
