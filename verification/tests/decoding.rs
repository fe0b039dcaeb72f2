use ethabi::Token;
use tiny_keccak::{Hasher, Keccak};
use verified_substreams::abi::{
    decode_pool_created, decode_subscription, decode_trade_report, margin_trade_report_topic_bytes,
    pool_created_topic_bytes, subscription_topic_bytes, trade_report_topic_bytes,
};
use verified_substreams::block::{Block, Log, Timestamp};
use verified_substreams::hexstr::{pool_key, prefixed, prefixed_hex};
use verified_substreams::proto::{encode_timestamp, put_varint};
use verified_substreams::records::{
    encode_pool_created, encode_trade_report, pool_created_record, trade_report_record,
};
use verified_substreams::uint::word_decimal;

fn keccak(text: &str) -> Vec<u8> {
    let mut k = Keccak::v256();
    let mut out = [0u8; 32];
    k.update(text.as_bytes());
    k.finalize(&mut out);
    out.to_vec()
}

fn address(fill: u8) -> ethabi::Address {
    ethabi::Address::from_slice(&[fill; 20])
}

fn log_with(topic: Vec<u8>, data: Vec<u8>) -> Log {
    Log {
        tx_hash: vec![0xab, 0xcd],
        address: vec![0x11; 20],
        topics: vec![topic],
        data,
        ordinal: 7,
        block_index: 3,
    }
}

fn block() -> Block {
    Block {
        number: 42,
        timestamp: Timestamp { seconds: 1_700_000_000, nanos: 5 },
        logs: vec![],
        call_logs: vec![],
    }
}

#[test]
fn topics_are_signature_hashes() {
    assert_eq!(pool_created_topic_bytes(), keccak("PoolCreated(address)"));
    assert_eq!(
        subscription_topic_bytes(),
        keccak("Subscription(address,address,uint256,address,uint256,uint256)")
    );
    assert_eq!(
        trade_report_topic_bytes(),
        keccak("TradeReport(address,bytes32,address,address,bytes32,uint256,address,uint256,uint256)")
    );
    assert_eq!(
        margin_trade_report_topic_bytes(),
        keccak(
            "MarginTradeReport(address,bytes32,address,address,bytes32,uint256,address,uint256,uint256)"
        )
    );
    assert_eq!(
        hex::encode(keccak("Transfer(address,address,uint256)")),
        "ddf252ad1be2c89b69c2b068fc378daa952ba7f163c4a11628f55a4df523b3ef"
    );
}

#[test]
fn hex_keys_are_lowercase_without_prefix() {
    assert_eq!(pool_key(&[0xDA, 0x13, 0x00, 0x0f]), "da13000f");
    assert_eq!(pool_key(&[]), "");
    assert_eq!(prefixed_hex(&[0xAB, 0x01]), "0xab01");
    assert_eq!(prefixed(&"ff".to_string()), "0xff");
}

#[test]
fn decimal_of_words() {
    let mut w = vec![0u8; 32];
    assert_eq!(word_decimal(&w), "0");
    w[31] = 200;
    w[30] = 1;
    assert_eq!(word_decimal(&w), "456");
    let max = vec![0xffu8; 32];
    assert_eq!(
        word_decimal(&max),
        "115792089237316195423570985008687907853269984665640564039457584007913129639935"
    );
}

#[test]
fn decodes_pool_created() {
    let data = ethabi::encode(&[Token::Address(address(0x42))]);
    let log = log_with(pool_created_topic_bytes(), data.clone());
    let ev = decode_pool_created(&log).expect("a PoolCreated event");
    assert_eq!(ev.pool, vec![0x42; 20]);
    // wrong topic, extra topic, wrong length: not the event
    assert!(decode_pool_created(&log_with(subscription_topic_bytes(), data.clone())).is_none());
    let mut two_topics = log_with(pool_created_topic_bytes(), data.clone());
    two_topics.topics.push(vec![0; 32]);
    assert!(decode_pool_created(&two_topics).is_none());
    let mut long = data.clone();
    long.push(0);
    assert!(decode_pool_created(&log_with(pool_created_topic_bytes(), long)).is_none());
    assert!(decode_pool_created(&log_with(pool_created_topic_bytes(), vec![])).is_none());
}

#[test]
fn decodes_subscription_and_trade_report() {
    let data = ethabi::encode(&[
        Token::Address(address(1)),
        Token::Address(address(2)),
        Token::Uint(1000u64.into()),
        Token::Address(address(3)),
        Token::Uint(25u64.into()),
        Token::Uint(1_700_000_000u64.into()),
    ]);
    let ev = decode_subscription(&log_with(subscription_topic_bytes(), data)).unwrap();
    assert_eq!(ev.asset_in, vec![1; 20]);
    assert_eq!(ev.asset_out, vec![2; 20]);
    assert_eq!(ev.investor, vec![3; 20]);
    assert_eq!(word_decimal(&ev.subscription), "1000");
    assert_eq!(word_decimal(&ev.price), "25");
    assert_eq!(word_decimal(&ev.execution_date), "1700000000");

    let data = ethabi::encode(&[
        Token::Address(address(9)),
        Token::FixedBytes(vec![7; 32]),
        Token::Address(address(8)),
        Token::Address(address(6)),
        Token::FixedBytes(vec![5; 32]),
        Token::Uint(99u64.into()),
        Token::Address(address(4)),
        Token::Uint(12u64.into()),
        Token::Uint(3u64.into()),
    ]);
    let topic = trade_report_topic_bytes();
    let ev = decode_trade_report(&log_with(topic.clone(), data.clone()), &topic).unwrap();
    assert_eq!(ev.security, vec![9; 20]);
    assert_eq!(ev.order_ref, vec![7; 32]);
    assert_eq!(ev.party, vec![8; 20]);
    assert_eq!(ev.counterparty, vec![6; 20]);
    assert_eq!(ev.order_type, vec![5; 32]);
    assert_eq!(word_decimal(&ev.price), "99");
    assert_eq!(ev.currency, vec![4; 20]);
    assert_eq!(word_decimal(&ev.amount), "12");
    assert_eq!(word_decimal(&ev.execution_date), "3");
    // a margin trade report has another topic
    let margin = margin_trade_report_topic_bytes();
    assert!(decode_trade_report(&log_with(topic, data.clone()), &margin).is_none());
    assert!(decode_trade_report(&log_with(margin.clone(), data), &margin).is_some());
}

#[test]
fn varints() {
    let mut buf = Vec::new();
    put_varint(&mut buf, 0);
    put_varint(&mut buf, 127);
    put_varint(&mut buf, 128);
    put_varint(&mut buf, 300);
    assert_eq!(buf, vec![0x00, 0x7f, 0x80, 0x01, 0xac, 0x02]);
    let mut big = Vec::new();
    put_varint(&mut big, u64::MAX);
    let mut expected = Vec::new();
    prost::encoding::encode_varint(u64::MAX, &mut expected);
    assert_eq!(big, expected);
}

#[test]
fn timestamp_encoding_matches_prost() {
    let t = Timestamp { seconds: -5, nanos: -1 };
    let mut expected = Vec::new();
    prost::encoding::int64::encode(1, &-5i64, &mut expected);
    prost::encoding::int32::encode(2, &-1i32, &mut expected);
    assert_eq!(encode_timestamp(t), expected);
    assert_eq!(encode_timestamp(Timestamp { seconds: 0, nanos: 0 }), Vec::<u8>::new());
}

#[test]
fn pool_created_record_and_encoding() {
    let data = ethabi::encode(&[Token::Address(address(0x42))]);
    let log = log_with(pool_created_topic_bytes(), data);
    let blk = block();
    let rec = pool_created_record(&blk, &log, decode_pool_created(&log).unwrap());
    assert_eq!(rec.evt_tx_hash, "abcd");
    assert_eq!(rec.evt_index, 3);
    assert_eq!(rec.evt_block_number, 42);
    assert_eq!(rec.pool, vec![0x42; 20]);

    let mut ts = Vec::new();
    prost::encoding::int64::encode(1, &1_700_000_000i64, &mut ts);
    prost::encoding::int32::encode(2, &5i32, &mut ts);
    let mut expected = Vec::new();
    prost::encoding::string::encode(1, &"abcd".to_string(), &mut expected);
    prost::encoding::uint32::encode(2, &3u32, &mut expected);
    prost::encoding::encode_key(3, prost::encoding::WireType::LengthDelimited, &mut expected);
    prost::encoding::encode_varint(ts.len() as u64, &mut expected);
    expected.extend_from_slice(&ts);
    prost::encoding::uint64::encode(4, &42u64, &mut expected);
    prost::encoding::bytes::encode(5, &vec![0x42u8; 20], &mut expected);
    assert_eq!(encode_pool_created(&rec), expected);
}

#[test]
fn trade_record_and_encoding() {
    let data = ethabi::encode(&[
        Token::Address(address(9)),
        Token::FixedBytes(vec![7; 32]),
        Token::Address(address(8)),
        Token::Address(address(6)),
        Token::FixedBytes(vec![5; 32]),
        Token::Uint(99u64.into()),
        Token::Address(address(4)),
        Token::Uint(0u64.into()),
        Token::Uint(3u64.into()),
    ]);
    let topic = trade_report_topic_bytes();
    let log = log_with(topic.clone(), data);
    let blk = block();
    let rec = trade_report_record(&blk, &log, decode_trade_report(&log, &topic).unwrap());
    assert_eq!(rec.evt_address, "1111111111111111111111111111111111111111");
    assert_eq!(rec.amount, "0");
    assert_eq!(rec.price, "99");

    let mut ts = Vec::new();
    prost::encoding::int64::encode(1, &1_700_000_000i64, &mut ts);
    prost::encoding::int32::encode(2, &5i32, &mut ts);
    let mut e = Vec::new();
    prost::encoding::string::encode(1, &"abcd".to_string(), &mut e);
    prost::encoding::uint32::encode(2, &3u32, &mut e);
    prost::encoding::encode_key(3, prost::encoding::WireType::LengthDelimited, &mut e);
    prost::encoding::encode_varint(ts.len() as u64, &mut e);
    e.extend_from_slice(&ts);
    prost::encoding::uint64::encode(4, &42u64, &mut e);
    prost::encoding::string::encode(5, &rec.evt_address, &mut e);
    prost::encoding::string::encode(6, &"0".to_string(), &mut e);
    prost::encoding::bytes::encode(7, &vec![6u8; 20], &mut e);
    prost::encoding::bytes::encode(8, &vec![4u8; 20], &mut e);
    prost::encoding::string::encode(9, &"3".to_string(), &mut e);
    prost::encoding::bytes::encode(10, &vec![7u8; 32], &mut e);
    prost::encoding::bytes::encode(11, &vec![5u8; 32], &mut e);
    prost::encoding::bytes::encode(12, &vec![8u8; 20], &mut e);
    prost::encoding::string::encode(13, &"99".to_string(), &mut e);
    prost::encoding::bytes::encode(14, &vec![9u8; 20], &mut e);
    assert_eq!(encode_trade_report(&rec), e);
}
