use ethabi::Token;
use substreams_database_change::pb::database::DatabaseChanges;
use verified_substreams::abi::{
    margin_trade_report_topic_bytes, pool_created_topic_bytes, subscription_topic_bytes,
    trade_report_topic_bytes,
};
use verified_substreams::block::{Block, Log, Timestamp};
use verified_substreams::db_out::{push_create, push_update};
use verified_substreams::margin_factory;
use verified_substreams::pools::{Delta, DeltaOperation, Pool};
use verified_substreams::primary_factory;
use verified_substreams::primary_pool::{
    self, encode_subscription_value, get_events, map_subscriptions, map_subscriptions_check,
    store_subscription_created, Subscription,
};
use verified_substreams::secondary_factory;
use verified_substreams::secondary_pool::{self, map_trades, store_trade_created, Trade};

const PRIMARY_FACTORY: [u8; 20] = [
    0xda, 0x13, 0xbc, 0x71, 0xfe, 0xe0, 0x8f, 0xfd, 0x52, 0x3f, 0x10, 0x45, 0x8b, 0x0e, 0x2c,
    0x2d, 0x84, 0x27, 0xbb, 0xd5,
];
const SECONDARY_FACTORY: [u8; 20] = [
    0x45, 0x19, 0x14, 0x8c, 0xc4, 0x03, 0x0c, 0x2e, 0x35, 0x73, 0xf1, 0xf8, 0x86, 0xed, 0x40,
    0x71, 0xfa, 0x35, 0xd6, 0x2b,
];
const MARGIN_FACTORY: [u8; 20] = [
    0xb1, 0xae, 0x3f, 0xc5, 0xb1, 0x6d, 0x37, 0x36, 0xbf, 0x0d, 0xb2, 0x06, 0x06, 0xfb, 0x9a,
    0x10, 0xb4, 0x35, 0x39, 0x2c,
];
const SECONDARY_ISSUE_FACTORY: [u8; 20] = [
    0xe3, 0xe7, 0x9e, 0x41, 0x06, 0x32, 0x7e, 0x6e, 0xae, 0xfb, 0xd0, 0x3c, 0x1f, 0xd3, 0xa4,
    0xa5, 0x31, 0xc5, 0x9b, 0x10,
];

fn address(fill: u8) -> ethabi::Address {
    ethabi::Address::from_slice(&[fill; 20])
}

fn log(emitter: &[u8], topic: Vec<u8>, data: Vec<u8>, ordinal: u64) -> Log {
    Log {
        tx_hash: vec![0x01, ordinal as u8],
        address: emitter.to_vec(),
        topics: vec![topic],
        data,
        ordinal,
        block_index: ordinal as u32,
    }
}

fn pool_created(factory: &[u8], pool: u8, ordinal: u64) -> Log {
    log(factory, pool_created_topic_bytes(), ethabi::encode(&[Token::Address(address(pool))]), ordinal)
}

fn trade(pool: u8, topic: Vec<u8>, amount: u64, ordinal: u64) -> Log {
    let data = ethabi::encode(&[
        Token::Address(address(9)),
        Token::FixedBytes(vec![7; 32]),
        Token::Address(address(8)),
        Token::Address(address(6)),
        Token::FixedBytes(vec![5; 32]),
        Token::Uint(100u64.into()),
        Token::Address(address(4)),
        Token::Uint(amount.into()),
        Token::Uint(1_700_000_000u64.into()),
    ]);
    log(&[pool; 20], topic, data, ordinal)
}

fn subscription(pool: u8, amount: u64, ordinal: u64) -> Log {
    let data = ethabi::encode(&[
        Token::Address(address(1)),
        Token::Address(address(2)),
        Token::Uint(amount.into()),
        Token::Address(address(3)),
        Token::Uint(25u64.into()),
        Token::Uint(1_700_000_000u64.into()),
    ]);
    log(&[pool; 20], subscription_topic_bytes(), data, ordinal)
}

fn block(logs: Vec<Log>, call_logs: Vec<Log>) -> Block {
    Block {
        number: 1234,
        timestamp: Timestamp { seconds: 1_700_000_100, nanos: 0 },
        logs,
        call_logs,
    }
}

#[test]
fn secondary_factory_events() {
    let topic = trade_report_topic_bytes();
    let blk = block(
        vec![
            pool_created(&SECONDARY_FACTORY, 0xaa, 1),
            pool_created(&[0x77; 20], 0xbb, 2),
            trade(0xaa, topic.clone(), 10, 3),
            trade(0xcc, topic.clone(), 20, 4),
            trade(0xaa, margin_trade_report_topic_bytes(), 30, 5),
        ],
        vec![],
    );
    let known = vec![false, false, true, false, true];
    let events = secondary_factory::map_events(&blk, &known);
    assert_eq!(events.secondarypool_factory_pool_createds.len(), 1);
    assert_eq!(events.secondarypool_factory_pool_createds[0].pool, vec![0xaa; 20]);
    assert_eq!(events.secondarypool_factory_pool_createds[0].evt_block_number, 1234);
    assert_eq!(events.secondary_pool_trade_reports.len(), 1);
    let t = &events.secondary_pool_trade_reports[0];
    assert_eq!(t.evt_address, "aa".repeat(20));
    assert_eq!(t.amount, "10");
    assert_eq!(t.execution_date, "1700000000");
    assert_eq!(t.evt_tx_hash, "0103");
}

#[test]
fn factory_store_marks_pools_and_emitters() {
    let topic = margin_trade_report_topic_bytes();
    let blk = block(
        vec![
            pool_created(&MARGIN_FACTORY, 0xaa, 1),
            trade(0xcc, topic.clone(), 20, 4),
            trade(0xdd, trade_report_topic_bytes(), 20, 6),
        ],
        vec![],
    );
    let ops = margin_factory::store_margin_pool(&blk);
    assert_eq!(ops.len(), 2);
    assert_eq!((ops[0].ordinal, ops[0].key.as_str(), ops[0].value), (1, "aa".repeat(20).as_str(), 1));
    assert_eq!((ops[1].ordinal, ops[1].key.as_str(), ops[1].value), (4, "cc".repeat(20).as_str(), 1));
}

#[test]
fn trades_per_pool_group_by_pool() {
    let topic = trade_report_topic_bytes();
    let blk = block(
        vec![
            trade(0xaa, topic.clone(), 1, 1),
            trade(0xbb, topic.clone(), 2, 2),
            trade(0xaa, topic.clone(), 3, 3),
            trade(0xcc, topic.clone(), 4, 4),
        ],
        vec![],
    );
    let known = vec![true, true, true, false];
    let mut groups = secondary_factory::map_trades_per_pool(&blk, &known);
    groups.sort_by(|a, b| a.key.cmp(&b.key));
    assert_eq!(groups.len(), 2);
    assert_eq!(groups[0].key, "aa".repeat(20));
    let amounts: Vec<&str> = groups[0].items.iter().map(|t| t.amount.as_str()).collect();
    assert_eq!(amounts, vec!["1", "3"]);
    assert_eq!(groups[1].key, "bb".repeat(20));
    assert_eq!(groups[1].items.len(), 1);
    assert_eq!(groups[1].items[0].amount, "2");
}

#[test]
fn per_pool_appends_are_hex_of_encoded_records() {
    let topic = trade_report_topic_bytes();
    let blk = block(vec![trade(0xaa, topic.clone(), 5, 9)], vec![]);
    let known = vec![true];
    let appends = secondary_factory::store_secondary_pool_trades_per_pool(&blk, &known);
    let events = secondary_factory::map_events(&blk, &known);
    assert_eq!(appends.len(), 1);
    assert_eq!(appends[0].ordinal, 9);
    assert_eq!(appends[0].key, "aa".repeat(20));
    let encoded = verified_substreams::records::encode_trade_report(&events.secondary_pool_trade_reports[0]);
    assert_eq!(appends[0].value, hex::encode(encoded));
}

#[test]
fn primary_factory_subscriptions() {
    let blk = block(
        vec![
            pool_created(&PRIMARY_FACTORY, 0xaa, 1),
            subscription(0xaa, 500, 2),
            subscription(0xbb, 600, 3),
        ],
        vec![],
    );
    let known = vec![false, true, false];
    let events = primary_factory::map_events(&blk, &known);
    assert_eq!(events.primarypool_factory_pool_createds.len(), 1);
    assert_eq!(events.primary_pool_subscriptions.len(), 1);
    let s = &events.primary_pool_subscriptions[0];
    assert_eq!(s.subscription, "500");
    assert_eq!(s.price, "25");
    assert_eq!(s.asset_in, vec![1; 20]);
    let groups = primary_factory::map_subscriptions_per_pool(&blk, &known);
    assert_eq!(groups.len(), 1);
    assert_eq!(groups[0].items.len(), 1);
    let ops = primary_factory::store_primary_pool(&blk);
    let keys: Vec<String> = ops.iter().map(|o| o.key.clone()).collect();
    assert_eq!(keys, vec!["aa".repeat(20)]);
    assert_eq!((ops[0].ordinal, ops[0].value), (1, 1));
    let appends = primary_factory::store_primary_pool_subscriptions_per_pool(&blk, &known);
    assert_eq!(appends.len(), 1);
    assert_eq!(appends[0].ordinal, 2);
}

#[test]
fn primary_pool_map_and_store_pools() {
    let blk = block(
        vec![pool_created(&PRIMARY_FACTORY, 0xaa, 1), pool_created(&PRIMARY_FACTORY, 0xbb, 2)],
        vec![],
    );
    let pools = primary_pool::map_pools(&blk);
    assert_eq!(pools.len(), 2);
    let sets = primary_pool::store_pools_created(pools);
    assert_eq!(sets.len(), 2);
    assert_eq!(sets[0].ordinal, 1);
    assert_eq!(sets[1].ordinal, 2);
    assert_eq!(sets[1].key, "bb".repeat(20));
    assert_eq!(sets[1].value.pool_address, vec![0xbb; 20]);
    assert!(secondary_pool::map_pools(&blk).is_empty());
    let blk2 = block(vec![pool_created(&SECONDARY_ISSUE_FACTORY, 0xcc, 1)], vec![]);
    assert_eq!(secondary_pool::map_pools(&blk2)[0].pool_address, vec![0xcc; 20]);
}

#[test]
fn map_subscriptions_keeps_the_last() {
    let blk = block(
        vec![],
        vec![subscription(0xaa, 500, 1), subscription(0xbb, 600, 2), subscription(0xaa, 700, 3)],
    );
    let s = map_subscriptions(&blk, &vec![true, true, false]);
    assert_eq!(s.subscription_amount, 600);
    assert_eq!(s.price, 25);
    assert_eq!(s.execution_date, 1_700_000_000);
    assert_eq!(s.investor_address, vec![3; 20]);
    let none = map_subscriptions(&blk, &vec![false, false, false]);
    assert_eq!(none.subscription_amount, 0);
    assert!(none.asset_in_address.is_empty());
    assert!(map_subscriptions_check(&blk).asset_in_address.is_empty());
}

#[test]
fn store_single_values_under_s() {
    let set = store_subscription_created(Subscription::default());
    assert_eq!((set.ordinal, set.key.as_str()), (1, "73"));
    let set = store_trade_created(Trade::default());
    assert_eq!((set.ordinal, set.key.as_str()), (1, "73"));
}

#[test]
fn map_trades_keeps_the_last() {
    let topic = trade_report_topic_bytes();
    let blk = block(vec![], vec![trade(0xaa, topic.clone(), 1, 1), trade(0xaa, topic, 2, 2)]);
    let t = map_trades(&blk, &vec![true, true]);
    assert_eq!(t.traded_amount, 2);
    assert_eq!(t.price, 100);
    assert_eq!(t.order_ref, vec![7; 32]);
    assert_eq!(t.currency_address, vec![4; 20]);
    assert_eq!(map_trades(&blk, &vec![false, false]).traded_amount, 0);
}

#[test]
fn json_lines_pools_then_subscriptions() {
    let blk = block(
        vec![pool_created(&PRIMARY_FACTORY, 0xaa, 1)],
        vec![subscription(0xaa, 500, 2), subscription(0xbb, 600, 3)],
    );
    let lines = get_events(&blk, &vec![true, false]);
    assert_eq!(lines.len(), 2);
    assert_eq!(lines[0].event_type, "PoolCreated");
    assert_eq!(lines[0].pool, Some(format!("0x{}", "aa".repeat(20))));
    assert_eq!(lines[0].asset_in, None);
    assert_eq!(lines[0].block_number, Some(1234));
    assert_eq!(lines[0].timestamp, Some(1_700_000_100));
    assert_eq!(lines[1].event_type, "Subscription");
    assert_eq!(lines[1].subscription, Some("500".to_string()));
    assert_eq!(lines[1].asset_out, Some(format!("0x{}", "02".repeat(20))));
    assert_eq!(lines[1].price, Some("25".to_string()));
}

#[test]
fn kv_out_sets_and_deletes() {
    let value = Subscription {
        asset_in_address: vec![1, 2],
        asset_out_address: vec![],
        subscription_amount: 300,
        investor_address: vec![9],
        price: 0,
        execution_date: 1,
    };
    let deltas = vec![
        Delta {
            operation: DeltaOperation::Create,
            ordinal: 4,
            key: "73".to_string(),
            old_value: Subscription::default(),
            new_value: value,
        },
        Delta {
            operation: DeltaOperation::Delete,
            ordinal: 5,
            key: "73".to_string(),
            old_value: Subscription::default(),
            new_value: Subscription::default(),
        },
    ];
    let ops = primary_pool::kv_out(&deltas);
    assert_eq!(ops.operations.len(), 2);
    assert_eq!(ops.operations[0].key, "73");
    assert_eq!(ops.operations[0].ordinal, 4);
    let first = prost::Message::encode_to_vec(&ops.operations[0]);
    assert_eq!(first[first.len() - 2..], [0x20, 0x01]);
    assert_eq!(ops.operations[0].value, encode_subscription_value(&deltas[0].new_value));
    assert_eq!(ops.operations[0].value, vec![0x0a, 0x02, 1, 2, 0x18, 0xac, 0x02, 0x22, 0x01, 9, 0x30, 0x01]);
    let second = prost::Message::encode_to_vec(&ops.operations[1]);
    assert_eq!(second[second.len() - 2..], [0x20, 0x02]);
    assert!(ops.operations[1].value.is_empty());
    let trade_deltas: Vec<Delta<Trade>> = vec![];
    assert!(secondary_pool::kv_out(&trade_deltas).operations.is_empty());
}

#[test]
fn database_changes_for_pools() {
    let mut changes = DatabaseChanges::default();
    push_create(&mut changes, "k1", 3, Pool { pool_address: vec![0xab, 0x01] });
    push_update(
        &mut changes,
        "k1",
        4,
        Pool { pool_address: vec![0xab, 0x01] },
        Pool { pool_address: vec![0xcd] },
    );
    assert_eq!(changes.table_changes.len(), 2);
    let c = &changes.table_changes[0];
    assert_eq!(c.table, "pool");
    assert_eq!(c.ordinal, 3);
    assert_eq!(c.operation, 1);
    assert_eq!(c.fields.len(), 1);
    assert_eq!(c.fields[0].name, "pool_address");
    assert_eq!(c.fields[0].old_value, "");
    assert_eq!(c.fields[0].new_value, "ab01");
    let u = &changes.table_changes[1];
    assert_eq!(u.operation, 2);
    assert_eq!(u.fields[0].old_value, "ab01");
    assert_eq!(u.fields[0].new_value, "cd");
}

#[test]
fn last_subscription_agrees_with_last_json_line() {
    let blk = block(
        vec![],
        vec![subscription(0xaa, 500, 1), subscription(0xbb, 600, 2), subscription(0xcc, 700, 3)],
    );
    let known = vec![true, true, false];
    let s = map_subscriptions(&blk, &known);
    let lines = get_events(&blk, &known);
    let last = lines.last().unwrap();
    assert_eq!(last.event_type, "Subscription");
    assert_eq!(last.pool, Some(format!("0x{}", "bb".repeat(20))));
    assert_eq!(last.subscription, Some(s.subscription_amount.to_string()));
    assert_eq!(last.price, Some(s.price.to_string()));
    assert_eq!(last.execution_date, Some(s.execution_date.to_string()));
    assert_eq!(last.asset_in, Some(format!("0x{}", hex::encode(&s.asset_in_address))));
    assert_eq!(last.investor, Some(format!("0x{}", hex::encode(&s.investor_address))));
}

#[test]
fn distinct_pools_get_distinct_keys() {
    let sets = primary_pool::store_pools_created(vec![
        Pool { pool_address: vec![0x0a, 0xbc] },
        Pool { pool_address: vec![0xab, 0x0c] },
        Pool { pool_address: vec![0x0a, 0xbc, 0x00] },
    ]);
    let keys: Vec<&str> = sets.iter().map(|s| s.key.as_str()).collect();
    assert_eq!(keys, vec!["0abc", "ab0c", "0abc00"]);
    assert_eq!(sets.iter().map(|s| s.ordinal).collect::<Vec<_>>(), vec![1, 2, 3]);
}

#[test]
fn factory_stores_mark_only_created_pools() {
    let blk = block(
        vec![
            pool_created(&PRIMARY_FACTORY, 0xaa, 1),
            pool_created(&SECONDARY_FACTORY, 0xbb, 2),
            pool_created(&[0x77; 20], 0xcc, 3),
            subscription(0xdd, 500, 4),
            trade(0xee, trade_report_topic_bytes(), 20, 5),
        ],
        vec![],
    );
    let primary = primary_factory::store_primary_pool(&blk);
    assert_eq!(primary.len(), 1);
    assert_eq!((primary[0].ordinal, primary[0].key.as_str(), primary[0].value), (1, "aa".repeat(20).as_str(), 1));
    let secondary = secondary_factory::store_secondary_pool(&blk);
    assert_eq!(secondary.len(), 1);
    assert_eq!((secondary[0].ordinal, secondary[0].key.as_str(), secondary[0].value), (2, "bb".repeat(20).as_str(), 1));
}

#[test]
fn secondary_kv_out_sets_and_deletes() {
    let value = Trade {
        security_address: vec![1],
        order_ref: vec![],
        party: vec![],
        counterparty: vec![],
        order_type: vec![],
        price: 5,
        currency_address: vec![],
        traded_amount: 300,
        execution_date: 1,
    };
    let deltas = vec![
        Delta {
            operation: DeltaOperation::Create,
            ordinal: 7,
            key: "73".to_string(),
            old_value: Trade::default(),
            new_value: value,
        },
        Delta {
            operation: DeltaOperation::Update,
            ordinal: 8,
            key: "73".to_string(),
            old_value: Trade::default(),
            new_value: Trade::default(),
        },
        Delta {
            operation: DeltaOperation::Delete,
            ordinal: 9,
            key: "73".to_string(),
            old_value: Trade::default(),
            new_value: Trade::default(),
        },
    ];
    let ops = secondary_pool::kv_out(&deltas);
    assert_eq!(ops.operations.len(), 3);
    assert_eq!((ops.operations[0].key.as_str(), ops.operations[0].ordinal), ("73", 7));
    assert_eq!(ops.operations[0].value, vec![0x0a, 0x01, 1, 0x30, 0x05, 0x40, 0xac, 0x02, 0x48, 0x01]);
    assert_eq!(ops.operations[0].value, secondary_pool::encode_trade_value(&deltas[0].new_value));
    let first = prost::Message::encode_to_vec(&ops.operations[0]);
    assert_eq!(first[first.len() - 2..], [0x20, 0x01]);
    assert_eq!(ops.operations[1].ordinal, 8);
    assert!(ops.operations[1].value.is_empty());
    let third = prost::Message::encode_to_vec(&ops.operations[2]);
    assert_eq!(third[third.len() - 2..], [0x20, 0x02]);
    assert_eq!(ops.operations[2].ordinal, 9);
}

#[test]
fn appended_values_decode_to_the_records() {
    let topic = margin_trade_report_topic_bytes();
    let blk = block(
        vec![trade(0xaa, topic.clone(), 5, 3), subscription(0xbb, 500, 4)],
        vec![],
    );
    let known = vec![true, true];
    let trades = margin_factory::store_margin_pool_trades_per_pool(&blk, &known);
    let events = margin_factory::map_events(&blk, &known);
    assert_eq!(trades.len(), 1);
    let v = &trades[0].value;
    assert!(v.len() % 2 == 0 && v.chars().all(|c| c.is_ascii_digit() || ('a'..='f').contains(&c)));
    let bytes = hex::decode(v).unwrap();
    let record = &events.margin_pool_margin_trade_reports[0];
    assert_eq!(bytes, verified_substreams::records::encode_trade_report(record));
    assert_eq!(trades[0].key, record.evt_address);
    let subs = primary_factory::store_primary_pool_subscriptions_per_pool(&blk, &known);
    let sub_events = primary_factory::map_events(&blk, &known);
    assert_eq!(subs.len(), 1);
    let bytes = hex::decode(&subs[0].value).unwrap();
    assert_eq!(bytes, verified_substreams::records::encode_subscription(&sub_events.primary_pool_subscriptions[0]));
    assert_eq!((subs[0].key.as_str(), subs[0].ordinal), (sub_events.primary_pool_subscriptions[0].evt_address.as_str(), 4));
}

#[test]
fn stored_pool_is_found_by_the_subscription_reader() {
    let sets = primary_pool::store_pools_created(vec![Pool { pool_address: vec![0xaa; 20] }]);
    let blk = block(vec![], vec![subscription(0xaa, 500, 1), subscription(0xbb, 600, 2)]);
    let known: Vec<bool> = blk
        .call_logs
        .iter()
        .map(|log| sets.iter().any(|s| s.key == verified_substreams::hexstr::pool_key(&log.address)))
        .collect();
    assert_eq!(known, vec![true, false]);
    let s = map_subscriptions(&blk, &known);
    assert_eq!(s.subscription_amount, 500);
    assert_eq!(s.asset_in_address, vec![1; 20]);
    assert_eq!(s.investor_address, vec![3; 20]);
}

#[test]
fn events_across_blocks_come_from_factory_pools() {
    let earlier = block(vec![pool_created(&PRIMARY_FACTORY, 0xaa, 1)], vec![]);
    let blk = block(
        vec![
            subscription(0xaa, 500, 2),
            subscription(0xbb, 600, 3),
            pool_created(&PRIMARY_FACTORY, 0xcc, 4),
            subscription(0xcc, 700, 5),
            pool_created(&PRIMARY_FACTORY, 0xdd, 7),
            subscription(0xdd, 800, 6),
        ],
        vec![],
    );
    let before = primary_factory::store_primary_pool(&earlier);
    let now = primary_factory::store_primary_pool(&blk);
    let known: Vec<bool> = blk
        .logs
        .iter()
        .map(|log| {
            let key = verified_substreams::hexstr::pool_key(&log.address);
            before.iter().any(|m| m.key == key)
                || now.iter().any(|m| m.key == key && m.ordinal <= log.ordinal)
        })
        .collect();
    assert_eq!(known, vec![true, false, false, true, false, false]);
    let events = primary_factory::map_events(&blk, &known);
    let pools: Vec<&str> = events.primary_pool_subscriptions.iter().map(|s| s.evt_address.as_str()).collect();
    assert_eq!(pools, vec!["aa".repeat(20).as_str(), "cc".repeat(20).as_str()]);
    assert_eq!(events.primarypool_factory_pool_createds.len(), 2);
}
