use ghostwire::analytics::{record_action, record_evaluated, record_passed, RuleAnalytics};
use ghostwire::flow::{flow_of_egress, flow_of_ingress, hash_flow, FlowKey, FlowTable};
use ghostwire::ledger::Ledger;
use ghostwire::lru::LruMap;
use ghostwire::packet::Packet;
use ghostwire::ratelimit::{check_limit, key_for, RatelimitTable};
use ghostwire::rule::{
    check_key, convert_rule, mask_of, matches_key, prefer, LpmKey, RuleEntry, RuleError, RuleKey,
    RuleTable, RuleValue,
};
use ghostwire::types::Rule;

fn ip(a: u8, b: u8, c: u8, d: u8) -> u32 {
    u32::from_le_bytes([a, b, c, d])
}

fn port(number: u16) -> u16 {
    u16::from_le_bytes(number.to_be_bytes())
}

fn key(
    source: (u32, u32),
    destination: (u32, u32),
    protocol: Option<u8>,
    port_number: Option<u16>,
) -> LpmKey {
    LpmKey {
        prefix_len: source.1
            + destination.1
            + protocol.map_or(0, |_| 8)
            + port_number.map_or(0, |_| 16),
        source_prefix: source.1,
        destination_prefix: destination.1,
        data: RuleKey {
            source_ip_range: source.0,
            destination_ip_range: destination.0,
            protocol: protocol.unwrap_or(0),
            port_number: port_number.map_or(0, port),
        },
    }
}

fn packet(source: u32, destination: u32, protocol: u8, port_number: u16) -> RuleKey {
    RuleKey {
        source_ip_range: source,
        destination_ip_range: destination,
        protocol,
        port_number: port(port_number),
    }
}

fn rule(id: u32, source: (u32, u32), protocol: Option<u8>, port_number: Option<u16>) -> Rule {
    let k = key(source, (0, 0), protocol, port_number);
    Rule {
        id,
        prefix_length: k.prefix_len,
        source_prefix_length: k.source_prefix,
        destination_prefix_length: k.destination_prefix,
        source_ip_range: k.data.source_ip_range,
        destination_ip_range: k.data.destination_ip_range,
        protocol_number: k.data.protocol,
        port_number: k.data.port_number,
        ratelimit: None,
    }
}

const ANY: (u32, u32) = (0, 0);

#[test]
fn masks_keep_the_leading_bits_in_network_byte_order() {
    assert_eq!(mask_of(0), 0);
    assert_eq!(mask_of(1), 0x0000_0080);
    assert_eq!(mask_of(8), 0x0000_00FF);
    assert_eq!(mask_of(12), 0x0000_F0FF);
    assert_eq!(mask_of(20), 0x00F0_FFFF);
    assert_eq!(mask_of(31), 0xFEFF_FFFF);
    assert_eq!(mask_of(32), 0xFFFF_FFFF);
    assert_eq!(mask_of(33), 0xFFFF_FFFF);
    assert_eq!(mask_of(24), u32::from_le_bytes([255, 255, 255, 0]));
    assert_eq!(ip(192, 168, 1, 77) & mask_of(24), ip(192, 168, 1, 0));
    assert_eq!(ip(10, 1, 2, 3) & mask_of(7), ip(10, 0, 0, 0));
}

#[test]
fn key_is_well_formed_when_prefix_is_the_sum_of_its_fields() {
    assert!(check_key(&key(ANY, ANY, None, None)));
    assert!(check_key(&key((ip(10, 0, 0, 0), 8), (ip(192, 168, 0, 0), 16), None, None)));
    assert!(check_key(&key((ip(10, 0, 0, 0), 8), (ip(192, 168, 0, 0), 16), Some(6), Some(22))));
    assert!(check_key(&key((0, 8), ANY, Some(17), Some(0))));
    assert!(check_key(&key((ip(1, 1, 1, 1), 32), (ip(2, 2, 2, 2), 32), Some(6), Some(22))));
    assert!(check_key(&key(ANY, ANY, None, Some(22))));
    assert!(check_key(&key((ip(10, 1, 0, 0), 8), ANY, None, None)));
    let good = key((ip(10, 0, 0, 0), 8), (ip(192, 168, 0, 0), 16), Some(6), None);
    assert_eq!(good.prefix_len, 32);
    for prefix_len in 0..100 {
        let expected = [24, 32, 40, 48].contains(&prefix_len);
        assert_eq!(check_key(&LpmKey { prefix_len, ..good }), expected, "{}", prefix_len);
    }
    assert!(!check_key(&LpmKey { source_prefix: 33, prefix_len: 33, ..key(ANY, ANY, None, None) }));
    assert!(!check_key(&LpmKey {
        destination_prefix: 33,
        prefix_len: 33,
        ..key(ANY, ANY, None, None)
    }));
    assert!(!check_key(&LpmKey { prefix_len: u32::MAX, ..good }));
    assert!(!check_key(&LpmKey { source_prefix: u32::MAX, ..good }));
    assert_eq!(key((0, 32), (0, 32), Some(1), Some(1)).prefix_len, 88);
}

#[test]
fn key_matches_field_by_field() {
    let any = key(ANY, ANY, None, None);
    assert!(matches_key(&any, &packet(ip(1, 2, 3, 4), ip(5, 6, 7, 8), 17, 9)));
    let net = key((ip(10, 0, 0, 0), 8), ANY, None, None);
    assert!(matches_key(&net, &packet(ip(10, 255, 1, 2), 1, 6, 80)));
    assert!(!matches_key(&net, &packet(ip(11, 0, 0, 0), 1, 6, 80)));
    let odd = key((ip(10, 0, 0, 0), 7), ANY, None, None);
    assert!(matches_key(&odd, &packet(ip(11, 0, 0, 0), 1, 6, 80)));
    assert!(!matches_key(&odd, &packet(ip(12, 0, 0, 0), 1, 6, 80)));
    let both = key((ip(10, 0, 0, 0), 8), (ip(192, 168, 0, 0), 16), None, None);
    assert_eq!(both.prefix_len, 24);
    assert!(matches_key(&both, &packet(ip(10, 200, 0, 1), ip(192, 168, 200, 1), 6, 80)));
    assert!(!matches_key(&both, &packet(ip(11, 200, 0, 1), ip(192, 168, 200, 1), 6, 80)));
    assert!(!matches_key(&both, &packet(ip(10, 200, 0, 1), ip(192, 169, 200, 1), 6, 80)));
    let other_split = LpmKey { source_prefix: 16, destination_prefix: 8, ..both };
    assert!(matches_key(&other_split, &packet(ip(10, 0, 9, 9), ip(192, 9, 9, 9), 6, 80)));
    assert!(!matches_key(&other_split, &packet(ip(10, 200, 0, 1), ip(192, 168, 200, 1), 6, 80)));
    let host = key((ip(10, 0, 0, 1), 32), (ip(10, 0, 0, 2), 32), None, None);
    assert!(matches_key(&host, &packet(ip(10, 0, 0, 1), ip(10, 0, 0, 2), 1, 0)));
    assert!(!matches_key(&host, &packet(ip(10, 0, 0, 1), ip(10, 0, 0, 3), 1, 0)));
    assert!(!matches_key(&host, &packet(ip(10, 0, 0, 0), ip(10, 0, 0, 2), 1, 0)));
    let service = key(ANY, ANY, Some(6), Some(22));
    assert!(matches_key(&service, &packet(9, 9, 6, 22)));
    assert!(!matches_key(&service, &packet(9, 9, 17, 22)));
    assert!(!matches_key(&service, &packet(9, 9, 6, 23)));
    assert!(!matches_key(&service, &packet(9, 9, 6, 22 << 8)));
    let port_zero = key(ANY, ANY, Some(17), Some(0));
    assert!(matches_key(&port_zero, &packet(9, 9, 17, 0)));
    assert!(!matches_key(&port_zero, &packet(9, 9, 17, 1)));
    let zero_net = key((0, 8), ANY, None, None);
    assert!(matches_key(&zero_net, &packet(ip(0, 9, 9, 9), 9, 17, 0)));
    assert!(!matches_key(&zero_net, &packet(ip(1, 9, 9, 9), 9, 17, 0)));
    let unmasked = key((ip(10, 1, 0, 0), 8), ANY, None, None);
    assert!(matches_key(&unmasked, &packet(ip(10, 9, 9, 9), 0, 0, 0)));
    let broken = LpmKey { prefix_len: 40, ..net };
    assert!(!matches_key(&broken, &packet(ip(10, 0, 0, 0), 0, 0, 0)));
}

#[test]
fn longer_prefix_is_preferred_then_lower_id() {
    let row = |bits: u32, id: u32| RuleEntry {
        key: key((0, bits), ANY, None, None),
        value: RuleValue { id, ratelimit: 0 },
    };
    assert!(prefer(&row(9, 5), &row(8, 1)));
    assert!(!prefer(&row(8, 1), &row(9, 5)));
    assert!(prefer(&row(8, 1), &row(8, 5)));
    assert!(!prefer(&row(8, 5), &row(8, 1)));
    assert!(prefer(&row(8, 5), &row(8, 5)));
}

#[test]
fn convert_rule_keeps_fields_and_defaults_the_limit() {
    let wire = Rule {
        id: 9,
        prefix_length: 48,
        source_prefix_length: 8,
        destination_prefix_length: 16,
        source_ip_range: ip(10, 0, 0, 0),
        destination_ip_range: ip(192, 168, 0, 0),
        protocol_number: 6,
        port_number: port(22),
        ratelimit: Some(100),
    };
    let (k, v) = convert_rule(wire, 4);
    assert_eq!(k, key((ip(10, 0, 0, 0), 8), (ip(192, 168, 0, 0), 16), Some(6), Some(22)));
    assert_eq!((k.prefix_len, k.source_prefix, k.destination_prefix), (48, 8, 16));
    assert_eq!(k.data.port_number, 22 << 8);
    assert_eq!(v, RuleValue { id: 4, ratelimit: 100 });
    let (_, v) = convert_rule(Rule { ratelimit: None, ..wire }, 5);
    assert_eq!(v, RuleValue { id: 5, ratelimit: 0 });
}

#[test]
fn lookup_picks_the_most_specific_match() {
    let mut table = RuleTable::new();
    assert_eq!(table.len(), 0);
    assert_eq!(table.lookup(&packet(1, 2, 6, 22)), None);
    let rules = vec![
        rule(10, ANY, None, None),
        rule(11, (ip(10, 0, 0, 0), 8), None, None),
        rule(12, (ip(10, 1, 0, 0), 16), None, None),
        rule(13, ANY, Some(6), Some(22)),
        rule(5, ANY, None, Some(22)),
    ];
    assert_eq!(table.replace(&rules), Ok(()));
    assert_eq!(table.len(), 5);
    let id = |p: RuleKey| table.lookup(&p).map(|v| v.id);
    assert_eq!(id(packet(ip(9, 9, 9, 9), 0, 17, 53)), Some(10));
    assert_eq!(id(packet(ip(10, 9, 9, 9), 0, 17, 53)), Some(11));
    assert_eq!(id(packet(ip(10, 1, 9, 9), 0, 17, 53)), Some(12));
    assert_eq!(id(packet(ip(10, 1, 9, 9), 0, 17, 22)), Some(5));
    assert_eq!(id(packet(ip(10, 1, 9, 9), 0, 6, 22)), Some(13));
    assert_eq!(id(packet(ip(10, 9, 9, 9), 0, 17, 22)), Some(5));
    let rows = table.entries();
    assert_eq!(rows.len(), 5);
    assert_eq!(rows[3].value, RuleValue { id: 13, ratelimit: 0 });
    assert_eq!(rows[3].key, key(ANY, ANY, Some(6), Some(22)));
    let keys = table.collect_lpm_trie_keys();
    assert_eq!(keys.len(), 5);
    assert_eq!(keys[1], key((ip(10, 0, 0, 0), 8), ANY, None, None));
    assert_eq!(keys[4], key(ANY, ANY, None, Some(22)));
}

#[test]
fn rules_with_two_networks_are_taken_as_they_are() {
    let mut table = RuleTable::new();
    let both = Rule {
        destination_ip_range: ip(192, 168, 0, 0),
        destination_prefix_length: 16,
        prefix_length: 24,
        ..rule(1, (ip(10, 0, 0, 0), 8), None, None)
    };
    let zero_net = rule(2, (0, 8), Some(17), Some(0));
    assert_eq!(table.replace(&vec![both, zero_net]), Ok(()));
    let id = |p: RuleKey| table.lookup(&p).map(|v| v.id);
    assert_eq!(id(packet(ip(10, 200, 0, 1), ip(192, 168, 200, 1), 6, 80)), Some(1));
    assert_eq!(id(packet(ip(10, 200, 0, 1), ip(192, 169, 200, 1), 6, 80)), None);
    assert_eq!(id(packet(ip(0, 200, 0, 1), ip(192, 169, 200, 1), 17, 0)), Some(2));
    assert_eq!(id(packet(ip(0, 200, 0, 1), ip(192, 169, 200, 1), 17, 1)), None);
}

#[test]
fn replace_refuses_the_first_faulty_rule_and_keeps_the_table() {
    let mut table = RuleTable::new();
    assert_eq!(table.replace(&vec![rule(1, ANY, Some(6), Some(22))]), Ok(()));
    let wrong_sum = Rule { prefix_length: 25, ..rule(3, ANY, None, Some(22)) };
    let bad_prefix = vec![rule(2, ANY, Some(6), Some(22)), wrong_sum, rule(2, ANY, None, None)];
    assert_eq!(table.replace(&bad_prefix), Err(RuleError::PrefixLength { index: 1 }));
    let duplicate =
        vec![rule(2, ANY, Some(6), Some(22)), rule(3, ANY, None, Some(22)), rule(2, ANY, None, None)];
    assert_eq!(table.replace(&duplicate), Err(RuleError::DuplicateId { index: 2 }));
    let too_long = vec![Rule { source_prefix_length: 33, prefix_length: 33, ..rule(2, ANY, None, None) }];
    assert_eq!(table.replace(&too_long), Err(RuleError::PrefixLength { index: 0 }));
    let both = vec![rule(2, ANY, Some(6), Some(22)), Rule { prefix_length: 99, ..rule(2, ANY, None, None) }];
    assert_eq!(table.replace(&both), Err(RuleError::PrefixLength { index: 1 }));
    assert_eq!(table.len(), 1);
    assert_eq!(table.lookup(&packet(1, 2, 6, 22)).map(|v| v.id), Some(1));
    assert_eq!(table.replace(&vec![]), Ok(()));
    assert_eq!(table.len(), 0);
}

#[test]
fn lru_map_evicts_the_least_recently_written_key() {
    assert!(LruMap::new(0).is_none());
    let mut map = LruMap::new(3).unwrap();
    assert_eq!(map.max_entries(), 3);
    map.insert(1, 10);
    map.insert(2, 20);
    map.insert(3, 30);
    assert_eq!(map.len(), 3);
    map.insert(1, 11);
    map.insert(4, 40);
    assert_eq!(map.len(), 3);
    assert_eq!(map.get(2), None);
    assert_eq!(map.get(1), Some(11));
    assert_eq!(map.get(3), Some(30));
    assert_eq!(map.get(4), Some(40));
    map.insert(5, 50);
    assert_eq!(map.get(3), None);
    assert!(map.remove(1));
    assert!(!map.remove(1));
    assert_eq!(map.len(), 2);
    map.insert(6, 60);
    assert_eq!(map.len(), 3);
    assert_eq!(map.get(4), Some(40));
    map.clear();
    assert_eq!(map.len(), 0);
    assert_eq!(map.get(6), None);
}

#[test]
fn flow_table_upserts_gets_and_removes() {
    assert!(FlowTable::new(0).is_none());
    let mut table = FlowTable::new(2).unwrap();
    table.upsert(7, 100);
    table.upsert(8, 200);
    table.upsert(7, 300);
    assert_eq!(table.len(), 2);
    assert_eq!(table.get(7), Some(300));
    table.upsert(9, 400);
    assert_eq!(table.get(8), None);
    assert_eq!(table.get(7), Some(300));
    table.remove(7);
    table.remove(7);
    assert_eq!(table.get(7), None);
    assert_eq!(table.len(), 1);
    assert_eq!(FlowTable::with_default_capacity().len(), 0);
}

#[test]
fn flow_key_is_the_same_in_both_directions() {
    let out = Packet {
        source_ip: ip(10, 0, 0, 1),
        source_port: 1234,
        destination_ip: ip(93, 184, 216, 34),
        destination_port: 443,
        protocol: 6,
        reset: false,
    };
    let back = Packet {
        source_ip: ip(93, 184, 216, 34),
        source_port: 443,
        destination_ip: ip(10, 0, 0, 1),
        destination_port: 1234,
        protocol: 6,
        reset: false,
    };
    let flow = FlowKey {
        src_ip: ip(10, 0, 0, 1),
        src_port: 1234,
        dst_ip: ip(93, 184, 216, 34),
        dst_port: 443,
    };
    assert_eq!(flow_of_egress(&out), flow);
    assert_eq!(flow_of_ingress(&back), flow);
    assert_ne!(flow_of_ingress(&out), flow);
}

#[test]
fn flow_hash_has_the_documented_values() {
    let zero = FlowKey { src_ip: 0, src_port: 0, dst_ip: 0, dst_port: 0 };
    assert_eq!(hash_flow(&zero), 0);
    assert_eq!(hash_flow(&FlowKey { dst_port: 1, ..zero }), 0xC2B2_AE3D_27D4_EB4F);
    assert_eq!(hash_flow(&FlowKey { dst_ip: 1, ..zero }), 0x9E37_79B9_7F4A_7C15);
    assert_eq!(hash_flow(&FlowKey { src_port: 1, ..zero }), 12555235131613184000);
    let flow = FlowKey {
        src_ip: ip(10, 0, 0, 1),
        src_port: 1234,
        dst_ip: ip(93, 184, 216, 34),
        dst_port: 443,
    };
    assert_eq!(
        hash_flow(&FlowKey {
            src_ip: 0x0A00_0001,
            src_port: 1234,
            dst_ip: 0x5DB8_D822,
            dst_port: 443
        }),
        0xce13_3291_a0ef_037f
    );
    let swapped = FlowKey { src_port: 443, dst_port: 1234, ..flow };
    assert_ne!(hash_flow(&swapped), hash_flow(&flow));
    let reversed = FlowKey {
        src_ip: flow.dst_ip,
        src_port: flow.dst_port,
        dst_ip: flow.src_ip,
        dst_port: flow.src_port,
    };
    assert_ne!(hash_flow(&reversed), hash_flow(&flow));
}

#[test]
fn ratelimit_keys_and_counts() {
    assert_eq!(key_for(0, 0), 0);
    assert_eq!(key_for(0, 7), 7);
    assert_eq!(key_for(1, 0), 1 << 32);
    assert_eq!(key_for(u32::from_be_bytes([10, 0, 0, 7]), 3), 720575970444050435);
    assert_eq!(key_for(u32::MAX, u32::MAX), u64::MAX);
    assert!(RatelimitTable::new(0).is_none());
    let mut table = RatelimitTable::new(2).unwrap();
    assert_eq!(table.get(5), None);
    assert_eq!(table.increment(5), 1);
    assert_eq!(table.increment(5), 2);
    assert_eq!(table.increment(6), 1);
    assert_eq!(table.increment(7), 1);
    assert_eq!(table.get(5), None);
    assert_eq!(table.increment(5), 1);
    assert_eq!(table.len(), 2);
    table.clear_all();
    assert_eq!(table.len(), 0);
    assert_eq!(table.increment(7), 1);
    assert_eq!(RatelimitTable::with_default_capacity().len(), 0);
}

#[test]
fn limit_is_exceeded_only_by_strictly_more() {
    assert!(check_limit(10, 10));
    assert!(!check_limit(11, 10));
    assert!(check_limit(1, 1));
    assert!(check_limit(u64::MAX, 0));
    assert!(!check_limit(u64::MAX, u32::MAX));
    assert!(check_limit(u32::MAX as u64, u32::MAX));
}

#[test]
fn ledger_keeps_keys_in_order_of_first_entry() {
    let mut ledger: Ledger<u64> = Ledger::new();
    assert_eq!(ledger.len(), 0);
    assert_eq!(ledger.get(3), None);
    ledger.set(3, 30);
    ledger.set(-1, 10);
    ledger.set(3, 31);
    assert_eq!(ledger.len(), 2);
    assert_eq!(ledger.get(3), Some(31));
    assert_eq!(ledger.get(-1), Some(10));
    assert_eq!((ledger.row(0).key, ledger.row(0).value), (3, 31));
    assert_eq!((ledger.row(1).key, ledger.row(1).value), (-1, 10));
}

#[test]
fn analytics_count_up_and_saturate() {
    let mut rules: Ledger<RuleAnalytics> = Ledger::new();
    record_passed(&mut rules, 4);
    assert_eq!(rules.get(4), Some(RuleAnalytics { rule_id: 4, evaluated: 0, passed: 1 }));
    record_evaluated(&mut rules, 4);
    record_evaluated(&mut rules, 4);
    record_evaluated(&mut rules, 9);
    assert_eq!(rules.get(4), Some(RuleAnalytics { rule_id: 4, evaluated: 2, passed: 1 }));
    assert_eq!(rules.get(9), Some(RuleAnalytics { rule_id: 9, evaluated: 1, passed: 0 }));
    rules.set(4, RuleAnalytics { rule_id: 4, evaluated: u128::MAX, passed: u128::MAX - 1 });
    record_evaluated(&mut rules, 4);
    record_passed(&mut rules, 4);
    record_passed(&mut rules, 4);
    assert_eq!(
        rules.get(4),
        Some(RuleAnalytics { rule_id: 4, evaluated: u128::MAX, passed: u128::MAX })
    );
    let mut actions: Ledger<u128> = Ledger::new();
    record_action(&mut actions, 2);
    record_action(&mut actions, 2);
    record_action(&mut actions, -1);
    assert_eq!(actions.get(2), Some(2));
    assert_eq!(actions.get(-1), Some(1));
    actions.set(2, u128::MAX);
    record_action(&mut actions, 2);
    assert_eq!(actions.get(2), Some(u128::MAX));
}
