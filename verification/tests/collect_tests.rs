use node_telemetry::container::calc_cpu_usage;
use node_telemetry::container::calc_mem_usage;
use node_telemetry::container::get_blk;
use node_telemetry::container::get_container_id;
use node_telemetry::container::LookupError;
use node_telemetry::container::get_network_rx_tx;
use node_telemetry::container::node_stats_of;
use node_telemetry::container::update_node_stats;
use node_telemetry::container::BlkioStatEntry;
use node_telemetry::container::NetworkStats;
use node_telemetry::container::Stats;
use node_telemetry::json::Json;
use node_telemetry::reward::block_rate;
use node_telemetry::reward::format_percent;
use node_telemetry::reward::is_success;
use node_telemetry::reward::node_detail_of_json;
use node_telemetry::reward::node_detail_of_reply;
use node_telemetry::reward::node_detail_request;
use node_telemetry::reward::parse_node_detail;
use node_telemetry::reward::record_reply;
use node_telemetry::reward::rounded;
use node_telemetry::reward::Reply;
use node_telemetry::sample::read_sample;
use node_telemetry::store::Data;
use node_telemetry::store::NodeDetail;
use node_telemetry::stream::StatsStream;
use node_telemetry::stream::Step;

fn entry(op: &str, value: u64) -> BlkioStatEntry {
    BlkioStatEntry { op: op.to_string(), value }
}

fn sample() -> Stats {
    Stats {
        cpu_total_usage: 2_000,
        percpu_usage: Some(vec![1, 2, 3, 4]),
        system_cpu_usage: Some(110_000),
        precpu_total_usage: 1_000,
        precpu_system_cpu_usage: Some(100_000),
        memory_usage: 700,
        memory_limit: 2_000,
        memory_cache: Some(200),
        networks: Some(vec![
            NetworkStats { rx_bytes: 5, tx_bytes: 7 },
            NetworkStats { rx_bytes: 11, tx_bytes: 13 },
        ]),
        io_service_bytes: Some(vec![
            entry("Read", 100),
            entry("Write", 30),
            entry("Sync", 999),
            entry("Read", 1),
            entry("read", 50),
            entry("Write", 2),
        ]),
    }
}

const DOCUMENT: &str = r#"{
  "read": "2024-01-01T00:00:01Z",
  "preread": "2024-01-01T00:00:00Z",
  "cpu_stats": {
    "cpu_usage": {"total_usage": 2000, "percpu_usage": [1, 2, 3, 4], "usage_in_kernelmode": 1, "usage_in_usermode": 2},
    "system_cpu_usage": 110000,
    "online_cpus": 4
  },
  "precpu_stats": {
    "cpu_usage": {"total_usage": 1000, "usage_in_kernelmode": 1, "usage_in_usermode": 2},
    "system_cpu_usage": 100000
  },
  "memory_stats": {"usage": 700, "max_usage": 900, "stats": {"cache": 200, "rss": 5}, "limit": 2000},
  "networks": {
    "eth0": {"rx_bytes": 5, "rx_errors": 0, "rx_dropped": 0, "tx_bytes": 7, "tx_errors": 0, "tx_dropped": 0},
    "eth1": {"rx_bytes": 11, "rx_errors": 0, "rx_dropped": 0, "tx_bytes": 13, "tx_errors": 0, "tx_dropped": 0}
  },
  "blkio_stats": {
    "io_service_bytes_recursive": [
      {"major": 8, "minor": 0, "op": "Read", "value": 100},
      {"major": 8, "minor": 0, "op": "Write", "value": 30},
      {"major": 8, "minor": 0, "op": "Sync", "value": 999},
      {"major": 8, "minor": 16, "op": "Read", "value": 1},
      {"major": 8, "minor": 16, "op": "Write", "value": 2}
    ]
  }
}"#;

#[test]
fn cpu_usage_is_share_of_system_time_by_cores() {
    assert_eq!(calc_cpu_usage(&sample()), Some(4000));
}

#[test]
fn cpu_usage_without_earlier_system_time_counts_from_zero() {
    let mut s = sample();
    s.precpu_system_cpu_usage = None;
    s.system_cpu_usage = Some(200_000);
    assert_eq!(calc_cpu_usage(&s), Some(200));
}

#[test]
fn cpu_usage_needs_its_counters() {
    let mut s = sample();
    s.system_cpu_usage = None;
    assert_eq!(calc_cpu_usage(&s), None);
    let mut s = sample();
    s.percpu_usage = None;
    assert_eq!(calc_cpu_usage(&s), None);
    let mut s = sample();
    s.precpu_total_usage = 3_000;
    assert_eq!(calc_cpu_usage(&s), None);
    let mut s = sample();
    s.precpu_system_cpu_usage = Some(120_000);
    assert_eq!(calc_cpu_usage(&s), None);
    let mut s = sample();
    s.precpu_system_cpu_usage = Some(110_000);
    assert_eq!(calc_cpu_usage(&s), Some(0));
}

#[test]
fn memory_usage_leaves_out_the_cache() {
    assert_eq!(calc_mem_usage(&sample()), Some((500, 2500)));
    let mut s = sample();
    s.memory_cache = None;
    assert_eq!(calc_mem_usage(&s), None);
    let mut s = sample();
    s.memory_cache = Some(701);
    assert_eq!(calc_mem_usage(&s), None);
    let mut s = sample();
    s.memory_limit = 0;
    assert_eq!(calc_mem_usage(&s), Some((500, 0)));
}

#[test]
fn network_traffic_is_summed_over_interfaces() {
    assert_eq!(get_network_rx_tx(&sample()), (16, 20));
    let mut s = sample();
    s.networks = None;
    assert_eq!(get_network_rx_tx(&s), (0, 0));
    s.networks = Some(vec![
        NetworkStats { rx_bytes: u64::MAX, tx_bytes: 1 },
        NetworkStats { rx_bytes: 1, tx_bytes: 1 },
    ]);
    assert_eq!(get_network_rx_tx(&s), (u64::MAX, 2));
}

#[test]
fn block_io_counts_read_and_write_only() {
    assert_eq!(get_blk(&sample()), (101, 32));
    let mut s = sample();
    s.io_service_bytes = None;
    assert_eq!(get_blk(&s), (0, 0));
    s.io_service_bytes = Some(vec![]);
    assert_eq!(get_blk(&s), (0, 0));
}

#[test]
fn sample_gives_node_stats() {
    let stats = node_stats_of(&sample()).unwrap();
    assert_eq!(stats.cpu_percent, 4000);
    assert_eq!(stats.mem, 500);
    assert_eq!(stats.mem_percent, 2500);
    assert_eq!(stats.mem_limit, 2000);
    assert_eq!(stats.network_rx, 16);
    assert_eq!(stats.network_tx, 20);
    assert_eq!(stats.blk_read, 101);
    assert_eq!(stats.blk_write, 32);
}

#[test]
fn unusable_sample_keeps_earlier_stats() {
    let mut data = Data::new();
    assert!(update_node_stats("node1", &mut data, &sample()));
    let mut broken = sample();
    broken.memory_cache = None;
    assert!(!update_node_stats("node1", &mut data, &broken));
    assert_eq!(data.stats_of("node1").unwrap().mem, 500);
    assert_eq!(data.stats().len(), 1);
}

#[test]
fn json_is_parsed_into_a_tree() {
    let json = Json::parse(br#"{"a": 1, "b": -2, "c": 1.5, "d": "x", "e": [true, null], "f": {}}"#)
        .unwrap();
    assert_eq!(json.get("a").unwrap().as_u64(), Some(1));
    assert_eq!(json.get("a").unwrap().as_i64(), Some(1));
    assert_eq!(json.get("b").unwrap().as_u64(), None);
    assert_eq!(json.get("b").unwrap().as_i64(), Some(-2));
    assert_eq!(json.get("c").unwrap().as_u64(), None);
    assert_eq!(json.get("c").unwrap().as_i64(), None);
    assert!(matches!(json.get("c").unwrap(), Json::Real(t) if t == "1.5"));
    assert_eq!(json.get("d").unwrap().as_str(), Some("x"));
    assert_eq!(json.get("a").unwrap().as_str(), None);
    assert!(matches!(json.get("e").unwrap(), Json::Array(items) if items.len() == 2));
    assert!(matches!(json.get("f").unwrap(), Json::Object(members) if members.is_empty()));
    assert!(json.get("zz").is_none());
    assert!(json.get("d").unwrap().get("a").is_none());
}

#[test]
fn large_numbers_keep_their_kind() {
    let json = Json::parse(br#"[18446744073709551615, 9223372036854775808, -9223372036854775808]"#)
        .unwrap();
    match json {
        Json::Array(items) => {
            assert_eq!(items[0].as_u64(), Some(u64::MAX));
            assert_eq!(items[0].as_i64(), None);
            assert_eq!(items[1].as_u64(), Some(9223372036854775808));
            assert_eq!(items[1].as_i64(), None);
            assert_eq!(items[2].as_i64(), Some(i64::MIN));
            assert_eq!(items[2].as_u64(), None);
        },
        _ => panic!("not an array"),
    }
}

#[test]
fn text_that_is_no_json_gives_nothing() {
    assert!(Json::parse(b"").is_none());
    assert!(Json::parse(b"{").is_none());
    assert!(Json::parse(b"{\"a\": 1").is_none());
    assert!(Json::parse(b"{} {}").is_none());
    assert!(Json::parse(b"{}x").is_none());
    assert!(Json::parse(b" {} ").is_some());
}

#[test]
fn sample_is_read_from_a_document() {
    let json = Json::parse(DOCUMENT.as_bytes()).unwrap();
    let stats = read_sample(&json).unwrap();
    assert_eq!(stats.cpu_total_usage, 2000);
    assert_eq!(stats.percpu_usage, Some(vec![1, 2, 3, 4]));
    assert_eq!(stats.system_cpu_usage, Some(110000));
    assert_eq!(stats.precpu_total_usage, 1000);
    assert_eq!(stats.precpu_system_cpu_usage, Some(100000));
    assert_eq!(stats.memory_usage, 700);
    assert_eq!(stats.memory_limit, 2000);
    assert_eq!(stats.memory_cache, Some(200));
    assert_eq!(stats.networks.as_ref().unwrap().len(), 2);
    assert_eq!(stats.io_service_bytes.as_ref().unwrap().len(), 5);
    let node = node_stats_of(&stats).unwrap();
    assert_eq!(node.cpu_percent, 4000);
    assert_eq!(node.mem_percent, 2500);
    assert_eq!(node.network_rx, 16);
    assert_eq!(node.blk_read, 101);
    assert_eq!(node.blk_write, 32);
}

#[test]
fn document_without_a_needed_member_is_no_sample() {
    assert!(read_sample(&Json::parse(b"{}").unwrap()).is_none());
    let missing_limit = DOCUMENT.replace("\"limit\": 2000", "\"other\": 2000");
    assert!(read_sample(&Json::parse(missing_limit.as_bytes()).unwrap()).is_none());
    let wrong_kind = DOCUMENT.replace("\"usage\": 700", "\"usage\": \"700\"");
    assert!(read_sample(&Json::parse(wrong_kind.as_bytes()).unwrap()).is_none());
    let bad_interface = DOCUMENT.replace("\"rx_bytes\": 11", "\"rx_bytes\": -11");
    assert!(read_sample(&Json::parse(bad_interface.as_bytes()).unwrap()).is_none());
}

#[test]
fn optional_members_may_be_missing_or_null() {
    let doc = br#"{
      "cpu_stats": {"cpu_usage": {"total_usage": 5, "percpu_usage": null}, "system_cpu_usage": null},
      "precpu_stats": {"cpu_usage": {"total_usage": 4}},
      "memory_stats": {"usage": 7, "limit": 9, "stats": {}},
      "networks": null
    }"#;
    let stats = read_sample(&Json::parse(doc).unwrap()).unwrap();
    assert_eq!(stats.percpu_usage, None);
    assert_eq!(stats.system_cpu_usage, None);
    assert_eq!(stats.precpu_system_cpu_usage, None);
    assert_eq!(stats.memory_cache, None);
    assert!(stats.networks.is_none());
    assert!(stats.io_service_bytes.is_none());
    assert!(node_stats_of(&stats).is_none());
}

#[test]
fn object_in_three_chunks_gives_one_sample() {
    let bytes = DOCUMENT.as_bytes();
    for (first, second) in [(1usize, 2usize), (10, 200), (300, 301), (bytes.len() - 2, bytes.len() - 1)] {
        let mut stream = StatsStream::new();
        let mut data = Data::new();
        assert_eq!(stream.on_chunk("node1", &mut data, &bytes[..first]), Step::Waiting);
        assert_eq!(stream.pending(), first);
        assert!(data.stats().is_empty());
        assert_eq!(stream.on_chunk("node1", &mut data, &bytes[first..second]), Step::Waiting);
        assert_eq!(stream.pending(), second);
        assert!(data.stats().is_empty());
        assert_eq!(stream.on_chunk("node1", &mut data, &bytes[second..]), Step::Updated);
        assert_eq!(stream.pending(), 0);
        assert_eq!(data.stats().len(), 1);
        assert_eq!(data.stats_of("node1").unwrap().cpu_percent, 4000);
    }
}

#[test]
fn stream_takes_one_sample_after_another() {
    let mut stream = StatsStream::new();
    let mut data = Data::new();
    assert_eq!(stream.on_chunk("n", &mut data, DOCUMENT.as_bytes()), Step::Updated);
    assert_eq!(stream.pending(), 0);
    let second = DOCUMENT.replace("\"usage\": 700", "\"usage\": 1200");
    let (a, b) = second.as_bytes().split_at(50);
    assert_eq!(stream.on_chunk("n", &mut data, a), Step::Waiting);
    assert_eq!(stream.on_chunk("n", &mut data, b), Step::Updated);
    assert_eq!(data.stats_of("n").unwrap().mem, 1000);
    assert_eq!(data.stats().len(), 1);
}

#[test]
fn empty_chunk_changes_nothing() {
    let mut stream = StatsStream::new();
    assert!(stream.feed(b"").is_none());
    assert_eq!(stream.pending(), 0);
    assert!(stream.feed(b"{\"a\"").is_none());
    assert!(stream.feed(b"").is_none());
    assert_eq!(stream.pending(), 4);
    let doc = stream.feed(b": 1}").unwrap();
    assert_eq!(doc.get("a").unwrap().as_u64(), Some(1));
    assert_eq!(stream.pending(), 0);
}

#[test]
fn document_that_is_no_object_is_gathered() {
    let mut stream = StatsStream::new();
    assert!(stream.feed(b"[1, 2]").is_none());
    assert_eq!(stream.pending(), 6);
    assert!(stream.feed(b"12").is_none());
    assert_eq!(stream.pending(), 8);
}

#[test]
fn object_without_a_sample_is_skipped() {
    let mut stream = StatsStream::new();
    let mut data = Data::new();
    assert_eq!(stream.on_chunk("n", &mut data, b"{\"message\": \"no such container\"}"), Step::Skipped);
    assert_eq!(stream.pending(), 0);
    assert!(data.stats().is_empty());
}

fn reply(status: u16, body: &str) -> Reply {
    Reply::Response { status, body: Some(body.as_bytes().to_vec()) }
}

const DETAIL: &str = r#"{"code":0,"errMsg":"","data":{"nodeName":"validator-1","blockQty":80,"expectBlockQty":100,"genBlocksRate":"99.10%","rewardPer":"12.5","rewardValue":"1000.25","denefitAddr":"lat1abc","verifierTime":42}}"#;

#[test]
fn reward_reply_gives_block_rate() {
    let detail = node_detail_of_reply(&reply(200, DETAIL)).unwrap();
    assert_eq!(detail.block_rate, "80.00%");
    assert_eq!(detail.node_name, "validator-1");
    assert_eq!(detail.block_qty, 80);
    assert_eq!(detail.daily_block_rate, "99.10%");
    assert_eq!(detail.reward_per, "12.5");
    assert_eq!(detail.reward_value, "1000.25");
    assert_eq!(detail.reward_address, "lat1abc");
    assert_eq!(detail.verifier_time, 42);
}

#[test]
fn failed_reward_fetch_clears_the_detail() {
    let mut data = Data::new();
    record_reply(&mut data, &reply(200, DETAIL));
    assert_eq!(data.node_detail().unwrap().block_rate, "80.00%");
    record_reply(&mut data, &Reply::TransportError);
    assert!(data.node_detail().is_none());
    let failures = [
        reply(200, r#"{"code":1,"data":{"nodeName":"x"}}"#),
        reply(200, r#"{"code":-1,"data":{"nodeName":"x"}}"#),
        reply(200, r#"{"code":"0","data":{"nodeName":"x"}}"#),
        reply(200, r#"{"data":{"nodeName":"x"}}"#),
        reply(200, r#"{"code":0}"#),
        reply(200, r#"{"code":0,"data":null}"#),
        reply(200, r#"{"code":0,"data":"text"}"#),
        reply(200, r#"{"code":0,"data":7}"#),
        reply(200, r#"{"code":0,"data":[{"nodeName":"x"}]}"#),
        reply(200, r#"{"code":0.0,"data":{"nodeName":"x"}}"#),
        reply(200, r#"{"code":0,"data":"#),
        reply(200, ""),
        reply(199, DETAIL),
        reply(300, DETAIL),
        reply(404, DETAIL),
        reply(500, DETAIL),
        Reply::Response { status: 200, body: None },
    ];
    for failure in failures.iter() {
        record_reply(&mut data, &reply(299, DETAIL));
        assert!(data.node_detail().is_some());
        record_reply(&mut data, failure);
        assert!(data.node_detail().is_none(), "{:?}", failure);
    }
}

#[test]
fn success_is_a_status_from_200_to_299() {
    assert!(!is_success(199));
    assert!(is_success(200));
    assert!(is_success(204));
    assert!(is_success(299));
    assert!(!is_success(300));
    assert!(!is_success(0));
}

#[test]
fn missing_members_of_a_detail_count_as_empty() {
    let json = Json::parse(br#"{"code":0,"data":{"blockQty":"80","rewardPer":5,"nodeName":null}}"#)
        .unwrap();
    let detail: NodeDetail = node_detail_of_json(&json).unwrap();
    assert_eq!(detail.node_name, "");
    assert_eq!(detail.block_qty, 0);
    assert_eq!(detail.block_rate, "");
    assert_eq!(detail.daily_block_rate, "");
    assert_eq!(detail.reward_per, "");
    assert_eq!(detail.reward_value, "");
    assert_eq!(detail.reward_address, "");
    assert_eq!(detail.verifier_time, 0);
    let empty = Json::parse(br#"{"code":0,"data":{}}"#).unwrap();
    assert_eq!(node_detail_of_json(&empty).unwrap().block_rate, "");
    let direct = parse_node_detail(&Json::parse(br#"{"blockQty":1,"expectBlockQty":3}"#).unwrap());
    assert_eq!(direct.block_rate, "33.33%");
}

#[test]
fn block_rate_has_two_decimals() {
    assert_eq!(block_rate(80, 100), "80.00%");
    assert_eq!(block_rate(1, 3), "33.33%");
    assert_eq!(block_rate(2, 3), "66.67%");
    assert_eq!(block_rate(1, 1), "100.00%");
    assert_eq!(block_rate(3, 2), "150.00%");
    assert_eq!(block_rate(1, 10000), "0.01%");
    assert_eq!(block_rate(1, 1000000), "0.00%");
    assert_eq!(block_rate(5, 100), "5.00%");
    assert_eq!(block_rate(0, 100), "");
    assert_eq!(block_rate(100, 0), "");
    assert_eq!(block_rate(0, 0), "");
    assert_eq!(block_rate(u64::MAX, 1), "1844674407370955161500.00%");
}

#[test]
fn rounding_goes_to_the_nearest_and_from_the_middle_to_even() {
    assert_eq!(rounded(1, 3), 3333);
    assert_eq!(rounded(2, 3), 6667);
    assert_eq!(rounded(1, 80000), 0);
    assert_eq!(rounded(3, 80000), 0);
    assert_eq!(rounded(1, 20000), 0);
    assert_eq!(rounded(3, 20000), 2);
    assert_eq!(rounded(5, 20000), 2);
    assert_eq!(rounded(7, 20000), 4);
    assert_eq!(format_percent(0), "0.00%");
    assert_eq!(format_percent(7), "0.07%");
    assert_eq!(format_percent(1234), "12.34%");
    assert_eq!(format_percent(10000), "100.00%");
}

#[test]
fn reward_request_names_the_node() {
    let request = node_detail_request("0xabc\"def");
    assert_eq!(request.url, "https://scan.platon.network/browser-server/staking/stakingDetails");
    assert_eq!(request.content_type, "application/json");
    assert_eq!(request.body, r#"{"nodeId":"0xabc\"def"}"#);
    let parsed = Json::parse(request.body.as_bytes()).unwrap();
    assert_eq!(parsed.get("nodeId").unwrap().as_str(), Some("0xabc\"def"));
}

#[test]
fn container_is_found_by_part_of_its_name() {
    let list = Json::parse(
        br#"[
            {"Id": "aaa", "Names": ["/db"]},
            {"Names": ["/node1-without-id"]},
            {"Id": "bbb", "Names": ["/x", "/platon-node1"]},
            {"Id": "ccc", "Names": ["/node1"]}
        ]"#,
    )
    .unwrap();
    assert_eq!(get_container_id(&list, "node1"), Ok("bbb".to_string()));
    assert_eq!(get_container_id(&list, "/db"), Ok("aaa".to_string()));
    assert_eq!(get_container_id(&list, ""), Ok("aaa".to_string()));
}

#[test]
fn container_that_is_not_listed_is_not_found() {
    let list = Json::parse(br#"[{"Id": "aaa", "Names": ["/db"]}, {"Id": 5, "Names": ["/n"]}]"#)
        .unwrap();
    assert_eq!(get_container_id(&list, "node1"), Err(LookupError::NotFound));
    assert_eq!(get_container_id(&list, "/n"), Err(LookupError::NotFound));
    assert_eq!(get_container_id(&Json::parse(b"[]").unwrap(), "a"), Err(LookupError::NotFound));
    assert_eq!(get_container_id(&Json::parse(b"{}").unwrap(), "a"), Err(LookupError::NotFound));
}

#[test]
fn payload_that_is_no_object_is_no_detail() {
    for body in [
        r#"{"code":0,"data":null}"#,
        r#"{"code":0,"data":"x"}"#,
        r#"{"code":0,"data":1}"#,
        r#"{"code":0,"data":true}"#,
        r#"{"code":0,"data":[]}"#,
    ] {
        let json = Json::parse(body.as_bytes()).unwrap();
        assert!(node_detail_of_json(&json).is_none(), "{}", body);
    }
    let json = Json::parse(br#"{"code":0,"data":{"nodeName":"n"}}"#).unwrap();
    assert_eq!(node_detail_of_json(&json).unwrap().node_name, "n");
}
