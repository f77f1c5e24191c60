use node_telemetry::store::ConsensusState;
use node_telemetry::store::Data;
use node_telemetry::store::DiskDetail;
use node_telemetry::store::Head;
use node_telemetry::store::NodeDetail;
use node_telemetry::store::NodeStats;
use node_telemetry::store::SystemStats;

fn disk(mount_point: &str) -> DiskDetail {
    DiskDetail {
        mount_point: mount_point.to_string(),
        filesystem: "ext4".to_string(),
        total: 100,
        used: 40,
        available: 60,
        usage_percent: 4000,
        device: "/dev/sda1".to_string(),
        is_alert: false,
        is_network: false,
        last_updated: 0,
    }
}

fn stats_with_disks(mounts: &[&str]) -> SystemStats {
    let mut stats = SystemStats::default();
    for m in mounts {
        stats.disk_details.push(disk(m));
    }
    stats
}

fn state(name: &str, number: u64) -> ConsensusState {
    let mut s = ConsensusState::default();
    s.name = name.to_string();
    s.host = "127.0.0.1:6789".to_string();
    s.current_number = number;
    s
}

#[test]
fn new_store_is_empty() {
    let mut data = Data::new();
    assert_eq!(data.cur_block_number(), 0);
    assert_eq!(data.cur_block_time(), 0);
    assert_eq!(data.prev_block_time(), 0);
    assert_eq!(data.cur_txs(), 0);
    assert_eq!(data.max_txs(), 0);
    assert_eq!(data.max_txs_block_number(), 0);
    assert_eq!(data.cur_interval(), 0);
    assert_eq!(data.max_interval(), 0);
    assert!(data.states().is_empty());
    assert!(data.stats().is_empty());
    assert!(data.node_detail().is_none());
    assert!(data.txns_and_clear().is_empty());
    assert!(data.intervals_and_clear().is_empty());
    let system = data.system_stats();
    assert_eq!(system.alert_threshold, 9000);
    assert!(system.auto_discovery_enabled);
    assert!(!system.has_disk_alerts);
    assert!(system.disk_details.is_empty());
    assert_eq!(system.current_disk_index, 0);
}

#[test]
fn default_consensus_state_is_zeroed() {
    let s = ConsensusState::default();
    assert_eq!(s.name, "");
    assert_eq!(s.host, "");
    assert_eq!(s.current_number, 0);
    assert_eq!(s.epoch, 0);
    assert_eq!(s.view, 0);
    assert_eq!(s.committed, 0);
    assert_eq!(s.locked, 0);
    assert_eq!(s.qc, 0);
    assert!(!s.validator);
}

#[test]
fn default_node_stats_are_zero() {
    let s = NodeStats::default();
    assert_eq!(
        s,
        NodeStats {
            cpu_percent: 0,
            mem: 0,
            mem_percent: 0,
            mem_limit: 0,
            network_rx: 0,
            network_tx: 0,
            blk_read: 0,
            blk_write: 0,
        }
    );
}

#[test]
fn heads_give_maxima_and_intervals() {
    let mut data = Data::new();
    let heads: [(u64, u64, u64); 5] =
        [(10, 1000, 3), (11, 1002, 7), (12, 1003, 7), (13, 1010, 2), (14, 1011, 5)];
    for (number, timestamp, txs) in heads {
        assert!(data.accepts(timestamp));
        data.record_head(number, timestamp, txs);
    }
    assert_eq!(data.cur_block_number(), 14);
    assert_eq!(data.cur_block_time(), 1011);
    assert_eq!(data.prev_block_time(), 1010);
    assert_eq!(data.cur_txs(), 5);
    assert_eq!(data.max_txs(), 7);
    assert_eq!(data.max_txs_block_number(), 11);
    assert_eq!(data.cur_interval(), 1);
    assert_eq!(data.max_interval(), 7);
    assert_eq!(data.intervals_and_clear(), vec![2, 1, 7, 1]);
    assert_eq!(data.txns_and_clear(), vec![3, 7, 7, 2, 5]);
}

#[test]
fn first_head_gives_no_interval() {
    let mut data = Data::new();
    data.record_head(1, 500, 4);
    assert_eq!(data.prev_block_time(), 0);
    assert_eq!(data.cur_interval(), 0);
    assert_eq!(data.max_interval(), 0);
    assert!(data.intervals_and_clear().is_empty());
    assert_eq!(data.txns_and_clear(), vec![4]);
}

#[test]
fn head_with_time_zero_sets_no_reference() {
    let mut data = Data::new();
    data.record_head(1, 0, 1);
    data.record_head(2, 9, 1);
    assert_eq!(data.prev_block_time(), 0);
    assert!(data.intervals_and_clear().is_empty());
    data.record_head(3, 12, 1);
    assert_eq!(data.prev_block_time(), 9);
    assert_eq!(data.intervals_and_clear(), vec![3]);
}

#[test]
fn head_earlier_than_the_last_is_not_accepted() {
    let mut data = Data::new();
    data.record_head(1, 100, 0);
    assert!(!data.accepts(99));
    assert!(data.accepts(100));
    assert!(data.accepts(101));
}

#[test]
fn equal_count_does_not_move_the_maximum() {
    let mut data = Data::new();
    data.record_head(5, 10, 9);
    data.record_head(6, 11, 9);
    assert_eq!(data.max_txs(), 9);
    assert_eq!(data.max_txs_block_number(), 5);
}

#[test]
fn drain_twice_gives_all_then_nothing() {
    let mut data = Data::new();
    data.record_head(1, 10, 3);
    data.record_head(2, 14, 4);
    data.record_head(3, 15, 5);
    assert_eq!(data.txns_and_clear(), vec![3, 4, 5]);
    assert_eq!(data.txns_and_clear(), Vec::<u64>::new());
    assert_eq!(data.intervals_and_clear(), vec![4, 1]);
    assert_eq!(data.intervals_and_clear(), Vec::<u64>::new());
    assert_eq!(data.max_txs(), 5);
    assert_eq!(data.max_interval(), 4);
}

#[test]
fn three_disks_cycle() {
    let mut data = Data::new();
    data.publish_system_stats(stats_with_disks(&["/", "/data", "/opt"]));
    assert_eq!(data.system_stats().current_disk_index, 0);
    data.select_next_disk();
    assert_eq!(data.system_stats().current_disk_index, 1);
    data.select_next_disk();
    assert_eq!(data.system_stats().current_disk_index, 2);
    data.select_next_disk();
    assert_eq!(data.system_stats().current_disk_index, 0);
    data.select_prev_disk();
    assert_eq!(data.system_stats().current_disk_index, 2);
    data.select_prev_disk();
    assert_eq!(data.system_stats().current_disk_index, 1);
}

#[test]
fn navigation_without_disks_does_nothing() {
    let mut data = Data::new();
    data.update_disk_index(4);
    data.select_next_disk();
    assert_eq!(data.system_stats().current_disk_index, 4);
    data.select_prev_disk();
    assert_eq!(data.system_stats().current_disk_index, 4);
}

#[test]
fn refresh_keeps_the_selected_disk() {
    let mut data = Data::new();
    data.publish_system_stats(stats_with_disks(&["/", "/data", "/opt"]));
    data.select_next_disk();
    data.select_next_disk();
    let mut fresh = stats_with_disks(&["/", "/data"]);
    fresh.cpu_usage = 1234;
    data.publish_system_stats(fresh);
    let system = data.system_stats();
    assert_eq!(system.current_disk_index, 2);
    assert_eq!(system.cpu_usage, 1234);
    assert_eq!(system.disk_details.len(), 2);
    assert_eq!(system.selected_disk(), 1);
}

#[test]
fn selected_disk_is_clamped() {
    let mut stats = stats_with_disks(&["/", "/data", "/opt"]);
    stats.current_disk_index = 1;
    assert_eq!(stats.selected_disk(), 1);
    stats.current_disk_index = 7;
    assert_eq!(stats.selected_disk(), 2);
    let mut none = SystemStats::default();
    none.current_disk_index = 7;
    assert_eq!(none.selected_disk(), 0);
}

#[test]
fn last_state_of_a_node_wins() {
    let mut data = Data::new();
    data.update_state(state("a", 1));
    data.update_state(state("b", 2));
    data.update_state(state("a", 3));
    let states = data.states();
    assert_eq!(states.len(), 2);
    assert_eq!(states[0].name, "a");
    assert_eq!(states[0].current_number, 3);
    assert_eq!(states[1].name, "b");
    assert_eq!(states[1].current_number, 2);
    assert_eq!(data.state_of("a").unwrap().current_number, 3);
    assert_eq!(data.state_of("b").unwrap().current_number, 2);
    assert!(data.state_of("c").is_none());
}

#[test]
fn last_stats_of_a_node_win() {
    let mut data = Data::new();
    let mut s = NodeStats::default();
    s.mem = 1;
    data.update_stats("a", s);
    s.mem = 2;
    data.update_stats("b", s);
    s.mem = 3;
    data.update_stats("a", s);
    let all = data.stats();
    assert_eq!(all.len(), 2);
    assert_eq!(all[0].0, "a");
    assert_eq!(all[0].1.mem, 3);
    assert_eq!(all[1].0, "b");
    assert_eq!(all[1].1.mem, 2);
    assert_eq!(data.stats_of("a").unwrap().mem, 3);
    assert!(data.stats_of("zz").is_none());
}

#[test]
fn node_detail_is_replaced_whole() {
    let mut data = Data::new();
    let detail = NodeDetail {
        node_name: "n".to_string(),
        block_qty: 1,
        block_rate: "50.00%".to_string(),
        daily_block_rate: "1%".to_string(),
        reward_per: "10".to_string(),
        reward_value: "2.5".to_string(),
        reward_address: "addr".to_string(),
        verifier_time: 7,
    };
    data.update_node_detail(Some(detail));
    let got = data.node_detail().unwrap();
    assert_eq!(got.node_name, "n");
    assert_eq!(got.block_rate, "50.00%");
    assert_eq!(got.verifier_time, 7);
    data.update_node_detail(None);
    assert!(data.node_detail().is_none());
}

#[test]
fn run_of_heads_is_recorded_in_order() {
    let heads = vec![
        Head { number: 10, timestamp: 1000, txs: 3 },
        Head { number: 11, timestamp: 1002, txs: 7 },
        Head { number: 12, timestamp: 1003, txs: 7 },
        Head { number: 13, timestamp: 1010, txs: 2 },
    ];
    let mut data = Data::new();
    data.record_heads(&heads);
    assert_eq!(data.cur_block_number(), 13);
    assert_eq!(data.max_txs(), 7);
    assert_eq!(data.max_txs_block_number(), 11);
    assert_eq!(data.cur_interval(), 7);
    assert_eq!(data.max_interval(), 7);
    assert_eq!(data.intervals_and_clear(), vec![2, 1, 7]);
    assert_eq!(data.txns_and_clear(), vec![3, 7, 7, 2]);
    let mut one = Data::new();
    one.record_heads(&heads[..1].to_vec());
    assert_eq!(one.max_interval(), 0);
    assert_eq!(one.cur_interval(), 0);
    assert!(one.intervals_and_clear().is_empty());
    let mut none = Data::new();
    none.record_heads(&vec![]);
    assert_eq!(none.cur_block_number(), 0);
    assert!(none.txns_and_clear().is_empty());
}
