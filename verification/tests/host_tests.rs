use node_telemetry::host::discover_mount_points;
use node_telemetry::host::discover_mount_points_fallback;
use node_telemetry::host::disk_report;
use node_telemetry::host::is_network_filesystem;
use node_telemetry::host::is_network_name;
use node_telemetry::host::is_special_filesystem;
use node_telemetry::host::is_special_name;
use node_telemetry::host::monitored_mount_points;
use node_telemetry::host::network_totals;
use node_telemetry::host::parse_mount_line;
use node_telemetry::host::rate;
use node_telemetry::host::DiskSample;
use node_telemetry::host::HostCollector;
use node_telemetry::host::HostSample;
use node_telemetry::host::InterfaceCounters;
use node_telemetry::measure::percent;
use node_telemetry::store::Data;
use node_telemetry::text::to_lower;

fn texts(items: &[&str]) -> Vec<String> {
    items.iter().map(|s| s.to_string()).collect()
}

fn sample_disk(mount_point: &str, filesystem: &str, total: u64, available: u64) -> DiskSample {
    DiskSample {
        device: format!("/dev{}", mount_point),
        mount_point: mount_point.to_string(),
        filesystem: filesystem.to_string(),
        total,
        available,
    }
}

#[test]
fn network_file_systems_are_told_by_name() {
    assert!(is_network_filesystem("nfs"));
    assert!(is_network_filesystem("NFS4"));
    assert!(is_network_filesystem("Cifs"));
    assert!(is_network_filesystem("smbfs"));
    assert!(!is_network_filesystem("ext4"));
    assert!(!is_network_filesystem(""));
    assert!(is_network_name("nfs4"));
    assert!(!is_network_name("NFS4"));
}

#[test]
fn special_file_systems_are_told_by_name() {
    for name in [
        "proc", "sysfs", "tmpfs", "devtmpfs", "cgroup", "cgroup2", "overlay", "devpts", "mqueue",
        "hugetlbfs", "securityfs", "pstore", "debugfs", "tracefs", "fusectl", "configfs",
        "binfmt_misc", "autofs", "rpc_pipefs", "efivarfs", "bpf",
    ] {
        assert!(is_special_filesystem(name), "{}", name);
        assert!(is_special_name(name), "{}", name);
    }
    assert!(is_special_filesystem("TMPFS"));
    assert!(is_special_filesystem("fuse.sshfs"));
    assert!(is_special_filesystem("xfuse"));
    assert!(is_special_filesystem("cgroupfoo"));
    assert!(!is_special_filesystem("ext4"));
    assert!(!is_special_filesystem("xfs"));
    assert!(!is_special_filesystem("procfs"));
    assert!(!is_special_filesystem("xcgroup"));
    assert!(!is_special_name("TMPFS"));
}

#[test]
fn mount_table_is_read_line_by_line() {
    let table = "/dev/sda1 / ext4 rw,relatime 0 0\n\
                 proc /proc proc rw 0 0\n\
                 tmpfs /run tmpfs rw 0 0\n\
                 \n\
                 short line\n\
                 server:/export\t/data   nfs4 rw 0 0\r\n\
                 /dev/sdb1 /opt XFS rw";
    let mounts = discover_mount_points(table);
    assert_eq!(mounts.len(), 3);
    assert_eq!(mounts[0].device, "/dev/sda1");
    assert_eq!(mounts[0].mount_point, "/");
    assert_eq!(mounts[0].filesystem, "ext4");
    assert_eq!(mounts[1].device, "server:/export");
    assert_eq!(mounts[1].mount_point, "/data");
    assert_eq!(mounts[1].filesystem, "nfs4");
    assert_eq!(mounts[2].mount_point, "/opt");
    assert_eq!(mounts[2].filesystem, "XFS");
}

#[test]
fn empty_mount_table_names_nothing() {
    assert!(discover_mount_points("").is_empty());
    assert!(discover_mount_points("\n\n").is_empty());
}

#[test]
fn mount_line_needs_three_fields() {
    assert!(parse_mount_line("a b").is_none());
    assert!(parse_mount_line("").is_none());
    assert!(parse_mount_line("none /sys sysfs").is_none());
    let m = parse_mount_line("  dev   /mnt  ext4  ").unwrap();
    assert_eq!(m.device, "dev");
    assert_eq!(m.mount_point, "/mnt");
    assert_eq!(m.filesystem, "ext4");
}

#[test]
fn fallback_discovery_drops_special_file_systems() {
    let disks = vec![
        sample_disk("/", "ext4", 10, 5),
        sample_disk("/run", "tmpfs", 10, 5),
        sample_disk("/mnt", "fuse.sshfs", 10, 5),
        sample_disk("/data", "xfs", 10, 5),
    ];
    let mounts = discover_mount_points_fallback(&disks);
    assert_eq!(mounts.len(), 2);
    assert_eq!(mounts[0].mount_point, "/");
    assert_eq!(mounts[0].device, "/dev/");
    assert_eq!(mounts[1].mount_point, "/data");
    assert_eq!(mounts[1].filesystem, "xfs");
}

#[test]
fn discovered_and_configured_mount_points_are_merged() {
    let merged =
        monitored_mount_points(&texts(&["/", "/data"]), &texts(&["/data", "/opt"]), true);
    assert_eq!(merged, texts(&["/", "/data", "/opt"]));
}

#[test]
fn configured_duplicates_are_added_once() {
    let merged = monitored_mount_points(&texts(&["/"]), &texts(&["/opt", "/opt", "/"]), true);
    assert_eq!(merged, texts(&["/", "/opt"]));
}

#[test]
fn mount_points_discovered_twice_are_monitored_once() {
    let merged = monitored_mount_points(
        &texts(&["/", "/data", "/", "/data", "/mnt"]),
        &texts(&["/opt", "/mnt", "/opt"]),
        true,
    );
    assert_eq!(merged, texts(&["/", "/data", "/mnt", "/opt"]));
    let merged = monitored_mount_points(&texts(&["/a", "/a"]), &texts(&[]), true);
    assert_eq!(merged, texts(&["/a"]));
    let merged = monitored_mount_points(&texts(&[]), &texts(&[]), true);
    assert!(merged.is_empty());
}

#[test]
fn bind_mounts_give_one_disk_detail_each() {
    let mut collector = HostCollector::new(texts(&["/data"]), true, 9000, 0);
    let table = "/dev/sda1 /data ext4 rw 0 0\n/dev/sda1 /data ext4 ro 0 0\n";
    collector.record_discovery(&discover_mount_points(table), 5000);
    assert_eq!(collector.discovered, texts(&["/data", "/data"]));
    let sample = HostSample {
        cpu_usage: 0,
        memory_used: 0,
        memory_total: 0,
        interfaces: vec![],
        disks: vec![sample_disk("/data", "ext4", 100, 40)],
        now: 6000,
    };
    let stats = collector.refresh(&sample);
    assert_eq!(stats.disk_details.len(), 1);
    assert_eq!(stats.disk_total, 100);
    assert_eq!(stats.disk_used, 60);
}

#[test]
fn without_discovery_only_configured_mount_points_count() {
    let merged =
        monitored_mount_points(&texts(&["/", "/data"]), &texts(&["/data", "/opt"]), false);
    assert_eq!(merged, texts(&["/data", "/opt"]));
}

#[test]
fn rate_of_a_growing_counter() {
    assert_eq!(rate(1_500_000, 1_000_000), 500_000);
}

#[test]
fn rate_after_a_counter_reset_is_zero() {
    assert_eq!(rate(100, 1_500_000), 0);
    assert_eq!(rate(0, 0), 0);
    assert_eq!(rate(u64::MAX, 0), u64::MAX);
}

#[test]
fn percent_is_in_hundredths_rounded_down() {
    assert_eq!(percent(1, 3), 3333);
    assert_eq!(percent(2, 3), 6666);
    assert_eq!(percent(50, 100), 5000);
    assert_eq!(percent(100, 100), 10000);
    assert_eq!(percent(0, 100), 0);
    assert_eq!(percent(5, 0), 0);
    assert_eq!(percent(u128::MAX, 1), u64::MAX);
    assert_eq!(percent(u64::MAX as u128, u64::MAX), 10000);
}

#[test]
fn interface_counters_are_summed() {
    let interfaces = vec![
        InterfaceCounters { received: 10, transmitted: 1 },
        InterfaceCounters { received: 20, transmitted: 2 },
    ];
    assert_eq!(network_totals(&interfaces), (30, 3));
    assert_eq!(network_totals(&vec![]), (0, 0));
    let full = vec![
        InterfaceCounters { received: u64::MAX, transmitted: u64::MAX - 1 },
        InterfaceCounters { received: 1, transmitted: 1 },
        InterfaceCounters { received: 5, transmitted: 0 },
    ];
    assert_eq!(network_totals(&full), (u64::MAX, u64::MAX));
}

#[test]
fn disk_report_covers_monitored_disks_only() {
    let disks = vec![
        sample_disk("/", "ext4", 1000, 100),
        sample_disk("/boot", "ext4", 500, 400),
        sample_disk("/data", "nfs", 2000, 1500),
        sample_disk("/empty", "ext4", 0, 0),
        sample_disk("/odd", "ext4", 10, 20),
    ];
    let report = disk_report(&disks, &texts(&["/", "/data", "/empty", "/odd"]), 9000, 77);
    assert_eq!(report.details.len(), 4);
    assert_eq!(report.total, 3010);
    assert_eq!(report.used, 1400);
    assert!(report.alerts);
    let root = &report.details[0];
    assert_eq!(root.mount_point, "/");
    assert_eq!(root.device, "/dev/");
    assert_eq!(root.used, 900);
    assert_eq!(root.available, 100);
    assert_eq!(root.usage_percent, 9000);
    assert!(root.is_alert);
    assert!(!root.is_network);
    assert_eq!(root.last_updated, 77);
    let data = &report.details[1];
    assert_eq!(data.used, 500);
    assert_eq!(data.usage_percent, 2500);
    assert!(!data.is_alert);
    assert!(data.is_network);
    let empty = &report.details[2];
    assert_eq!(empty.usage_percent, 0);
    assert!(!empty.is_alert);
    let odd = &report.details[3];
    assert_eq!(odd.used, 0);
    assert_eq!(odd.usage_percent, 0);
}

#[test]
fn alert_starts_at_the_threshold() {
    let disks = vec![sample_disk("/", "ext4", 10000, 1001)];
    let below = disk_report(&disks, &texts(&["/"]), 9000, 0);
    assert_eq!(below.details[0].usage_percent, 8999);
    assert!(!below.alerts);
    let disks = vec![sample_disk("/", "ext4", 10000, 1000)];
    let at = disk_report(&disks, &texts(&["/"]), 9000, 0);
    assert_eq!(at.details[0].usage_percent, 9000);
    assert!(at.alerts);
}

#[test]
fn discovery_waits_for_its_interval() {
    let c = HostCollector::new(texts(&["/"]), true, 9000, 1000);
    assert!(!c.discovery_due(1000));
    assert!(!c.discovery_due(5999));
    assert!(c.discovery_due(6000));
    assert!(!c.discovery_due(10));
    let off = HostCollector::new(texts(&["/"]), false, 9000, 1000);
    assert!(!off.discovery_due(60000));
}

#[test]
fn failed_discovery_waits_for_the_interval_again() {
    let mut c = HostCollector::new(texts(&["/"]), true, 9000, 0);
    c.record_discovery(&discover_mount_points("/dev/sda1 /data ext4 rw 0 0\n"), 5000);
    assert!(c.discovery_due(10000));
    c.discovery_failed(10000);
    assert_eq!(c.last_discovery, 10000);
    assert_eq!(c.discovered, texts(&["/data"]));
    assert!(!c.discovery_due(14999));
    assert!(c.discovery_due(15000));
}

#[test]
fn refresh_gives_rates_and_disk_usage() {
    let mut collector = HostCollector::new(texts(&["/data", "/opt"]), true, 9000, 0);
    let table = "/dev/sda1 / ext4 rw 0 0\n/dev/sdb1 /data ext4 rw 0 0\nproc /proc proc rw 0 0\n";
    collector.record_discovery(&discover_mount_points(table), 5000);
    assert_eq!(collector.discovered, texts(&["/", "/data"]));
    assert_eq!(collector.last_discovery, 5000);
    let first = HostSample {
        cpu_usage: 1250,
        memory_used: 1,
        memory_total: 4,
        interfaces: vec![InterfaceCounters { received: 1_000_000, transmitted: 10 }],
        disks: vec![
            sample_disk("/", "ext4", 100, 5),
            sample_disk("/data", "ext4", 100, 50),
            sample_disk("/opt", "ext4", 100, 100),
            sample_disk("/other", "ext4", 100, 100),
        ],
        now: 6000,
    };
    let stats = collector.refresh(&first);
    assert_eq!(stats.cpu_usage, 1250);
    assert_eq!(stats.memory_usage_percent, 2500);
    assert_eq!(stats.network_rx, 1_000_000);
    assert_eq!(stats.network_tx, 10);
    assert_eq!(stats.disk_details.len(), 3);
    assert_eq!(stats.disk_total, 300);
    assert_eq!(stats.disk_used, 145);
    assert_eq!(stats.disk_usage_percent, 4833);
    assert!(stats.has_disk_alerts);
    assert!(stats.auto_discovery_enabled);
    assert_eq!(stats.alert_threshold, 9000);
    assert_eq!(stats.disk_details[0].last_updated, 6000);
    let second = HostSample {
        cpu_usage: 0,
        memory_used: 0,
        memory_total: 0,
        interfaces: vec![InterfaceCounters { received: 1_500_000, transmitted: 4 }],
        disks: vec![],
        now: 8000,
    };
    let stats = collector.refresh(&second);
    assert_eq!(stats.network_rx, 500_000);
    assert_eq!(stats.network_tx, 0);
    assert_eq!(stats.memory_usage_percent, 0);
    assert_eq!(stats.disk_usage_percent, 0);
    assert!(!stats.has_disk_alerts);
    assert!(stats.disk_details.is_empty());
    let mut data = Data::new();
    data.update_disk_index(2);
    data.publish_system_stats(stats);
    assert_eq!(data.system_stats().current_disk_index, 2);
    assert_eq!(data.system_stats().network_rx, 500_000);
}

#[test]
fn lower_case_of_ascii_and_other_text() {
    assert_eq!(to_lower(""), "");
    assert_eq!(to_lower("AbC-09_z@[`{"), "abc-09_z@[`{");
    assert_eq!(to_lower("ABCDEFGHIJKLMNOPQRSTUVWXYZ"), "abcdefghijklmnopqrstuvwxyz");
    assert_eq!(to_lower("\u{c0}B"), "\u{e0}b");
    assert_eq!(to_lower("\u{212a}"), "k");
    for code in 0u32..128 {
        let text = char::from_u32(code).unwrap().to_string();
        assert_eq!(to_lower(&text), text.to_lowercase());
    }
}

#[test]
fn names_beyond_ascii_are_lowered_too() {
    assert!(is_network_filesystem("NFS\u{e9}"));
    assert!(is_network_filesystem("\u{c0}-SMB"));
    assert!(!is_network_filesystem("\u{ff2e}\u{ff26}\u{ff33}"));
    assert!(is_special_filesystem("\u{c9}-FUSE"));
    assert!(!is_special_filesystem("\u{c9}-EXT4"));
}
