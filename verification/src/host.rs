//! The host resource collector: which file systems count, which mount
//! points are monitored, and how one reading of the operating system's
//! counters becomes the host statistics of the store.

use vstd::prelude::*;
use crate::measure::capped;
use crate::measure::lemma_capped_add;
use crate::measure::percent;
use crate::measure::share_of;
use crate::measure::total;
use crate::store::DiskDetail;
use crate::store::SystemStats;
use crate::store::SystemStatsView;
use crate::table::distinct;
use crate::text::contains;
use crate::text::fields;
use crate::text::fields_spec;
use crate::text::has_infix;
use crate::text::has_prefix;
use crate::text::lines;
use crate::text::lines_spec;
use crate::text::lowered;
use crate::text::to_lower;
use crate::text::same_text;
use crate::text::starts_with;
use crate::text::views;
use crate::text::lemma_views_push;

verus! {

/// Whether a lower-case file system name is that of a network file system:
/// it holds "nfs", "smb" or "cifs".
pub open spec fn network_name(fs_lower: Seq<char>) -> bool {
    ||| has_infix(fs_lower, "nfs"@)
    ||| has_infix(fs_lower, "smb"@)
    ||| has_infix(fs_lower, "cifs"@)
}

/// Whether a lower-case file system name is that of a pseudo or virtual
/// file system, which is not monitored.
pub open spec fn special_name(fs_lower: Seq<char>) -> bool {
    ||| fs_lower == "proc"@
    ||| fs_lower == "sysfs"@
    ||| fs_lower == "tmpfs"@
    ||| fs_lower == "devtmpfs"@
    ||| fs_lower == "cgroup"@
    ||| fs_lower == "cgroup2"@
    ||| fs_lower == "overlay"@
    ||| fs_lower == "devpts"@
    ||| fs_lower == "mqueue"@
    ||| fs_lower == "hugetlbfs"@
    ||| fs_lower == "securityfs"@
    ||| fs_lower == "pstore"@
    ||| fs_lower == "debugfs"@
    ||| fs_lower == "tracefs"@
    ||| fs_lower == "fusectl"@
    ||| fs_lower == "configfs"@
    ||| fs_lower == "binfmt_misc"@
    ||| fs_lower == "autofs"@
    ||| fs_lower == "rpc_pipefs"@
    ||| fs_lower == "efivarfs"@
    ||| fs_lower == "bpf"@
    ||| has_infix(fs_lower, "fuse"@)
    ||| has_prefix(fs_lower, "cgroup"@)
}

/// Whether a file system name, already in lower case, is that of a network
/// file system.
pub fn is_network_name(fs_lower: &str) -> (r: bool)
    ensures
        r == network_name(fs_lower@),
{
    contains(fs_lower, "nfs") || contains(fs_lower, "smb") || contains(fs_lower, "cifs")
}

/// Whether `filesystem` names a network file system, in whatever case it
/// is written.
pub fn is_network_filesystem(filesystem: &str) -> (r: bool)
    ensures
        r == network_name(lowered(filesystem@)),
{
    let fs_lower = to_lower(filesystem);
    is_network_name(fs_lower.as_str())
}

/// Whether a file system name, already in lower case, is that of a pseudo
/// or virtual file system.
pub fn is_special_name(fs_lower: &str) -> (r: bool)
    ensures
        r == special_name(fs_lower@),
{
    same_text(fs_lower, "proc") || same_text(fs_lower, "sysfs") || same_text(fs_lower, "tmpfs")
        || same_text(fs_lower, "devtmpfs") || same_text(fs_lower, "cgroup") || same_text(
        fs_lower,
        "cgroup2",
    ) || same_text(fs_lower, "overlay") || same_text(fs_lower, "devpts") || same_text(
        fs_lower,
        "mqueue",
    ) || same_text(fs_lower, "hugetlbfs") || same_text(fs_lower, "securityfs") || same_text(
        fs_lower,
        "pstore",
    ) || same_text(fs_lower, "debugfs") || same_text(fs_lower, "tracefs") || same_text(
        fs_lower,
        "fusectl",
    ) || same_text(fs_lower, "configfs") || same_text(fs_lower, "binfmt_misc") || same_text(
        fs_lower,
        "autofs",
    ) || same_text(fs_lower, "rpc_pipefs") || same_text(fs_lower, "efivarfs") || same_text(
        fs_lower,
        "bpf",
    ) || contains(fs_lower, "fuse") || starts_with(fs_lower, "cgroup")
}

/// Whether `filesystem` names a pseudo or virtual file system, in whatever
/// case it is written.
pub fn is_special_filesystem(filesystem: &str) -> (r: bool)
    ensures
        r == special_name(lowered(filesystem@)),
{
    let fs_lower = to_lower(filesystem);
    is_special_name(fs_lower.as_str())
}

/// One mounted file system as the mount table names it.
#[derive(Debug)]
pub struct MountPointInfo {
    pub device: String,
    pub mount_point: String,
    pub filesystem: String,
}

impl Clone for MountPointInfo {
    fn clone(&self) -> (r: MountPointInfo)
        ensures
            r == *self,
    {
        MountPointInfo {
            device: self.device.clone(),
            mount_point: self.mount_point.clone(),
            filesystem: self.filesystem.clone(),
        }
    }
}

/// A `MountPointInfo` as a mathematical value.
pub struct MountView {
    pub device: Seq<char>,
    pub mount_point: Seq<char>,
    pub filesystem: Seq<char>,
}

impl View for MountPointInfo {
    type V = MountView;

    open spec fn view(&self) -> MountView {
        MountView {
            device: self.device@,
            mount_point: self.mount_point@,
            filesystem: self.filesystem@,
        }
    }
}

/// The mounts as mathematical values, in order.
pub open spec fn mount_views(mounts: Seq<MountPointInfo>) -> Seq<MountView> {
    Seq::new(mounts.len(), |i: int| mounts[i]@)
}

/// The mount that a line of the mount table names: its first three fields
/// are the device, the mount point and the file system. A line with fewer
/// fields, or with a pseudo file system, names none.
pub open spec fn mount_of_line(line: Seq<char>) -> Option<MountView> {
    let f = fields_spec(line);
    if f.len() >= 3 && !special_name(lowered(f[2])) {
        Some(MountView { device: f[0], mount_point: f[1], filesystem: f[2] })
    } else {
        None
    }
}

/// The mounts that the lines name, in order.
pub open spec fn mounts_of_lines(lines: Seq<Seq<char>>) -> Seq<MountView>
    decreases lines.len(),
{
    if lines.len() == 0 {
        Seq::empty()
    } else {
        match mount_of_line(lines.last()) {
            Some(m) => mounts_of_lines(lines.drop_last()).push(m),
            None => mounts_of_lines(lines.drop_last()),
        }
    }
}

/// The mount that one line of the mount table names, if it names one.
pub fn parse_mount_line(line: &str) -> (r: Option<MountPointInfo>)
    ensures
        match r {
            Some(m) => mount_of_line(line@) == Some(m@),
            None => mount_of_line(line@) is None,
        },
{
    let parts = fields(line);
    if parts.len() >= 3 {
        assert(views(parts@)[0] == parts@[0]@);
        assert(views(parts@)[1] == parts@[1]@);
        assert(views(parts@)[2] == parts@[2]@);
        if !is_special_filesystem(parts[2].as_str()) {
            return Some(
                MountPointInfo {
                    device: parts[0].clone(),
                    mount_point: parts[1].clone(),
                    filesystem: parts[2].clone(),
                },
            );
        }
    }
    None
}

/// The mounted file systems that a mount table names, line by line, without
/// the pseudo file systems.
pub fn discover_mount_points(mount_table: &str) -> (r: Vec<MountPointInfo>)
    ensures
        mount_views(r@) == mounts_of_lines(lines_spec(mount_table@)),
{
    let all = lines(mount_table);
    let mut mount_points: Vec<MountPointInfo> = Vec::new();
    let mut i: usize = 0;
    let ghost texts = views(all@);
    assert(texts.take(0) =~= Seq::<Seq<char>>::empty());
    assert(mount_views(mount_points@) =~= Seq::<MountView>::empty());
    while i < all.len()
        invariant
            i <= all.len(),
            texts == views(all@),
            mount_views(mount_points@) == mounts_of_lines(texts.take(i as int)),
        decreases all.len() - i,
    {
        proof {
            assert(texts.take(i + 1).drop_last() =~= texts.take(i as int));
            assert(texts.take(i + 1).last() == all@[i as int]@);
        }
        match parse_mount_line(all[i].as_str()) {
            Some(m) => {
                assert(mount_views(mount_points@.push(m)) =~= mount_views(mount_points@).push(m@));
                mount_points.push(m);
            },
            None => {},
        }
        i += 1;
    }
    assert(texts.take(all.len() as int) =~= texts);
    mount_points
}

/// One disk as the operating system's disk list gives it.
#[derive(Debug)]
pub struct DiskSample {
    pub device: String,
    pub mount_point: String,
    pub filesystem: String,
    pub total: u64,
    pub available: u64,
}

/// The mount that a disk of the operating system's list stands for, unless
/// its file system is a pseudo one.
pub open spec fn mount_of_disk(disk: DiskSample) -> Option<MountView> {
    if !special_name(lowered(disk.filesystem@)) {
        Some(
            MountView {
                device: disk.device@,
                mount_point: disk.mount_point@,
                filesystem: disk.filesystem@,
            },
        )
    } else {
        None
    }
}

/// The mounts that the disks stand for, in order.
pub open spec fn mounts_of_disks(disks: Seq<DiskSample>) -> Seq<MountView>
    decreases disks.len(),
{
    if disks.len() == 0 {
        Seq::empty()
    } else {
        match mount_of_disk(disks.last()) {
            Some(m) => mounts_of_disks(disks.drop_last()).push(m),
            None => mounts_of_disks(disks.drop_last()),
        }
    }
}

/// The mounted file systems among the disks that the operating system
/// lists, without the pseudo file systems: what discovery falls back on
/// where there is no mount table.
pub fn discover_mount_points_fallback(disks: &Vec<DiskSample>) -> (r: Vec<MountPointInfo>)
    ensures
        mount_views(r@) == mounts_of_disks(disks@),
{
    let mut mount_points: Vec<MountPointInfo> = Vec::new();
    let mut i: usize = 0;
    assert(disks@.take(0) =~= Seq::<DiskSample>::empty());
    assert(mount_views(mount_points@) =~= Seq::<MountView>::empty());
    while i < disks.len()
        invariant
            i <= disks.len(),
            mount_views(mount_points@) == mounts_of_disks(disks@.take(i as int)),
        decreases disks.len() - i,
    {
        proof {
            assert(disks@.take(i + 1).drop_last() =~= disks@.take(i as int));
        }
        let disk = &disks[i];
        if !is_special_filesystem(disk.filesystem.as_str()) {
            let m = MountPointInfo {
                device: disk.device.clone(),
                mount_point: disk.mount_point.clone(),
                filesystem: disk.filesystem.clone(),
            };
            assert(mount_views(mount_points@.push(m)) =~= mount_views(mount_points@).push(m@));
            mount_points.push(m);
        }
        i += 1;
    }
    assert(disks@.take(disks.len() as int) =~= disks@);
    mount_points
}

/// Whether `list` holds the text `s`.
pub fn contains_text(list: &Vec<String>, s: &str) -> (r: bool)
    ensures
        r == views(list@).contains(s@),
{
    let owned = s.to_owned();
    let mut i: usize = 0;
    while i < list.len()
        invariant
            i <= list.len(),
            owned@ == s@,
            forall|k: int| 0 <= k < i ==> views(list@)[k] != s@,
        decreases list.len() - i,
    {
        if list[i] == owned {
            assert(views(list@)[i as int] == s@);
            return true;
        }
        i += 1;
    }
    false
}

/// The mount points of `points` without repeats, each at the place where
/// it first stands.
pub open spec fn unique(points: Seq<Seq<char>>) -> Seq<Seq<char>>
    decreases points.len(),
{
    if points.len() == 0 {
        points
    } else {
        let before = unique(points.drop_last());
        if before.contains(points.last()) {
            before
        } else {
            before.push(points.last())
        }
    }
}

/// The union of the discovered and the configured mount points: the
/// discovered ones, then the configured ones, none of them twice.
pub open spec fn merged(discovered: Seq<Seq<char>>, configured: Seq<Seq<char>>) -> Seq<Seq<char>> {
    unique(discovered + configured)
}

/// The mount points to monitor: with discovery, the union of the
/// discovered and the configured ones without repeats; without it, the
/// configured ones as they are.
pub open spec fn monitored(
    discovered: Seq<Seq<char>>,
    configured: Seq<Seq<char>>,
    auto_discovery: bool,
) -> Seq<Seq<char>> {
    if auto_discovery {
        merged(discovered, configured)
    } else {
        configured
    }
}

/// Taking out the repeats leaves no mount point twice, leaves every mount
/// point in, adds none, and changes nothing where there was no repeat.
pub proof fn lemma_unique(points: Seq<Seq<char>>)
    ensures
        distinct(unique(points)),
        forall|p: Seq<char>| unique(points).contains(p) <==> points.contains(p),
        unique(points).len() <= points.len(),
        distinct(points) ==> unique(points) == points,
    decreases points.len(),
{
    let u = unique(points);
    if points.len() > 0 {
        let init = points.drop_last();
        let last = points.last();
        let before = unique(init);
        lemma_unique(init);
        assert forall|p: Seq<char>| u.contains(p) <==> points.contains(p) by {
            if u.contains(p) {
                let k = choose|k: int| 0 <= k < u.len() && u[k] == p;
                if k < before.len() {
                    assert(before[k] == p);
                    assert(unique(init).contains(p));
                    assert(init.contains(p));
                    let q = choose|q: int| 0 <= q < init.len() && init[q] == p;
                    assert(points[q] == p);
                } else {
                    assert(points[points.len() - 1] == p);
                }
            }
            if points.contains(p) {
                let q = choose|q: int| 0 <= q < points.len() && points[q] == p;
                if q < init.len() {
                    assert(init[q] == p);
                    assert(init.contains(p));
                    assert(unique(init).contains(p));
                    let k = choose|k: int| 0 <= k < before.len() && before[k] == p;
                    assert(u[k] == p);
                } else if !before.contains(last) {
                    assert(u[before.len() as int] == last);
                }
            }
        }
        assert forall|i: int, j: int| 0 <= i < j < u.len() implies u[i] != u[j] by {
            if j < before.len() {
                assert(before[i] == u[i] && before[j] == u[j]);
            } else {
                assert(!before.contains(last));
                assert(before[i] == u[i]);
            }
        }
        if distinct(points) {
            assert forall|i: int, j: int| 0 <= i < j < init.len() implies init[i] != init[j] by {
                assert(init[i] == points[i] && init[j] == points[j]);
            }
            assert(before == init);
            if before.contains(last) {
                let k = choose|k: int| 0 <= k < before.len() && before[k] == last;
                assert(points[k] == points[points.len() - 1]);
            }
            assert(u =~= points);
        }
    }
}

/// The monitored set is the union of the discovered and the configured
/// mount points without repeats: it holds no mount point twice, holds
/// every discovered and every configured one, and holds nothing else.
pub proof fn lemma_merged(discovered: Seq<Seq<char>>, configured: Seq<Seq<char>>)
    ensures
        distinct(merged(discovered, configured)),
        forall|p: Seq<char>|
            merged(discovered, configured).contains(p) <==> discovered.contains(p)
                || configured.contains(p),
{
    let all = discovered + configured;
    lemma_unique(all);
    assert forall|p: Seq<char>| all.contains(p) <==> discovered.contains(p) || configured.contains(
        p,
    ) by {
        if all.contains(p) {
            let k = choose|k: int| 0 <= k < all.len() && all[k] == p;
            if k < discovered.len() {
                assert(discovered[k] == p);
            } else {
                assert(configured[k - discovered.len()] == p);
            }
        }
        if discovered.contains(p) {
            let k = choose|k: int| 0 <= k < discovered.len() && discovered[k] == p;
            assert(all[k] == p);
        }
        if configured.contains(p) {
            let k = choose|k: int| 0 <= k < configured.len() && configured[k] == p;
            assert(all[discovered.len() + k] == p);
        }
    }
}

/// A copy of `list`.
pub fn clone_texts(list: &Vec<String>) -> (r: Vec<String>)
    ensures
        r@ == list@,
{
    let mut r: Vec<String> = Vec::new();
    let mut i: usize = 0;
    while i < list.len()
        invariant
            i <= list.len(),
            r@ == list@.take(i as int),
        decreases list.len() - i,
    {
        r.push(list[i].clone());
        assert(r@ =~= list@.take(i + 1));
        i += 1;
    }
    assert(list@.take(list.len() as int) =~= list@);
    r
}

/// Adds to `all` each mount point of `list` that it does not hold yet.
fn add_new(all: &mut Vec<String>, list: &Vec<String>, Ghost(before): Ghost<Seq<Seq<char>>>)
    requires
        views(old(all)@) == unique(before),
    ensures
        views(final(all)@) == unique(before + views(list@)),
{
    let ghost added = views(list@);
    let mut i: usize = 0;
    assert(before + added.take(0) =~= before);
    while i < list.len()
        invariant
            i <= list.len(),
            added == views(list@),
            views(all@) == unique(before + added.take(i as int)),
        decreases list.len() - i,
    {
        proof {
            assert((before + added.take(i + 1)).drop_last() =~= before + added.take(i as int));
            assert((before + added.take(i + 1)).last() == list@[i as int]@);
        }
        if !contains_text(all, list[i].as_str()) {
            let point = list[i].clone();
            proof {
                lemma_views_push(all@, point);
            }
            all.push(point);
        }
        i += 1;
    }
    assert(added.take(list.len() as int) =~= added);
}

/// The mount points to monitor.
pub fn monitored_mount_points(
    discovered: &Vec<String>,
    configured: &Vec<String>,
    auto_discovery: bool,
) -> (r: Vec<String>)
    ensures
        views(r@) == monitored(views(discovered@), views(configured@), auto_discovery),
{
    if !auto_discovery {
        return clone_texts(configured);
    }
    let mut all_points: Vec<String> = Vec::new();
    assert(views(all_points@) =~= unique(Seq::empty()));
    add_new(&mut all_points, discovered, Ghost(Seq::empty()));
    assert(Seq::<Seq<char>>::empty() + views(discovered@) =~= views(discovered@));
    add_new(&mut all_points, configured, Ghost(views(discovered@)));
    all_points
}

/// The rate of a counter that only grows: how far it has moved since the
/// reading before, and 0 where it has fallen back.
pub open spec fn counter_rate(current: u64, previous: u64) -> u64 {
    if current >= previous {
        (current - previous) as u64
    } else {
        0
    }
}

/// The rate of a counter that only grows, from two readings of it.
pub fn rate(current: u64, previous: u64) -> (r: u64)
    ensures
        r == counter_rate(current, previous),
{
    current.saturating_sub(previous)
}

/// The usage of one disk that is monitored.
pub open spec fn detail_of(disk: DiskSample, alert_threshold: u64, now: u64) -> DiskDetail {
    let used = counter_rate(disk.total, disk.available);
    let usage = capped(share_of(used as nat, disk.total as nat));
    DiskDetail {
        mount_point: disk.mount_point,
        filesystem: disk.filesystem,
        total: disk.total,
        used,
        available: disk.available,
        usage_percent: usage,
        device: disk.device,
        is_alert: usage >= alert_threshold,
        is_network: network_name(lowered(disk.filesystem@)),
        last_updated: now,
    }
}

/// The disks of `disks` whose mount point is monitored, in order.
pub open spec fn watched(disks: Seq<DiskSample>, points: Seq<Seq<char>>) -> Seq<DiskSample>
    decreases disks.len(),
{
    if disks.len() == 0 {
        disks
    } else if points.contains(disks.last().mount_point@) {
        watched(disks.drop_last(), points).push(disks.last())
    } else {
        watched(disks.drop_last(), points)
    }
}

/// The usage of each of `disks`, in order.
pub open spec fn details_of(disks: Seq<DiskSample>, alert_threshold: u64, now: u64) -> Seq<
    DiskDetail,
> {
    Seq::new(disks.len(), |i: int| detail_of(disks[i], alert_threshold, now))
}

/// The sizes of `disks`, in order.
pub open spec fn sizes(disks: Seq<DiskSample>) -> Seq<u64> {
    Seq::new(disks.len(), |i: int| disks[i].total)
}

/// The space in use on each of `disks`, in order.
pub open spec fn usages(disks: Seq<DiskSample>) -> Seq<u64> {
    Seq::new(disks.len(), |i: int| counter_rate(disks[i].total, disks[i].available))
}

/// Whether one of `disks` is at or above the alert threshold.
pub open spec fn any_alert(disks: Seq<DiskSample>, alert_threshold: u64) -> bool {
    exists|i: int|
        0 <= i < disks.len() && (#[trigger] detail_of(disks[i], alert_threshold, 0)).is_alert
}

/// The counters of one network interface since the host started.
#[derive(Debug, Clone, Copy)]
pub struct InterfaceCounters {
    pub received: u64,
    pub transmitted: u64,
}

/// The bytes received on each interface, in order.
pub open spec fn received(interfaces: Seq<InterfaceCounters>) -> Seq<u64> {
    Seq::new(interfaces.len(), |i: int| interfaces[i].received)
}

/// The bytes transmitted on each interface, in order.
pub open spec fn transmitted(interfaces: Seq<InterfaceCounters>) -> Seq<u64> {
    Seq::new(interfaces.len(), |i: int| interfaces[i].transmitted)
}

/// One reading of the operating system's counters. `cpu_usage` is in
/// hundredths of a percent, `now` is the collector's clock in milliseconds.
#[derive(Debug)]
pub struct HostSample {
    pub cpu_usage: u64,
    pub memory_used: u64,
    pub memory_total: u64,
    pub interfaces: Vec<InterfaceCounters>,
    pub disks: Vec<DiskSample>,
    pub now: u64,
}

/// The time between two attempts at discovery, in milliseconds.
pub const DISCOVERY_INTERVAL: u64 = 5000;

/// What the host collector keeps from one refresh to the next.
#[derive(Debug)]
pub struct HostCollector {
    pub mount_points: Vec<String>,
    pub auto_discovery: bool,
    pub alert_threshold: u64,
    pub prev_network_rx: u64,
    pub prev_network_tx: u64,
    pub discovered: Vec<String>,
    pub last_discovery: u64,
}

/// The host statistics that one reading gives, with the disk index at 0.
pub open spec fn stats_of_sample(
    sample: HostSample,
    mount_points: Seq<Seq<char>>,
    discovered: Seq<Seq<char>>,
    auto_discovery: bool,
    alert_threshold: u64,
    prev_network_rx: u64,
    prev_network_tx: u64,
) -> SystemStatsView {
    let points = monitored(discovered, mount_points, auto_discovery);
    let disks = watched(sample.disks@, points);
    let disk_used = capped(total(usages(disks)));
    let disk_total = capped(total(sizes(disks)));
    SystemStatsView {
        cpu_usage: sample.cpu_usage,
        memory_used: sample.memory_used,
        memory_total: sample.memory_total,
        memory_usage_percent: capped(
            share_of(sample.memory_used as nat, sample.memory_total as nat),
        ),
        network_rx: counter_rate(capped(total(received(sample.interfaces@))), prev_network_rx),
        network_tx: counter_rate(
            capped(total(transmitted(sample.interfaces@))),
            prev_network_tx,
        ),
        disk_used,
        disk_total,
        disk_usage_percent: capped(share_of(disk_used as nat, disk_total as nat)),
        disk_details: details_of(disks, alert_threshold, sample.now),
        current_disk_index: 0,
        alert_threshold,
        has_disk_alerts: any_alert(disks, alert_threshold),
        auto_discovery_enabled: auto_discovery,
    }
}

impl HostCollector {
    /// A collector that has read nothing yet, started at `now`.
    pub fn new(
        mount_points: Vec<String>,
        auto_discovery: bool,
        alert_threshold: u64,
        now: u64,
    ) -> (r: HostCollector)
        ensures
            r.mount_points == mount_points,
            r.auto_discovery == auto_discovery,
            r.alert_threshold == alert_threshold,
            r.prev_network_rx == 0,
            r.prev_network_tx == 0,
            r.discovered@ == Seq::<String>::empty(),
            r.last_discovery == now,
    {
        HostCollector {
            mount_points,
            auto_discovery,
            alert_threshold,
            prev_network_rx: 0,
            prev_network_tx: 0,
            discovered: Vec::new(),
            last_discovery: now,
        }
    }

    /// Whether discovery is to run at `now`: it is switched on, and the
    /// interval since the last discovery has passed.
    pub open spec fn spec_discovery_due(&self, now: u64) -> bool {
        self.auto_discovery && now - self.last_discovery >= DISCOVERY_INTERVAL
    }

    /// Whether discovery is to run at `now`.
    pub fn discovery_due(&self, now: u64) -> (r: bool)
        ensures
            r == self.spec_discovery_due(now),
    {
        self.auto_discovery && now >= self.last_discovery && now - self.last_discovery
            >= DISCOVERY_INTERVAL
    }

    /// Takes over what a discovery at `now` has found: the mount points of
    /// the mounts, in order.
    pub fn record_discovery(&mut self, found: &Vec<MountPointInfo>, now: u64)
        ensures
            views(final(self).discovered@) == Seq::new(
                found@.len(),
                |i: int| found@[i].mount_point@,
            ),
            final(self).last_discovery == now,
            final(self).mount_points == old(self).mount_points,
            final(self).auto_discovery == old(self).auto_discovery,
            final(self).alert_threshold == old(self).alert_threshold,
            final(self).prev_network_rx == old(self).prev_network_rx,
            final(self).prev_network_tx == old(self).prev_network_tx,
    {
        let mut points: Vec<String> = Vec::new();
        let mut i: usize = 0;
        while i < found.len()
            invariant
                i <= found.len(),
                points@.len() == i,
                forall|k: int| 0 <= k < i ==> (#[trigger] points@[k])@ == found@[k].mount_point@,
            decreases found.len() - i,
        {
            points.push(found[i].mount_point.clone());
            i += 1;
        }
        assert(views(points@) =~= Seq::new(found@.len(), |i: int| found@[i].mount_point@));
        self.discovered = points;
        self.last_discovery = now;
    }

    /// Notes that a discovery was tried at `now` and found nothing to take
    /// over: the next one waits for the interval again, and the mount
    /// points discovered before stay.
    pub fn discovery_failed(&mut self, now: u64)
        ensures
            *final(self) == (HostCollector { last_discovery: now, ..*old(self) }),
    {
        self.last_discovery = now;
    }

    /// Turns one reading into the host statistics to publish, and keeps the
    /// reading's network totals for the next rates.
    pub fn refresh(&mut self, sample: &HostSample) -> (r: SystemStats)
        ensures
            r@ == stats_of_sample(
                *sample,
                views(old(self).mount_points@),
                views(old(self).discovered@),
                old(self).auto_discovery,
                old(self).alert_threshold,
                old(self).prev_network_rx,
                old(self).prev_network_tx,
            ),
            final(self).prev_network_rx == capped(total(received(sample.interfaces@))),
            final(self).prev_network_tx == capped(total(transmitted(sample.interfaces@))),
            final(self).mount_points == old(self).mount_points,
            final(self).auto_discovery == old(self).auto_discovery,
            final(self).alert_threshold == old(self).alert_threshold,
            final(self).discovered == old(self).discovered,
            final(self).last_discovery == old(self).last_discovery,
    {
        let memory_usage_percent = percent(sample.memory_used as u128, sample.memory_total);
        let (network_rx, network_tx) = network_totals(&sample.interfaces);
        let network_rx_rate = rate(network_rx, self.prev_network_rx);
        let network_tx_rate = rate(network_tx, self.prev_network_tx);
        self.prev_network_rx = network_rx;
        self.prev_network_tx = network_tx;
        let points = monitored_mount_points(
            &self.discovered,
            &self.mount_points,
            self.auto_discovery,
        );
        let report = disk_report(&sample.disks, &points, self.alert_threshold, sample.now);
        let disk_usage_percent = percent(report.used as u128, report.total);
        SystemStats {
            cpu_usage: sample.cpu_usage,
            memory_used: sample.memory_used,
            memory_total: sample.memory_total,
            memory_usage_percent,
            network_rx: network_rx_rate,
            network_tx: network_tx_rate,
            disk_used: report.used,
            disk_total: report.total,
            disk_usage_percent,
            disk_details: report.details,
            current_disk_index: 0,
            alert_threshold: self.alert_threshold,
            has_disk_alerts: report.alerts,
            auto_discovery_enabled: self.auto_discovery,
        }
    }
}

/// The bytes received and transmitted over all interfaces, each capped at
/// the largest `u64`.
pub fn network_totals(interfaces: &Vec<InterfaceCounters>) -> (r: (u64, u64))
    ensures
        r.0 == capped(total(received(interfaces@))),
        r.1 == capped(total(transmitted(interfaces@))),
{
    let mut rx: u64 = 0;
    let mut tx: u64 = 0;
    let mut i: usize = 0;
    let ghost rs = received(interfaces@);
    let ghost ts = transmitted(interfaces@);
    assert(rs.take(0) =~= Seq::<u64>::empty());
    assert(ts.take(0) =~= Seq::<u64>::empty());
    while i < interfaces.len()
        invariant
            i <= interfaces.len(),
            rs == received(interfaces@),
            ts == transmitted(interfaces@),
            rx == capped(total(rs.take(i as int))),
            tx == capped(total(ts.take(i as int))),
        decreases interfaces.len() - i,
    {
        proof {
            assert(rs.take(i + 1).drop_last() =~= rs.take(i as int));
            assert(ts.take(i + 1).drop_last() =~= ts.take(i as int));
            lemma_capped_add(total(rs.take(i as int)), rs[i as int]);
            lemma_capped_add(total(ts.take(i as int)), ts[i as int]);
        }
        rx = rx.saturating_add(interfaces[i].received);
        tx = tx.saturating_add(interfaces[i].transmitted);
        i += 1;
    }
    assert(rs.take(interfaces.len() as int) =~= rs);
    assert(ts.take(interfaces.len() as int) =~= ts);
    (rx, tx)
}

/// The usage of the monitored disks: one detail for each, their space in
/// use and their size in total, and whether one of them is in alert.
pub struct DiskReport {
    pub details: Vec<DiskDetail>,
    pub used: u64,
    pub total: u64,
    pub alerts: bool,
}

/// The usage of one disk.
pub fn disk_detail(disk: &DiskSample, alert_threshold: u64, now: u64) -> (r: DiskDetail)
    ensures
        r == detail_of(*disk, alert_threshold, now),
{
    let used = disk.total.saturating_sub(disk.available);
    let usage_percent = percent(used as u128, disk.total);
    DiskDetail {
        mount_point: disk.mount_point.clone(),
        filesystem: disk.filesystem.clone(),
        total: disk.total,
        used,
        available: disk.available,
        usage_percent,
        device: disk.device.clone(),
        is_alert: usage_percent >= alert_threshold,
        is_network: is_network_filesystem(disk.filesystem.as_str()),
        last_updated: now,
    }
}

/// The usage of those of `disks` whose mount point is among `points`.
pub fn disk_report(
    disks: &Vec<DiskSample>,
    points: &Vec<String>,
    alert_threshold: u64,
    now: u64,
) -> (r: DiskReport)
    ensures
        r.details@ == details_of(watched(disks@, views(points@)), alert_threshold, now),
        r.used == capped(total(usages(watched(disks@, views(points@))))),
        r.total == capped(total(sizes(watched(disks@, views(points@))))),
        r.alerts == any_alert(watched(disks@, views(points@)), alert_threshold),
{
    let mut details: Vec<DiskDetail> = Vec::new();
    let mut disk_used: u64 = 0;
    let mut disk_total: u64 = 0;
    let mut has_disk_alerts = false;
    let mut i: usize = 0;
    let ghost pts = views(points@);
    assert(disks@.take(0) =~= Seq::<DiskSample>::empty());
    assert(details@ =~= details_of(watched(disks@.take(0), pts), alert_threshold, now));
    assert(usages(watched(disks@.take(0), pts)) =~= Seq::<u64>::empty());
    assert(sizes(watched(disks@.take(0), pts)) =~= Seq::<u64>::empty());
    while i < disks.len()
        invariant
            i <= disks.len(),
            pts == views(points@),
            details@ == details_of(watched(disks@.take(i as int), pts), alert_threshold, now),
            disk_used == capped(total(usages(watched(disks@.take(i as int), pts)))),
            disk_total == capped(total(sizes(watched(disks@.take(i as int), pts)))),
            has_disk_alerts == any_alert(watched(disks@.take(i as int), pts), alert_threshold),
        decreases disks.len() - i,
    {
        let ghost before = watched(disks@.take(i as int), pts);
        let ghost after = watched(disks@.take(i + 1), pts);
        proof {
            assert(disks@.take(i + 1).drop_last() =~= disks@.take(i as int));
            assert(disks@.take(i + 1).last() == disks@[i as int]);
        }
        let disk = &disks[i];
        if contains_text(points, disk.mount_point.as_str()) {
            let detail = disk_detail(disk, alert_threshold, now);
            proof {
                assert(after == before.push(*disk));
                assert(details@.push(detail) =~= details_of(after, alert_threshold, now));
                assert(usages(after).drop_last() =~= usages(before));
                assert(sizes(after).drop_last() =~= sizes(before));
                lemma_capped_add(total(usages(before)), detail.used);
                lemma_capped_add(total(sizes(before)), disk.total);
                assert(detail.is_alert == detail_of(*disk, alert_threshold, 0).is_alert);
                if any_alert(before, alert_threshold) {
                    let k = choose|k: int|
                        0 <= k < before.len() && (#[trigger] detail_of(
                            before[k],
                            alert_threshold,
                            0,
                        )).is_alert;
                    assert(after[k] == before[k]);
                }
                if detail.is_alert {
                    assert(after[before.len() as int] == *disk);
                }
                if any_alert(after, alert_threshold) {
                    let k = choose|k: int|
                        0 <= k < after.len() && (#[trigger] detail_of(
                            after[k],
                            alert_threshold,
                            0,
                        )).is_alert;
                    if k < before.len() {
                        assert(after[k] == before[k]);
                    }
                }
            }
            if detail.is_alert {
                has_disk_alerts = true;
            }
            details.push(detail);
            disk_total = disk_total.saturating_add(disk.total);
            disk_used = disk_used.saturating_add(disk.total.saturating_sub(disk.available));
        }
        i += 1;
    }
    assert(disks@.take(disks.len() as int) =~= disks@);
    DiskReport { details, used: disk_used, total: disk_total, alerts: has_disk_alerts }
}

} // verus!
