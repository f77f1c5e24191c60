//! The container resource collector: how the bytes of a statistics stream
//! are framed into samples, what a sample holds, and which figures of the
//! store it gives.

use vstd::prelude::*;
use crate::json::Json;
use crate::measure::capped;
use crate::measure::lemma_capped_add;
use crate::measure::percent;
use crate::measure::share_of;
use crate::store::Data;
use crate::store::DataView;
use crate::store::NodeStats;
use crate::table::upsert_keys;
use crate::table::upsert_vals;
use crate::text::contains;
use crate::text::has_infix;
use crate::text::same_text;

verus! {

/// The traffic of one network interface of a container.
#[derive(Debug, Clone, Copy)]
pub struct NetworkStats {
    pub rx_bytes: u64,
    pub tx_bytes: u64,
}

/// One entry of a container's block I/O statistics: the bytes moved by one
/// kind of operation on one device.
#[derive(Debug)]
pub struct BlkioStatEntry {
    pub op: String,
    pub value: u64,
}

/// One sample of a container's resource usage: the counters of this
/// accounting period and of the one before it.
#[derive(Debug)]
pub struct Stats {
    pub cpu_total_usage: u64,
    pub percpu_usage: Option<Vec<u64>>,
    pub system_cpu_usage: Option<u64>,
    pub precpu_total_usage: u64,
    pub precpu_system_cpu_usage: Option<u64>,
    pub memory_usage: u64,
    pub memory_limit: u64,
    pub memory_cache: Option<u64>,
    pub networks: Option<Vec<NetworkStats>>,
    pub io_service_bytes: Option<Vec<BlkioStatEntry>>,
}

/// A `Stats` as a mathematical value.
pub struct StatsView {
    pub cpu_total_usage: u64,
    pub percpu_usage: Option<Seq<u64>>,
    pub system_cpu_usage: Option<u64>,
    pub precpu_total_usage: u64,
    pub precpu_system_cpu_usage: Option<u64>,
    pub memory_usage: u64,
    pub memory_limit: u64,
    pub memory_cache: Option<u64>,
    pub networks: Option<Seq<NetworkStats>>,
    pub io_service_bytes: Option<Seq<BlkioStatEntry>>,
}

impl View for Stats {
    type V = StatsView;

    open spec fn view(&self) -> StatsView {
        StatsView {
            cpu_total_usage: self.cpu_total_usage,
            percpu_usage: match self.percpu_usage {
                Some(v) => Some(v@),
                None => None,
            },
            system_cpu_usage: self.system_cpu_usage,
            precpu_total_usage: self.precpu_total_usage,
            precpu_system_cpu_usage: self.precpu_system_cpu_usage,
            memory_usage: self.memory_usage,
            memory_limit: self.memory_limit,
            memory_cache: self.memory_cache,
            networks: match self.networks {
                Some(v) => Some(v@),
                None => None,
            },
            io_service_bytes: match self.io_service_bytes {
                Some(v) => Some(v@),
                None => None,
            },
        }
    }
}

/// The bytes that the entries with the operation `op` have moved.
pub open spec fn op_total(entries: Seq<BlkioStatEntry>, op: Seq<char>) -> nat
    decreases entries.len(),
{
    if entries.len() == 0 {
        0
    } else if entries.last().op@ == op {
        op_total(entries.drop_last(), op) + entries.last().value as nat
    } else {
        op_total(entries.drop_last(), op)
    }
}

/// The bytes received over all interfaces.
pub open spec fn rx_total(networks: Seq<NetworkStats>) -> nat
    decreases networks.len(),
{
    if networks.len() == 0 {
        0
    } else {
        rx_total(networks.drop_last()) + networks.last().rx_bytes as nat
    }
}

/// The bytes sent over all interfaces.
pub open spec fn tx_total(networks: Seq<NetworkStats>) -> nat
    decreases networks.len(),
{
    if networks.len() == 0 {
        0
    } else {
        tx_total(networks.drop_last()) + networks.last().tx_bytes as nat
    }
}

impl StatsView {
    /// The system's CPU time of this period, where the sample has it and
    /// it is not below that of the period before.
    pub open spec fn system_delta(self) -> Option<u64> {
        let before = match self.precpu_system_cpu_usage {
            Some(b) => b,
            None => 0,
        };
        match self.system_cpu_usage {
            Some(now) => if now >= before {
                Some((now - before) as u64)
            } else {
                None
            },
            None => None,
        }
    }

    /// The CPU usage in hundredths of a percent: the container's share of
    /// the system's CPU time in this period, times the number of cores.
    /// Nothing where a counter is missing or has fallen back.
    pub open spec fn cpu_percent(self) -> Option<u64> {
        match (self.system_delta(), self.percpu_usage) {
            (Some(system), Some(cores)) => if self.cpu_total_usage >= self.precpu_total_usage {
                Some(
                    capped(
                        share_of(
                            ((self.cpu_total_usage - self.precpu_total_usage) * cores.len()) as nat,
                            system as nat,
                        ),
                    ),
                )
            } else {
                None
            },
            _ => None,
        }
    }

    /// The memory in use without the cache, and its share of the limit in
    /// hundredths of a percent. Nothing where the cache figure is missing
    /// or above the usage.
    pub open spec fn mem_usage(self) -> Option<(u64, u64)> {
        match self.memory_cache {
            Some(cache) => if self.memory_usage >= cache {
                let used = (self.memory_usage - cache) as u64;
                Some((used, capped(share_of(used as nat, self.memory_limit as nat))))
            } else {
                None
            },
            None => None,
        }
    }

    /// The bytes received and sent over all interfaces; 0 where the sample
    /// has no interfaces.
    pub open spec fn network_rx_tx(self) -> (u64, u64) {
        match self.networks {
            Some(n) => (capped(rx_total(n)), capped(tx_total(n))),
            None => (0, 0),
        }
    }

    /// The bytes read from and written to block devices; 0 where the
    /// sample has no block I/O statistics.
    pub open spec fn blk(self) -> (u64, u64) {
        match self.io_service_bytes {
            Some(e) => (capped(op_total(e, "Read"@)), capped(op_total(e, "Write"@))),
            None => (0, 0),
        }
    }

    /// The figures that the sample gives for the store. Nothing where the
    /// CPU or the memory figure cannot be had.
    pub open spec fn node_stats(self) -> Option<NodeStats> {
        match (self.cpu_percent(), self.mem_usage()) {
            (Some(cpu), Some(mem)) => Some(
                NodeStats {
                    cpu_percent: cpu,
                    mem: mem.0,
                    mem_percent: mem.1,
                    mem_limit: self.memory_limit,
                    network_rx: self.network_rx_tx().0,
                    network_tx: self.network_rx_tx().1,
                    blk_read: self.blk().0,
                    blk_write: self.blk().1,
                },
            ),
            _ => None,
        }
    }
}

/// The CPU usage of the container in hundredths of a percent.
pub fn calc_cpu_usage(stats: &Stats) -> (r: Option<u64>)
    ensures
        r == stats@.cpu_percent(),
{
    if stats.cpu_total_usage < stats.precpu_total_usage {
        return None;
    }
    let cpu_delta = stats.cpu_total_usage - stats.precpu_total_usage;
    let precpu_system_cpu_usage = match stats.precpu_system_cpu_usage {
        Some(b) => b,
        None => 0,
    };
    let system_cpu_usage = match stats.system_cpu_usage {
        Some(s) => s,
        None => {
            return None;
        },
    };
    if system_cpu_usage < precpu_system_cpu_usage {
        return None;
    }
    let system_cpu_delta = system_cpu_usage - precpu_system_cpu_usage;
    let num_cpus = match &stats.percpu_usage {
        Some(v) => v.len(),
        None => {
            return None;
        },
    };
    assert(cpu_delta as u128 * num_cpus as u128 <= u128::MAX) by (nonlinear_arith)
        requires
            cpu_delta <= u64::MAX,
            num_cpus <= u64::MAX,
    ;
    Some(percent(cpu_delta as u128 * num_cpus as u128, system_cpu_delta))
}

/// The memory that the container uses without its cache, and that memory's
/// share of the limit in hundredths of a percent.
pub fn calc_mem_usage(stats: &Stats) -> (r: Option<(u64, u64)>)
    ensures
        r == stats@.mem_usage(),
{
    match stats.memory_cache {
        Some(cache) => {
            if stats.memory_usage < cache {
                return None;
            }
            let used_memory = stats.memory_usage - cache;
            Some((used_memory, percent(used_memory as u128, stats.memory_limit)))
        },
        None => None,
    }
}

/// The bytes that the container has received and sent over all its network
/// interfaces.
pub fn get_network_rx_tx(stats: &Stats) -> (r: (u64, u64))
    ensures
        r == stats@.network_rx_tx(),
{
    match &stats.networks {
        Some(networks) => {
            let mut rx: u64 = 0;
            let mut tx: u64 = 0;
            let mut i: usize = 0;
            assert(networks@.take(0) =~= Seq::<NetworkStats>::empty());
            while i < networks.len()
                invariant
                    i <= networks.len(),
                    rx == capped(rx_total(networks@.take(i as int))),
                    tx == capped(tx_total(networks@.take(i as int))),
                decreases networks.len() - i,
            {
                proof {
                    assert(networks@.take(i + 1).drop_last() =~= networks@.take(i as int));
                    lemma_capped_add(rx_total(networks@.take(i as int)), networks@[i as int].rx_bytes);
                    lemma_capped_add(tx_total(networks@.take(i as int)), networks@[i as int].tx_bytes);
                }
                rx = rx.saturating_add(networks[i].rx_bytes);
                tx = tx.saturating_add(networks[i].tx_bytes);
                i += 1;
            }
            assert(networks@.take(networks.len() as int) =~= networks@);
            (rx, tx)
        },
        None => (0, 0),
    }
}

/// The bytes that the container has read from and written to block
/// devices: the sums over the entries whose operation is exactly "Read" and
/// exactly "Write".
pub fn get_blk(stats: &Stats) -> (r: (u64, u64))
    ensures
        r == stats@.blk(),
{
    match &stats.io_service_bytes {
        Some(entries) => {
            let mut read: u64 = 0;
            let mut write: u64 = 0;
            let mut i: usize = 0;
            assert(entries@.take(0) =~= Seq::<BlkioStatEntry>::empty());
            while i < entries.len()
                invariant
                    i <= entries.len(),
                    read == capped(op_total(entries@.take(i as int), "Read"@)),
                    write == capped(op_total(entries@.take(i as int), "Write"@)),
                decreases entries.len() - i,
            {
                proof {
                    assert(entries@.take(i + 1).drop_last() =~= entries@.take(i as int));
                    lemma_capped_add(
                        op_total(entries@.take(i as int), "Read"@),
                        entries@[i as int].value,
                    );
                    lemma_capped_add(
                        op_total(entries@.take(i as int), "Write"@),
                        entries@[i as int].value,
                    );
                    lemma_read_is_not_write();
                }
                let entry = &entries[i];
                if same_text(entry.op.as_str(), "Read") {
                    read = read.saturating_add(entry.value);
                } else if same_text(entry.op.as_str(), "Write") {
                    write = write.saturating_add(entry.value);
                }
                i += 1;
            }
            assert(entries@.take(entries.len() as int) =~= entries@);
            (read, write)
        },
        None => (0, 0),
    }
}

/// The two operation names differ.
proof fn lemma_read_is_not_write()
    ensures
        "Read"@ != "Write"@,
{
    reveal_strlit("Read");
    reveal_strlit("Write");
    assert("Read"@.len() != "Write"@.len());
}

/// The figures that a sample gives for the store.
pub fn node_stats_of(stats: &Stats) -> (r: Option<NodeStats>)
    ensures
        r == stats@.node_stats(),
{
    let cpu_percent = match calc_cpu_usage(stats) {
        Some(c) => c,
        None => {
            return None;
        },
    };
    let (mem, mem_percent) = match calc_mem_usage(stats) {
        Some(m) => m,
        None => {
            return None;
        },
    };
    let (rx, tx) = get_network_rx_tx(stats);
    let (blk_read, blk_write) = get_blk(stats);
    Some(
        NodeStats {
            cpu_percent,
            mem,
            mem_percent,
            mem_limit: stats.memory_limit,
            network_rx: rx,
            network_tx: tx,
            blk_read,
            blk_write,
        },
    )
}

/// The store after a sample of the node `name`: with the sample's figures
/// in place of the node's earlier ones, or as it was where the sample
/// gives none.
pub open spec fn with_sample(store: DataView, name: Seq<char>, stats: StatsView) -> DataView {
    match stats.node_stats() {
        Some(s) => DataView {
            stat_names: upsert_keys(store.stat_names, name),
            stats: upsert_vals(store.stat_names, store.stats, name, s),
            ..store
        },
        None => store,
    }
}

/// Puts the figures of a sample of the node `name` into the store. A
/// sample that lacks a counter, or in which one has fallen back, is passed
/// over and the node keeps its earlier figures. Says whether the store took
/// the sample.
pub fn update_node_stats(name: &str, data: &mut Data, stats: &Stats) -> (r: bool)
    requires
        old(data).wf(),
    ensures
        final(data).wf(),
        final(data)@ == with_sample(old(data)@, name@, stats@),
        r == stats@.node_stats().is_some(),
{
    match node_stats_of(stats) {
        Some(node_stats) => {
            data.update_stats(name, node_stats);
            true
        },
        None => false,
    }
}

/// Why the container runtime's list gives no container.
#[derive(Debug, Clone, Copy, PartialEq, Eq, Structural)]
pub enum LookupError {
    /// No container of the list has a name that holds the text looked for.
    NotFound,
}

/// Whether one of the values is a string that holds `name`.
pub open spec fn some_name_holds(names: Seq<Json>, name: Seq<char>) -> bool {
    exists|i: int|
        0 <= i < names.len() && (#[trigger] names[i]).text() is Some && has_infix(
            names[i].text()->0,
            name,
        )
}

/// The identifier of a container of the runtime's list, if the container
/// has one and one of its names holds `name`.
pub open spec fn id_if_named(container: Json, name: Seq<char>) -> Option<Seq<char>> {
    match (container.field("Names"@), container.field("Id"@)) {
        (Some(Json::Array(names)), Some(Json::Str(id))) => if some_name_holds(names@, name) {
            Some(id@)
        } else {
            None
        },
        _ => None,
    }
}

/// The identifier of the first container among `containers` that has a
/// name holding `name`.
pub open spec fn first_id(containers: Seq<Json>, name: Seq<char>) -> Option<Seq<char>>
    decreases containers.len(),
{
    if containers.len() == 0 {
        None
    } else {
        match id_if_named(containers[0], name) {
            Some(id) => Some(id),
            None => first_id(containers.skip(1), name),
        }
    }
}

/// The identifier of the first container of a list of the container
/// runtime that has a name holding `name`.
pub open spec fn container_id_of(list: Json, name: Seq<char>) -> Option<Seq<char>> {
    match list {
        Json::Array(containers) => first_id(containers@, name),
        _ => None,
    }
}

/// Whether one of the values is a string that holds `name`.
pub fn any_name_holds(names: &Vec<Json>, name: &str) -> (r: bool)
    ensures
        r == some_name_holds(names@, name@),
{
    let mut i: usize = 0;
    while i < names.len()
        invariant
            i <= names.len(),
            forall|k: int|
                0 <= k < i ==> !((#[trigger] names@[k]).text() is Some && has_infix(
                    names@[k].text()->0,
                    name@,
                )),
        decreases names.len() - i,
    {
        match names[i].as_str() {
            Some(s) => {
                if contains(s, name) {
                    return true;
                }
            },
            None => {},
        }
        i += 1;
    }
    false
}

/// The identifier of the first container of a list of the container
/// runtime that has a name holding `name`.
pub fn get_container_id(list: &Json, name: &str) -> (r: Result<String, LookupError>)
    ensures
        match r {
            Ok(id) => container_id_of(*list, name@) == Some(id@),
            Err(e) => e == LookupError::NotFound && container_id_of(*list, name@) is None,
        },
{
    match list {
        Json::Array(containers) => {
            let mut i: usize = 0;
            assert(containers@.skip(0) =~= containers@);
            while i < containers.len()
                invariant
                    i <= containers.len(),
                    container_id_of(*list, name@) == first_id(containers@, name@),
                    first_id(containers@, name@) == first_id(containers@.skip(i as int), name@),
                decreases containers.len() - i,
            {
                assert(containers@.skip(i as int)[0] == containers@[i as int]);
                assert(containers@.skip(i as int).skip(1) =~= containers@.skip(i + 1));
                let container = &containers[i];
                match (container.get("Names"), container.get("Id")) {
                    (Some(Json::Array(names)), Some(Json::Str(id))) => {
                        if any_name_holds(names, name) {
                            return Ok(id.clone());
                        }
                    },
                    _ => {},
                }
                i += 1;
            }
            Err(LookupError::NotFound)
        },
        _ => Err(LookupError::NotFound),
    }
}

} // verus!
