//! The telemetry store and the records it holds.

use vstd::prelude::*;
use crate::table::NameTable;
use crate::table::distinct;
use crate::table::lookup;
use crate::table::upsert_keys;
use crate::table::upsert_vals;

verus! {

/// A point-in-time snapshot of one node's consensus engine.
#[derive(Debug)]
pub struct ConsensusState {
    pub name: String,
    pub host: String,
    pub current_number: u64,
    pub epoch: u64,
    pub view: u64,
    pub committed: u64,
    pub locked: u64,
    pub qc: u64,
    pub validator: bool,
}

impl Default for ConsensusState {
    fn default() -> (r: ConsensusState)
        ensures
            r.name@ == Seq::<char>::empty(),
            r.host@ == Seq::<char>::empty(),
            r.current_number == 0,
            r.epoch == 0,
            r.view == 0,
            r.committed == 0,
            r.locked == 0,
            r.qc == 0,
            !r.validator,
    {
        ConsensusState {
            name: String::new(),
            host: String::new(),
            current_number: 0,
            epoch: 0,
            view: 0,
            committed: 0,
            locked: 0,
            qc: 0,
            validator: false,
        }
    }
}

impl Clone for ConsensusState {
    fn clone(&self) -> (r: ConsensusState)
        ensures
            r == *self,
    {
        ConsensusState {
            name: self.name.clone(),
            host: self.host.clone(),
            current_number: self.current_number,
            epoch: self.epoch,
            view: self.view,
            committed: self.committed,
            locked: self.locked,
            qc: self.qc,
            validator: self.validator,
        }
    }
}

/// Resource usage of one node's container, from one sample of its runtime.
/// Percentages are in hundredths of a percent.
#[derive(Debug, Clone, Copy, PartialEq, Eq, Structural)]
pub struct NodeStats {
    pub cpu_percent: u64,
    pub mem: u64,
    pub mem_percent: u64,
    pub mem_limit: u64,
    pub network_rx: u64,
    pub network_tx: u64,
    pub blk_read: u64,
    pub blk_write: u64,
}

impl Default for NodeStats {
    fn default() -> (r: NodeStats)
        ensures
            r == (NodeStats {
                cpu_percent: 0,
                mem: 0,
                mem_percent: 0,
                mem_limit: 0,
                network_rx: 0,
                network_tx: 0,
                blk_read: 0,
                blk_write: 0,
            }),
    {
        NodeStats {
            cpu_percent: 0,
            mem: 0,
            mem_percent: 0,
            mem_limit: 0,
            network_rx: 0,
            network_tx: 0,
            blk_read: 0,
            blk_write: 0,
        }
    }
}

/// Reward and block production figures of one node, as the reward service
/// reports them. `reward_per` and `reward_value` hold the decimal text that
/// was received, or nothing where none came.
#[derive(Debug)]
pub struct NodeDetail {
    pub node_name: String,
    pub block_qty: u64,
    pub block_rate: String,
    pub daily_block_rate: String,
    pub reward_per: String,
    pub reward_value: String,
    pub reward_address: String,
    pub verifier_time: u64,
}

/// A `NodeDetail` as a mathematical value.
pub struct NodeDetailView {
    pub node_name: Seq<char>,
    pub block_qty: u64,
    pub block_rate: Seq<char>,
    pub daily_block_rate: Seq<char>,
    pub reward_per: Seq<char>,
    pub reward_value: Seq<char>,
    pub reward_address: Seq<char>,
    pub verifier_time: u64,
}

impl View for NodeDetail {
    type V = NodeDetailView;

    open spec fn view(&self) -> NodeDetailView {
        NodeDetailView {
            node_name: self.node_name@,
            block_qty: self.block_qty,
            block_rate: self.block_rate@,
            daily_block_rate: self.daily_block_rate@,
            reward_per: self.reward_per@,
            reward_value: self.reward_value@,
            reward_address: self.reward_address@,
            verifier_time: self.verifier_time,
        }
    }
}

impl Clone for NodeDetail {
    fn clone(&self) -> (r: NodeDetail)
        ensures
            r == *self,
    {
        NodeDetail {
            node_name: self.node_name.clone(),
            block_qty: self.block_qty,
            block_rate: self.block_rate.clone(),
            daily_block_rate: self.daily_block_rate.clone(),
            reward_per: self.reward_per.clone(),
            reward_value: self.reward_value.clone(),
            reward_address: self.reward_address.clone(),
            verifier_time: self.verifier_time,
        }
    }
}

/// Usage of one mounted disk. `usage_percent` is in hundredths of a percent,
/// `last_updated` is the collector's clock at the refresh that produced it.
#[derive(Debug)]
pub struct DiskDetail {
    pub mount_point: String,
    pub filesystem: String,
    pub total: u64,
    pub used: u64,
    pub available: u64,
    pub usage_percent: u64,
    pub device: String,
    pub is_alert: bool,
    pub is_network: bool,
    pub last_updated: u64,
}

impl Clone for DiskDetail {
    fn clone(&self) -> (r: DiskDetail)
        ensures
            r == *self,
    {
        DiskDetail {
            mount_point: self.mount_point.clone(),
            filesystem: self.filesystem.clone(),
            total: self.total,
            used: self.used,
            available: self.available,
            usage_percent: self.usage_percent,
            device: self.device.clone(),
            is_alert: self.is_alert,
            is_network: self.is_network,
            last_updated: self.last_updated,
        }
    }
}

/// Resource usage of the local host. Percentages and the alert threshold are
/// in hundredths of a percent; the network figures are per-refresh rates.
#[derive(Debug)]
pub struct SystemStats {
    pub cpu_usage: u64,
    pub memory_used: u64,
    pub memory_total: u64,
    pub memory_usage_percent: u64,
    pub network_rx: u64,
    pub network_tx: u64,
    pub disk_used: u64,
    pub disk_total: u64,
    pub disk_usage_percent: u64,
    pub disk_details: Vec<DiskDetail>,
    pub current_disk_index: usize,
    pub alert_threshold: u64,
    pub has_disk_alerts: bool,
    pub auto_discovery_enabled: bool,
}

/// A copy of `disks`.
pub fn clone_disks(disks: &Vec<DiskDetail>) -> (r: Vec<DiskDetail>)
    ensures
        r@ == disks@,
{
    let mut r: Vec<DiskDetail> = Vec::new();
    let mut i: usize = 0;
    while i < disks.len()
        invariant
            i <= disks.len(),
            r@ == disks@.take(i as int),
        decreases disks.len() - i,
    {
        r.push(disks[i].clone());
        assert(r@ =~= disks@.take(i + 1));
        i += 1;
    }
    assert(disks@.take(disks.len() as int) =~= disks@);
    r
}

/// A `SystemStats` as a mathematical value.
pub struct SystemStatsView {
    pub cpu_usage: u64,
    pub memory_used: u64,
    pub memory_total: u64,
    pub memory_usage_percent: u64,
    pub network_rx: u64,
    pub network_tx: u64,
    pub disk_used: u64,
    pub disk_total: u64,
    pub disk_usage_percent: u64,
    pub disk_details: Seq<DiskDetail>,
    pub current_disk_index: usize,
    pub alert_threshold: u64,
    pub has_disk_alerts: bool,
    pub auto_discovery_enabled: bool,
}

impl View for SystemStats {
    type V = SystemStatsView;

    open spec fn view(&self) -> SystemStatsView {
        SystemStatsView {
            cpu_usage: self.cpu_usage,
            memory_used: self.memory_used,
            memory_total: self.memory_total,
            memory_usage_percent: self.memory_usage_percent,
            network_rx: self.network_rx,
            network_tx: self.network_tx,
            disk_used: self.disk_used,
            disk_total: self.disk_total,
            disk_usage_percent: self.disk_usage_percent,
            disk_details: self.disk_details@,
            current_disk_index: self.current_disk_index,
            alert_threshold: self.alert_threshold,
            has_disk_alerts: self.has_disk_alerts,
            auto_discovery_enabled: self.auto_discovery_enabled,
        }
    }
}

/// The alert threshold of a store that no collector has written to: 90%.
pub const DEFAULT_ALERT_THRESHOLD: u64 = 9000;

impl Default for SystemStats {
    fn default() -> (r: SystemStats)
        ensures
            r@ == (SystemStatsView {
                cpu_usage: 0,
                memory_used: 0,
                memory_total: 0,
                memory_usage_percent: 0,
                network_rx: 0,
                network_tx: 0,
                disk_used: 0,
                disk_total: 0,
                disk_usage_percent: 0,
                disk_details: Seq::<DiskDetail>::empty(),
                current_disk_index: 0,
                alert_threshold: DEFAULT_ALERT_THRESHOLD,
                has_disk_alerts: false,
                auto_discovery_enabled: true,
            }),
    {
        SystemStats {
            cpu_usage: 0,
            memory_used: 0,
            memory_total: 0,
            memory_usage_percent: 0,
            network_rx: 0,
            network_tx: 0,
            disk_used: 0,
            disk_total: 0,
            disk_usage_percent: 0,
            disk_details: Vec::new(),
            current_disk_index: 0,
            alert_threshold: DEFAULT_ALERT_THRESHOLD,
            has_disk_alerts: false,
            auto_discovery_enabled: true,
        }
    }
}

impl Clone for SystemStats {
    fn clone(&self) -> (r: SystemStats)
        ensures
            r@ == self@,
    {
        SystemStats {
            cpu_usage: self.cpu_usage,
            memory_used: self.memory_used,
            memory_total: self.memory_total,
            memory_usage_percent: self.memory_usage_percent,
            network_rx: self.network_rx,
            network_tx: self.network_tx,
            disk_used: self.disk_used,
            disk_total: self.disk_total,
            disk_usage_percent: self.disk_usage_percent,
            disk_details: clone_disks(&self.disk_details),
            current_disk_index: self.current_disk_index,
            alert_threshold: self.alert_threshold,
            has_disk_alerts: self.has_disk_alerts,
            auto_discovery_enabled: self.auto_discovery_enabled,
        }
    }
}

impl SystemStats {
    /// The index of the disk to show: the selected index, or the last disk
    /// where the list has shrunk below it.
    pub open spec fn spec_selected_disk(&self) -> int {
        if self.disk_details@.len() == 0 {
            0
        } else if self.current_disk_index < self.disk_details@.len() {
            self.current_disk_index as int
        } else {
            self.disk_details@.len() - 1
        }
    }

    /// The index of the disk to show: the selected index, or the last disk
    /// where the list has shrunk below it; 0 where there is no disk.
    pub fn selected_disk(&self) -> (r: usize)
        ensures
            r == self.spec_selected_disk(),
            self.disk_details@.len() > 0 ==> r < self.disk_details@.len(),
    {
        let n = self.disk_details.len();
        if n == 0 {
            0
        } else if self.current_disk_index < n {
            self.current_disk_index
        } else {
            n - 1
        }
    }
}

/// One new block head as the chain collector hands it to the store.
#[derive(Debug, Clone, Copy)]
pub struct Head {
    pub number: u64,
    pub timestamp: u64,
    pub txs: u64,
}

/// The store as a mathematical value.
pub struct DataView {
    pub cur_block_number: u64,
    pub cur_block_time: u64,
    pub prev_block_time: u64,
    pub cur_txs: u64,
    pub max_txs: u64,
    pub max_txs_block_number: u64,
    pub txns: Seq<u64>,
    pub intervals: Seq<u64>,
    pub cur_interval: u64,
    pub max_interval: u64,
    pub state_names: Seq<Seq<char>>,
    pub states: Seq<ConsensusState>,
    pub stat_names: Seq<Seq<char>>,
    pub stats: Seq<NodeStats>,
    pub node_detail: Option<NodeDetail>,
    pub system_stats: SystemStatsView,
}

impl DataView {
    /// The time against which the next head's interval is measured: the
    /// current block time once a head with a time has come, else what was
    /// there before.
    pub open spec fn reference_time(self) -> u64 {
        if self.cur_block_time > 0 {
            self.cur_block_time
        } else {
            self.prev_block_time
        }
    }

    /// Whether a head with this timestamp can be recorded: its interval to
    /// the reference time is not negative.
    pub open spec fn accepts(self, timestamp: u64) -> bool {
        self.reference_time() <= timestamp
    }

    /// The store after one head.
    pub open spec fn record_head(self, head: Head) -> DataView {
        let prev = self.reference_time();
        let raised = head.txs > self.max_txs;
        let timed = prev > 0;
        let interval = (head.timestamp - prev) as u64;
        DataView {
            cur_block_number: head.number,
            cur_block_time: head.timestamp,
            prev_block_time: prev,
            cur_txs: head.txs,
            max_txs: if raised { head.txs } else { self.max_txs },
            max_txs_block_number: if raised { head.number } else { self.max_txs_block_number },
            txns: self.txns.push(head.txs),
            intervals: if timed { self.intervals.push(interval) } else { self.intervals },
            cur_interval: if timed { interval } else { self.cur_interval },
            max_interval: if timed && interval > self.max_interval { interval } else { self.max_interval },
            ..self
        }
    }

    /// The store after a run of heads, first to last.
    pub open spec fn record_heads(self, heads: Seq<Head>) -> DataView
        decreases heads.len(),
    {
        if heads.len() == 0 {
            self
        } else {
            self.record_heads(heads.drop_last()).record_head(heads.last())
        }
    }

    /// Whether a run of heads can be recorded, first to last: each is
    /// accepted by the store that the heads before it leave.
    pub open spec fn accepts_all(self, heads: Seq<Head>) -> bool
        decreases heads.len(),
    {
        if heads.len() == 0 {
            true
        } else {
            &&& self.accepts_all(heads.drop_last())
            &&& self.record_heads(heads.drop_last()).accepts(heads.last().timestamp)
        }
    }

    /// The consensus state stored for `name`, if there is one.
    pub open spec fn state_of(self, name: Seq<char>) -> Option<ConsensusState> {
        lookup(self.state_names, self.states, name)
    }

    /// The container statistics stored for `name`, if there are any.
    pub open spec fn stats_of(self, name: Seq<char>) -> Option<NodeStats> {
        lookup(self.stat_names, self.stats, name)
    }

    /// The number of disks in the host statistics.
    pub open spec fn disk_count(self) -> nat {
        self.system_stats.disk_details.len()
    }

    /// The disk index after "next": one further, and from the last disk back
    /// to the first; unchanged where there is no disk.
    pub open spec fn next_disk_index(self) -> usize {
        if self.disk_count() == 0 {
            self.system_stats.current_disk_index
        } else {
            ((self.system_stats.current_disk_index + 1) % (self.disk_count() as int)) as usize
        }
    }

    /// The disk index after "previous": one back, and from the first disk
    /// to the last; unchanged where there is no disk.
    pub open spec fn prev_disk_index(self) -> usize {
        if self.disk_count() == 0 {
            self.system_stats.current_disk_index
        } else if self.system_stats.current_disk_index == 0 {
            (self.disk_count() - 1) as usize
        } else {
            (self.system_stats.current_disk_index - 1) as usize
        }
    }

    /// What a drain of the transaction counts hands out, and the store
    /// that it leaves.
    pub open spec fn drain_txns(self) -> (Seq<u64>, DataView) {
        (self.txns, DataView { txns: Seq::empty(), ..self })
    }

    /// What a drain of the intervals hands out, and the store that it
    /// leaves.
    pub open spec fn drain_intervals(self) -> (Seq<u64>, DataView) {
        (self.intervals, DataView { intervals: Seq::empty(), ..self })
    }

    /// The store with another disk index and nothing else changed.
    pub open spec fn with_disk_index(self, index: usize) -> DataView {
        DataView {
            system_stats: SystemStatsView { current_disk_index: index, ..self.system_stats },
            ..self
        }
    }
}

/// All collected state: chain statistics, per-node consensus states and
/// container statistics, the reward detail of one node, and host statistics.
#[derive(Debug)]
pub struct Data {
    cur_block_number: u64,
    cur_block_time: u64,
    prev_block_time: u64,
    cur_txs: u64,
    max_txs: u64,
    max_txs_block_number: u64,
    txns: Vec<u64>,
    intervals: Vec<u64>,
    cur_interval: u64,
    max_interval: u64,
    states: NameTable<ConsensusState>,
    stats: NameTable<NodeStats>,
    node_detail: Option<NodeDetail>,
    system_stats: SystemStats,
}

impl View for Data {
    type V = DataView;

    closed spec fn view(&self) -> DataView {
        DataView {
            cur_block_number: self.cur_block_number,
            cur_block_time: self.cur_block_time,
            prev_block_time: self.prev_block_time,
            cur_txs: self.cur_txs,
            max_txs: self.max_txs,
            max_txs_block_number: self.max_txs_block_number,
            txns: self.txns@,
            intervals: self.intervals@,
            cur_interval: self.cur_interval,
            max_interval: self.max_interval,
            state_names: self.states.keys(),
            states: self.states.vals(),
            stat_names: self.stats.keys(),
            stats: self.stats.vals(),
            node_detail: self.node_detail,
            system_stats: self.system_stats@,
        }
    }
}

/// The store that no collector has written to.
pub open spec fn empty_store() -> DataView {
    DataView {
        cur_block_number: 0,
        cur_block_time: 0,
        prev_block_time: 0,
        cur_txs: 0,
        max_txs: 0,
        max_txs_block_number: 0,
        txns: Seq::empty(),
        intervals: Seq::empty(),
        cur_interval: 0,
        max_interval: 0,
        state_names: Seq::empty(),
        states: Seq::empty(),
        stat_names: Seq::empty(),
        stats: Seq::empty(),
        node_detail: None,
        system_stats: SystemStatsView {
            cpu_usage: 0,
            memory_used: 0,
            memory_total: 0,
            memory_usage_percent: 0,
            network_rx: 0,
            network_tx: 0,
            disk_used: 0,
            disk_total: 0,
            disk_usage_percent: 0,
            disk_details: Seq::empty(),
            current_disk_index: 0,
            alert_threshold: DEFAULT_ALERT_THRESHOLD,
            has_disk_alerts: false,
            auto_discovery_enabled: true,
        },
    }
}

impl Default for Data {
    fn default() -> (r: Data)
        ensures
            r.wf(),
            r@ == empty_store(),
    {
        Data {
            cur_block_number: 0,
            cur_block_time: 0,
            prev_block_time: 0,
            cur_txs: 0,
            max_txs: 0,
            max_txs_block_number: 0,
            txns: Vec::new(),
            intervals: Vec::new(),
            cur_interval: 0,
            max_interval: 0,
            states: NameTable::new(),
            stats: NameTable::new(),
            node_detail: None,
            system_stats: SystemStats::default(),
        }
    }
}

impl Data {
    /// Every node name stands once among the consensus states and once among
    /// the container statistics, each with one value.
    pub closed spec fn wf(&self) -> bool {
        &&& self.states.wf()
        &&& self.stats.wf()
    }

    /// What `wf` says, over the view.
    pub proof fn lemma_wf(&self)
        requires
            self.wf(),
        ensures
            distinct(self@.state_names),
            distinct(self@.stat_names),
            self@.state_names.len() == self@.states.len(),
            self@.stat_names.len() == self@.stats.len(),
    {
    }

    /// A store that no collector has written to.
    pub fn new() -> (r: Data)
        ensures
            r.wf(),
            r@ == empty_store(),
    {
        Data::default()
    }

    pub fn cur_block_number(&self) -> (r: u64)
        ensures
            r == self@.cur_block_number,
    {
        self.cur_block_number
    }

    pub fn cur_block_time(&self) -> (r: u64)
        ensures
            r == self@.cur_block_time,
    {
        self.cur_block_time
    }

    pub fn prev_block_time(&self) -> (r: u64)
        ensures
            r == self@.prev_block_time,
    {
        self.prev_block_time
    }

    pub fn cur_txs(&self) -> (r: u64)
        ensures
            r == self@.cur_txs,
    {
        self.cur_txs
    }

    pub fn max_txs(&self) -> (r: u64)
        ensures
            r == self@.max_txs,
    {
        self.max_txs
    }

    pub fn max_txs_block_number(&self) -> (r: u64)
        ensures
            r == self@.max_txs_block_number,
    {
        self.max_txs_block_number
    }

    pub fn cur_interval(&self) -> (r: u64)
        ensures
            r == self@.cur_interval,
    {
        self.cur_interval
    }

    pub fn max_interval(&self) -> (r: u64)
        ensures
            r == self@.max_interval,
    {
        self.max_interval
    }

    /// Hands out the transaction counts collected since the last call and
    /// empties the buffer.
    pub fn txns_and_clear(&mut self) -> (r: Vec<u64>)
        ensures
            r@ == old(self)@.drain_txns().0,
            final(self)@ == old(self)@.drain_txns().1,
            final(self).wf() == old(self).wf(),
    {
        let mut txns: Vec<u64> = Vec::new();
        core::mem::swap(&mut txns, &mut self.txns);
        txns
    }

    /// Hands out the block intervals collected since the last call and
    /// empties the buffer.
    pub fn intervals_and_clear(&mut self) -> (r: Vec<u64>)
        ensures
            r@ == old(self)@.drain_intervals().0,
            final(self)@ == old(self)@.drain_intervals().1,
            final(self).wf() == old(self).wf(),
    {
        let mut intervals: Vec<u64> = Vec::new();
        core::mem::swap(&mut intervals, &mut self.intervals);
        intervals
    }

    /// Whether a head with this timestamp can be recorded.
    pub fn accepts(&self, timestamp: u64) -> (r: bool)
        ensures
            r == self@.accepts(timestamp),
    {
        if self.cur_block_time > 0 {
            self.cur_block_time <= timestamp
        } else {
            self.prev_block_time <= timestamp
        }
    }

    /// Records one new block head: its number, time and transaction count,
    /// the running maxima, and one sample for each of the two buffers.
    pub fn record_head(&mut self, number: u64, timestamp: u64, txs: u64)
        requires
            old(self)@.accepts(timestamp),
        ensures
            final(self)@ == old(self)@.record_head(Head { number, timestamp, txs }),
            final(self).wf() == old(self).wf(),
    {
        self.cur_block_number = number;
        if self.cur_block_time > 0 {
            self.prev_block_time = self.cur_block_time;
        }
        self.cur_block_time = timestamp;
        self.cur_txs = txs;
        if txs > self.max_txs {
            self.max_txs = txs;
            self.max_txs_block_number = number;
        }
        self.txns.push(txs);
        if self.prev_block_time > 0 {
            let interval: u64 = self.cur_block_time - self.prev_block_time;
            self.cur_interval = interval;
            if interval > self.max_interval {
                self.max_interval = interval;
            }
            self.intervals.push(interval);
        }
    }

    /// Records a run of new block heads, first to last.
    pub fn record_heads(&mut self, heads: &Vec<Head>)
        requires
            old(self)@.accepts_all(heads@),
        ensures
            final(self)@ == old(self)@.record_heads(heads@),
            final(self).wf() == old(self).wf(),
    {
        let mut i: usize = 0;
        assert(heads@.take(0) =~= Seq::<Head>::empty());
        while i < heads.len()
            invariant
                i <= heads.len(),
                old(self)@.accepts_all(heads@),
                self@ == old(self)@.record_heads(heads@.take(i as int)),
                self.wf() == old(self).wf(),
            decreases heads.len() - i,
        {
            proof {
                lemma_accepts_prefix(old(self)@, heads@, i + 1);
                assert(heads@.take(i + 1).drop_last() =~= heads@.take(i as int));
                assert(heads@.take(i + 1).last() == heads@[i as int]);
            }
            let head = heads[i];
            self.record_head(head.number, head.timestamp, head.txs);
            i += 1;
        }
        assert(heads@.take(heads.len() as int) =~= heads@);
    }

    /// The consensus states of all nodes, in the order in which the nodes
    /// first reported.
    pub fn states(&self) -> (r: Vec<ConsensusState>)
        requires
            self.wf(),
        ensures
            r@ == self@.states,
    {
        let mut r: Vec<ConsensusState> = Vec::new();
        let n = self.states.len();
        let mut i: usize = 0;
        while i < n
            invariant
                self.wf(),
                n == self.states.keys().len(),
                i <= n,
                r@ == self.states.vals().take(i as int),
            decreases n - i,
        {
            r.push(self.states.value_at(i).clone());
            assert(r@ =~= self.states.vals().take(i + 1));
            i += 1;
        }
        assert(self.states.vals().take(n as int) =~= self.states.vals());
        r
    }

    /// The container statistics of all nodes, each with its node's name, in
    /// the order in which the nodes first reported.
    pub fn stats(&self) -> (r: Vec<(String, NodeStats)>)
        requires
            self.wf(),
        ensures
            r@.len() == self@.stats.len(),
            forall|i: int|
                0 <= i < r@.len() ==> (#[trigger] r@[i]).0@ == self@.stat_names[i] && r@[i].1
                    == self@.stats[i],
    {
        let mut r: Vec<(String, NodeStats)> = Vec::new();
        let n = self.stats.len();
        let mut i: usize = 0;
        while i < n
            invariant
                self.wf(),
                n == self.stats.keys().len(),
                i <= n,
                r@.len() == i,
                forall|k: int|
                    0 <= k < i ==> (#[trigger] r@[k]).0@ == self.stats.keys()[k] && r@[k].1
                        == self.stats.vals()[k],
            decreases n - i,
        {
            r.push((self.stats.name_at(i).clone(), *self.stats.value_at(i)));
            i += 1;
        }
        r
    }

    /// The consensus state stored for `name`, if there is one.
    pub fn state_of(&self, name: &str) -> (r: Option<ConsensusState>)
        requires
            self.wf(),
        ensures
            r == self@.state_of(name@),
    {
        match self.states.get(name) {
            Some(s) => Some(s.clone()),
            None => None,
        }
    }

    /// The container statistics stored for `name`, if there are any.
    pub fn stats_of(&self, name: &str) -> (r: Option<NodeStats>)
        requires
            self.wf(),
        ensures
            r == self@.stats_of(name@),
    {
        match self.stats.get(name) {
            Some(s) => Some(*s),
            None => None,
        }
    }

    /// Replaces the consensus state of the node that `state` names, or adds
    /// the node.
    pub fn update_state(&mut self, state: ConsensusState)
        requires
            old(self).wf(),
        ensures
            final(self).wf(),
            final(self)@ == (DataView {
                state_names: upsert_keys(old(self)@.state_names, state.name@),
                states: upsert_vals(old(self)@.state_names, old(self)@.states, state.name@, state),
                ..old(self)@
            }),
    {
        let name = state.name.clone();
        self.states.insert(name, state);
    }

    /// Replaces the container statistics of the node `name`, or adds the
    /// node.
    pub fn update_stats(&mut self, name: &str, stats: NodeStats)
        requires
            old(self).wf(),
        ensures
            final(self).wf(),
            final(self)@ == (DataView {
                stat_names: upsert_keys(old(self)@.stat_names, name@),
                stats: upsert_vals(old(self)@.stat_names, old(self)@.stats, name@, stats),
                ..old(self)@
            }),
    {
        self.stats.insert(name.to_owned(), stats);
    }

    /// The reward detail, if the last fetch gave one.
    pub fn node_detail(&self) -> (r: Option<NodeDetail>)
        ensures
            r == self@.node_detail,
    {
        match &self.node_detail {
            Some(d) => Some(d.clone()),
            None => None,
        }
    }

    /// Replaces the reward detail: with what a fetch gave, or with nothing
    /// where it failed.
    pub fn update_node_detail(&mut self, detail: Option<NodeDetail>)
        ensures
            final(self)@ == (DataView { node_detail: detail, ..old(self)@ }),
            final(self).wf() == old(self).wf(),
    {
        self.node_detail = detail;
    }

    /// A copy of the host statistics.
    pub fn system_stats(&self) -> (r: SystemStats)
        ensures
            r@ == self@.system_stats,
    {
        self.system_stats.clone()
    }

    /// Replaces the host statistics with those of a new refresh. The disk
    /// index that the user has selected stays as it is.
    pub fn publish_system_stats(&mut self, stats: SystemStats)
        ensures
            final(self)@ == (DataView {
                system_stats: SystemStatsView {
                    current_disk_index: old(self)@.system_stats.current_disk_index,
                    ..stats@
                },
                ..old(self)@
            }),
            final(self).wf() == old(self).wf(),
    {
        let index = self.system_stats.current_disk_index;
        self.system_stats = stats;
        self.system_stats.current_disk_index = index;
    }

    /// Sets the selected disk index.
    pub fn update_disk_index(&mut self, new_index: usize)
        ensures
            final(self)@ == old(self)@.with_disk_index(new_index),
            final(self).wf() == old(self).wf(),
    {
        self.system_stats.current_disk_index = new_index;
    }

    /// Selects the next disk, and after the last one the first. Does nothing
    /// where there is no disk.
    pub fn select_next_disk(&mut self)
        ensures
            final(self)@ == old(self)@.with_disk_index(old(self)@.next_disk_index()),
            final(self).wf() == old(self).wf(),
    {
        let disk_count = self.system_stats.disk_details.len();
        if disk_count > 0 {
            let current = self.system_stats.current_disk_index;
            let next = if current == usize::MAX {
                proof {
                    lemma_wrapped_successor(current as int, disk_count as int);
                }
                (current % disk_count + 1) % disk_count
            } else {
                (current + 1) % disk_count
            };
            self.update_disk_index(next);
        }
    }

    /// Selects the previous disk, and before the first one the last. Does
    /// nothing where there is no disk.
    pub fn select_prev_disk(&mut self)
        ensures
            final(self)@ == old(self)@.with_disk_index(old(self)@.prev_disk_index()),
            final(self).wf() == old(self).wf(),
    {
        let disk_count = self.system_stats.disk_details.len();
        if disk_count > 0 {
            let current = self.system_stats.current_disk_index;
            let prev = if current == 0 {
                disk_count - 1
            } else {
                current - 1
            };
            self.update_disk_index(prev);
        }
    }
}

/// Where a run of heads can be recorded, so can each of its beginnings.
pub proof fn lemma_accepts_prefix(s: DataView, heads: Seq<Head>, k: int)
    requires
        s.accepts_all(heads),
        0 <= k <= heads.len(),
    ensures
        s.accepts_all(heads.take(k)),
    decreases heads.len(),
{
    if k == heads.len() {
        assert(heads.take(k) =~= heads);
    } else {
        lemma_accepts_prefix(s, heads.drop_last(), k);
        assert(heads.drop_last().take(k) =~= heads.take(k));
    }
}

/// The successor of `a` modulo `n` can be taken after reducing `a`.
proof fn lemma_wrapped_successor(a: int, n: int)
    requires
        0 <= a,
        0 < n,
    ensures
        (a % n + 1) % n == (a + 1) % n,
{
    vstd::arithmetic::div_mod::lemma_add_mod_noop(a, 1, n);
    vstd::arithmetic::div_mod::lemma_mod_twice(a, n);
    if n == 1 {
    } else {
        vstd::arithmetic::div_mod::lemma_small_mod(1, n as nat);
    }
}

} // verus!
