//! The consumers of the store: what each of them keeps of it between two
//! refreshes, and the rule that refreshes those that are due at a tick.

use vstd::prelude::*;
use crate::config::Opts;
use crate::schedule::Seconds;
use crate::schedule::comparable;
use crate::schedule::due;
use crate::schedule::is_due;
use crate::store::ConsensusState;
use crate::store::Data;
use crate::store::DataView;
use crate::store::NodeStats;
use crate::store::SystemStats;

verus! {

/// The points that a run of samples adds to a series that has `count`
/// samples already: each sample with its running number.
pub open spec fn numbered(count: u64, samples: Seq<u64>) -> Seq<(u64, u64)> {
    Seq::new(samples.len(), |i: int| ((count + i) as u64, samples[i]))
}

/// The samples of one figure over time, each with its running number, for a
/// chart. A new series holds the one point (0, 0).
#[derive(Debug)]
pub struct Series {
    update_count: u64,
    data: Vec<(u64, u64)>,
}

impl Series {
    /// The number of samples taken so far.
    pub closed spec fn count(&self) -> u64 {
        self.update_count
    }

    /// The points of the series.
    pub closed spec fn points(&self) -> Seq<(u64, u64)> {
        self.data@
    }

    /// There is one point more than samples were taken.
    pub closed spec fn wf(&self) -> bool {
        self.data@.len() == self.update_count + 1
    }

    /// A series without samples.
    pub fn new() -> (r: Series)
        ensures
            r.wf(),
            r.count() == 0,
            r.points() == seq![(0u64, 0u64)],
    {
        let mut data: Vec<(u64, u64)> = Vec::new();
        data.push((0, 0));
        assert(data@ =~= seq![(0u64, 0u64)]);
        Series { update_count: 0, data }
    }

    /// The number of samples taken so far.
    pub fn update_count(&self) -> (r: u64)
        ensures
            r == self.count(),
    {
        self.update_count
    }

    /// The points of the series.
    pub fn data(&self) -> (r: &Vec<(u64, u64)>)
        ensures
            r@ == self.points(),
    {
        &self.data
    }

    /// Adds the samples to the series, each with the next running number.
    pub fn extend(&mut self, samples: &Vec<u64>)
        requires
            old(self).wf(),
        ensures
            final(self).wf(),
            final(self).count() == old(self).count() + samples@.len(),
            final(self).points() == old(self).points() + numbered(old(self).count(), samples@),
    {
        let mut i: usize = 0;
        assert(self.data@ =~= old(self).data@ + numbered(old(self).update_count, samples@.take(0)));
        while i < samples.len()
            invariant
                i <= samples.len(),
                self.data@.len() == self.update_count + 1,
                self.update_count == old(self).update_count + i,
                self.data@ == old(self).data@ + numbered(
                    old(self).update_count,
                    samples@.take(i as int),
                ),
            decreases samples.len() - i,
        {
            self.data.push((self.update_count, samples[i]));
            // The points fit a vector, so their number fits the counter.
            assert(self.data.len() <= usize::MAX);
            assert(self.data@ =~= old(self).data@ + numbered(
                old(self).update_count,
                samples@.take(i + 1),
            ));
            self.update_count += 1;
            i += 1;
        }
        assert(samples@.take(samples.len() as int) =~= samples@);
    }
}

/// A consumer of the store with a refresh period of its own.
pub trait UpdatableWidget {
    /// Whether the consumer is in a state from which it can refresh.
    spec fn ready(&self) -> bool;

    /// The consumer's refresh period.
    spec fn interval(&self) -> Seconds;

    /// Whether `after` is the consumer `before` refreshed from `store`.
    spec fn refreshed(before: &Self, after: &Self, store: DataView) -> bool;

    /// The store that a refresh from `store` leaves.
    spec fn store_after(&self, store: DataView) -> DataView;

    /// Refreshes the consumer from the store.
    fn update(&mut self, data: &mut Data)
        requires
            old(self).ready(),
            old(data).wf(),
        ensures
            final(self).ready(),
            final(data).wf(),
            final(self).interval() == old(self).interval(),
            Self::refreshed(old(self), final(self), old(data)@),
            final(data)@ == old(self).store_after(old(data)@),
    ;

    /// The consumer's refresh period.
    fn get_update_interval(&self) -> (r: Seconds)
        ensures
            r == self.interval(),
    ;
}

/// The transactions chart: the latest block's number and transaction
/// count, the largest count with its block, and the counts over time.
#[derive(Debug)]
pub struct TxsWidget {
    pub update_interval: Seconds,
    pub cur_num: u64,
    pub cur_txs: u64,
    pub max: u64,
    pub max_block_number: u64,
    pub series: Series,
}

impl TxsWidget {
    /// A chart without samples that refreshes every `update_interval`.
    pub fn new(update_interval: Seconds) -> (r: TxsWidget)
        ensures
            r.ready(),
            r.update_interval == update_interval,
            r.cur_num == 0 && r.cur_txs == 0 && r.max == 0 && r.max_block_number == 0,
            r.series.count() == 0,
            r.series.points() == seq![(0u64, 0u64)],
    {
        TxsWidget {
            update_interval,
            cur_num: 0,
            cur_txs: 0,
            max: 0,
            max_block_number: 0,
            series: Series::new(),
        }
    }
}

impl UpdatableWidget for TxsWidget {
    open spec fn ready(&self) -> bool {
        self.series.wf()
    }

    open spec fn interval(&self) -> Seconds {
        self.update_interval
    }

    open spec fn refreshed(before: &Self, after: &Self, store: DataView) -> bool {
        &&& after.update_interval == before.update_interval
        &&& after.cur_num == store.cur_block_number
        &&& after.cur_txs == store.cur_txs
        &&& after.max == store.max_txs
        &&& after.max_block_number == store.max_txs_block_number
        &&& after.series.count() == before.series.count() + store.txns.len()
        &&& after.series.points() == before.series.points() + numbered(
            before.series.count(),
            store.txns,
        )
    }

    open spec fn store_after(&self, store: DataView) -> DataView {
        store.drain_txns().1
    }

    fn update(&mut self, data: &mut Data) {
        self.cur_num = data.cur_block_number();
        self.cur_txs = data.cur_txs();
        self.max = data.max_txs();
        self.max_block_number = data.max_txs_block_number();
        let drained = data.txns_and_clear();
        self.series.extend(&drained);
    }

    fn get_update_interval(&self) -> (r: Seconds) {
        self.update_interval
    }
}

/// The block time chart: the latest block's number and interval, the
/// largest interval, and the intervals over time.
#[derive(Debug)]
pub struct TimeWidget {
    pub update_interval: Seconds,
    pub cur_num: u64,
    pub cur_time: u64,
    pub max_time: u64,
    pub series: Series,
}

impl TimeWidget {
    /// A chart without samples that refreshes every `update_interval`.
    pub fn new(update_interval: Seconds) -> (r: TimeWidget)
        ensures
            r.ready(),
            r.update_interval == update_interval,
            r.cur_num == 0 && r.cur_time == 0 && r.max_time == 0,
            r.series.count() == 0,
            r.series.points() == seq![(0u64, 0u64)],
    {
        TimeWidget { update_interval, cur_num: 0, cur_time: 0, max_time: 0, series: Series::new() }
    }
}

impl UpdatableWidget for TimeWidget {
    open spec fn ready(&self) -> bool {
        self.series.wf()
    }

    open spec fn interval(&self) -> Seconds {
        self.update_interval
    }

    open spec fn refreshed(before: &Self, after: &Self, store: DataView) -> bool {
        &&& after.update_interval == before.update_interval
        &&& after.cur_num == store.cur_block_number
        &&& after.cur_time == store.cur_interval
        &&& after.max_time == store.max_interval
        &&& after.series.count() == before.series.count() + store.intervals.len()
        &&& after.series.points() == before.series.points() + numbered(
            before.series.count(),
            store.intervals,
        )
    }

    open spec fn store_after(&self, store: DataView) -> DataView {
        store.drain_intervals().1
    }

    fn update(&mut self, data: &mut Data) {
        self.cur_num = data.cur_block_number();
        self.cur_time = data.cur_interval();
        self.max_time = data.max_interval();
        let drained = data.intervals_and_clear();
        self.series.extend(&drained);
    }

    fn get_update_interval(&self) -> (r: Seconds) {
        self.update_interval
    }
}

/// The node table: the consensus state of each node and, where containers
/// are monitored, each node's container statistics.
#[derive(Debug)]
pub struct NodeWidget {
    pub update_interval: Seconds,
    pub nodes: Vec<ConsensusState>,
    pub stats: Vec<(String, NodeStats)>,
}

impl NodeWidget {
    /// An empty table that refreshes every second.
    pub fn new() -> (r: NodeWidget)
        ensures
            r.update_interval == (Seconds { numer: 1, denom: 1 }),
            r.nodes@ == Seq::<ConsensusState>::empty(),
            r.stats@ == Seq::<(String, NodeStats)>::empty(),
    {
        NodeWidget {
            update_interval: Seconds::from_integer(1),
            nodes: Vec::new(),
            stats: Vec::new(),
        }
    }
}

impl UpdatableWidget for NodeWidget {
    open spec fn ready(&self) -> bool {
        true
    }

    open spec fn interval(&self) -> Seconds {
        self.update_interval
    }

    open spec fn refreshed(before: &Self, after: &Self, store: DataView) -> bool {
        &&& after.update_interval == before.update_interval
        &&& after.nodes@ == store.states
        &&& after.stats@.len() == store.stats.len()
        &&& forall|i: int|
            0 <= i < after.stats@.len() ==> (#[trigger] after.stats@[i]).0@ == store.stat_names[i]
                && after.stats@[i].1 == store.stats[i]
    }

    open spec fn store_after(&self, store: DataView) -> DataView {
        store
    }

    fn update(&mut self, data: &mut Data) {
        self.nodes = data.states();
        self.stats = data.stats();
    }

    fn get_update_interval(&self) -> (r: Seconds) {
        self.update_interval
    }
}

/// The reward detail row: whether a detail has ever come.
#[derive(Debug)]
pub struct NodeDetailWidget {
    pub update_interval: Seconds,
    pub loading: bool,
}

impl NodeDetailWidget {
    /// A row that is still waiting for its first detail and refreshes
    /// every second.
    pub fn new() -> (r: NodeDetailWidget)
        ensures
            r.update_interval == (Seconds { numer: 1, denom: 1 }),
            r.loading,
    {
        NodeDetailWidget { update_interval: Seconds::from_integer(1), loading: true }
    }
}

impl UpdatableWidget for NodeDetailWidget {
    open spec fn ready(&self) -> bool {
        true
    }

    open spec fn interval(&self) -> Seconds {
        self.update_interval
    }

    open spec fn refreshed(before: &Self, after: &Self, store: DataView) -> bool {
        &&& after.update_interval == before.update_interval
        &&& after.loading == (before.loading && store.node_detail is None)
    }

    open spec fn store_after(&self, store: DataView) -> DataView {
        store
    }

    fn update(&mut self, data: &mut Data) {
        if data.node_detail().is_some() {
            self.loading = false;
        }
    }

    fn get_update_interval(&self) -> (r: Seconds) {
        self.update_interval
    }
}

/// The host panel: the host statistics as they were at the last refresh.
#[derive(Debug)]
pub struct SystemWidget {
    pub update_interval: Seconds,
    pub system_stats: SystemStats,
}

impl SystemWidget {
    /// A panel with the statistics of an empty store that refreshes every
    /// two seconds.
    pub fn new() -> (r: SystemWidget)
        ensures
            r.update_interval == (Seconds { numer: 2, denom: 1 }),
            r.system_stats@ == crate::store::empty_store().system_stats,
    {
        SystemWidget {
            update_interval: Seconds::from_integer(2),
            system_stats: SystemStats::default(),
        }
    }
}

impl UpdatableWidget for SystemWidget {
    open spec fn ready(&self) -> bool {
        true
    }

    open spec fn interval(&self) -> Seconds {
        self.update_interval
    }

    open spec fn refreshed(before: &Self, after: &Self, store: DataView) -> bool {
        &&& after.update_interval == before.update_interval
        &&& after.system_stats@ == store.system_stats
    }

    open spec fn store_after(&self, store: DataView) -> DataView {
        store
    }

    fn update(&mut self, data: &mut Data) {
        self.system_stats = data.system_stats();
    }

    fn get_update_interval(&self) -> (r: Seconds) {
        self.update_interval
    }
}

/// Whether the refresh rule can be applied to a consumer at the time
/// `seconds`: its period is a positive number, and time and period can be
/// brought to a common denominator within `u64`.
pub open spec fn schedulable(seconds: Seconds, interval: Seconds) -> bool {
    &&& interval.wf()
    &&& interval.numer > 0
    &&& comparable(seconds, interval)
}

/// Whether the refresh rule can be applied to a consumer with the period
/// `interval` at the time `seconds`.
pub fn can_schedule(seconds: &Seconds, interval: &Seconds) -> (r: bool)
    ensures
        r == schedulable(*seconds, *interval),
{
    interval.denom > 0 && interval.numer > 0 && seconds.comparable_with(interval)
}

/// Refreshes one consumer if it is due at the time `seconds`.
pub fn update_if_due<W: UpdatableWidget>(widget: &mut W, seconds: Seconds, data: &mut Data)
    requires
        old(widget).ready(),
        old(data).wf(),
        seconds.wf(),
        schedulable(seconds, old(widget).interval()),
    ensures
        final(widget).ready(),
        final(data).wf(),
        final(widget).interval() == old(widget).interval(),
        due(seconds, old(widget).interval()) ==> W::refreshed(
            old(widget),
            final(widget),
            old(data)@,
        ) && final(data)@ == old(widget).store_after(old(data)@),
        !due(seconds, old(widget).interval()) ==> *final(widget) == *old(widget) && final(data)@
            == old(data)@,
{
    if is_due(seconds, widget.get_update_interval()) {
        widget.update(data);
    }
}

/// The consumers that the scheduler refreshes.
#[derive(Debug)]
pub struct Widgets {
    pub txs: TxsWidget,
    pub time: TimeWidget,
    pub node: NodeWidget,
    pub system: SystemWidget,
}

/// The store after the consumers that are due at `seconds` have refreshed:
/// the transactions chart has drained the transaction counts, the block
/// time chart the intervals.
pub open spec fn store_after_tick(widgets: Widgets, seconds: Seconds, store: DataView) -> DataView {
    let first = if due(seconds, widgets.txs.update_interval) {
        store.drain_txns().1
    } else {
        store
    };
    if due(seconds, widgets.time.update_interval) {
        first.drain_intervals().1
    } else {
        first
    }
}

/// Refreshes, at the time `seconds`, each consumer whose period divides
/// that time, and leaves the others as they are.
pub fn update_widgets(widgets: &mut Widgets, seconds: Seconds, data: &mut Data)
    requires
        old(widgets).txs.ready(),
        old(widgets).time.ready(),
        old(data).wf(),
        seconds.wf(),
        schedulable(seconds, old(widgets).txs.update_interval),
        schedulable(seconds, old(widgets).time.update_interval),
        schedulable(seconds, old(widgets).node.update_interval),
        schedulable(seconds, old(widgets).system.update_interval),
    ensures
        final(widgets).txs.ready(),
        final(widgets).time.ready(),
        final(data).wf(),
        final(data)@ == store_after_tick(*old(widgets), seconds, old(data)@),
        if due(seconds, old(widgets).txs.update_interval) {
            TxsWidget::refreshed(&old(widgets).txs, &final(widgets).txs, old(data)@)
        } else {
            final(widgets).txs == old(widgets).txs
        },
        if due(seconds, old(widgets).time.update_interval) {
            TimeWidget::refreshed(&old(widgets).time, &final(widgets).time, old(data)@)
        } else {
            final(widgets).time == old(widgets).time
        },
        if due(seconds, old(widgets).node.update_interval) {
            NodeWidget::refreshed(&old(widgets).node, &final(widgets).node, old(data)@)
        } else {
            final(widgets).node == old(widgets).node
        },
        if due(seconds, old(widgets).system.update_interval) {
            SystemWidget::refreshed(&old(widgets).system, &final(widgets).system, old(data)@)
        } else {
            final(widgets).system == old(widgets).system
        },
{
    update_if_due(&mut widgets.txs, seconds, data);
    update_if_due(&mut widgets.time, seconds, data);
    update_if_due(&mut widgets.node, seconds, data);
    update_if_due(&mut widgets.system, seconds, data);
}

/// The store together with its consumers.
#[derive(Debug)]
pub struct App {
    pub widgets: Widgets,
    pub data: Data,
}

impl App {
    /// The store is well formed and the consumers can refresh.
    pub open spec fn wf(&self) -> bool {
        &&& self.data.wf()
        &&& self.widgets.txs.ready()
        &&& self.widgets.time.ready()
    }

    /// The user asks for the next disk.
    pub fn handle_tab_key(&mut self)
        ensures
            final(self).data@ == old(self).data@.with_disk_index(old(self).data@.next_disk_index()),
            final(self).widgets == old(self).widgets,
            final(self).wf() == old(self).wf(),
    {
        self.data.select_next_disk();
    }

    /// The user asks for the previous disk.
    pub fn handle_shift_tab_key(&mut self)
        ensures
            final(self).data@ == old(self).data@.with_disk_index(old(self).data@.prev_disk_index()),
            final(self).widgets == old(self).widgets,
            final(self).wf() == old(self).wf(),
    {
        self.data.select_prev_disk();
    }
}

/// An empty store with consumers that have read nothing yet: the two
/// charts refresh at the configured interval, the node table every second,
/// the host panel every two seconds.
pub fn setup_app(opts: &Opts) -> (r: App)
    ensures
        r.wf(),
        r.data@ == crate::store::empty_store(),
        r.widgets.txs.update_interval == opts.interval,
        r.widgets.time.update_interval == opts.interval,
        r.widgets.node.update_interval == (Seconds { numer: 1, denom: 1 }),
        r.widgets.system.update_interval == (Seconds { numer: 2, denom: 1 }),
        r.widgets.txs.series.count() == 0,
        r.widgets.time.series.count() == 0,
        r.widgets.node.nodes@.len() == 0,
        r.widgets.node.stats@.len() == 0,
{
    let data = Data::new();
    let txs = TxsWidget::new(opts.interval);
    let time = TimeWidget::new(opts.interval);
    let node = NodeWidget::new();
    let system = SystemWidget::new();
    App { widgets: Widgets { txs, time, node, system }, data }
}

} // verus!
