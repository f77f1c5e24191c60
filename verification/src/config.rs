//! The configuration that the collectors start from, and what follows from
//! it: the endpoints to connect to and the tasks to run.

use vstd::prelude::*;
use crate::host::clone_texts;
use crate::schedule::Seconds;
use crate::store::ConsensusState;
use crate::store::Data;
use crate::store::Head;
use crate::text::Separator;
use crate::text::decimal;
use crate::text::decimal_spec;
use crate::text::join;
use crate::text::lemma_split_not_empty;
use crate::text::remove_all;
use crate::text::split;
use crate::text::split_spec;
use crate::text::views;
use crate::text::without;

verus! {

/// The options that the program is started with. The alert threshold is in
/// hundredths of a percent, the disk refresh interval in seconds.
#[derive(Debug)]
pub struct Opts {
    pub url: String,
    pub interval: Seconds,
    pub enable_docker_stats: bool,
    pub docker_port: u16,
    pub debug: bool,
    pub disk_mount_points: Vec<String>,
    pub disk_auto_discovery: bool,
    pub disk_alert_threshold: u64,
    pub disk_refresh_interval: u64,
    pub node_id: Option<String>,
}

/// Why a configuration cannot be used.
#[derive(Debug, Clone, Copy, PartialEq, Eq, Structural)]
pub enum ConfigError {
    /// An entry of the endpoint list is not of the form `name@url`.
    InvalidUrl,
}

/// The name and the address of one entry of the endpoint list: what stands
/// before its first `@` and what stands between that and the next. Nothing
/// where the entry has no `@`.
pub open spec fn endpoint_of(entry: Seq<char>) -> Option<(Seq<char>, Seq<char>)> {
    let parts = split_spec(entry, Separator::Char('@'));
    if parts.len() < 2 {
        None
    } else {
        Some((parts[0], parts[1]))
    }
}

/// The endpoints that a comma-separated list names, in order. Nothing where
/// one of its entries has no `@`.
pub open spec fn endpoints_of(url: Seq<char>) -> Option<Seq<(Seq<char>, Seq<char>)>> {
    let entries = split_spec(url, Separator::Char(','));
    if forall|i: int| 0 <= i < entries.len() ==> endpoint_of(#[trigger] entries[i]) is Some {
        Some(Seq::new(entries.len(), |i: int| endpoint_of(entries[i])->0))
    } else {
        None
    }
}

/// The endpoints as pairs of texts, in order.
pub open spec fn endpoint_views(urls: Seq<(String, String)>) -> Seq<(Seq<char>, Seq<char>)> {
    Seq::new(urls.len(), |i: int| (urls[i].0@, urls[i].1@))
}

/// The name and the address of one entry of the endpoint list.
pub fn parse_endpoint(entry: &str) -> (r: Option<(String, String)>)
    ensures
        match r {
            Some(e) => endpoint_of(entry@) == Some((e.0@, e.1@)),
            None => endpoint_of(entry@) is None,
        },
{
    let parts = split(entry, Separator::Char('@'));
    if parts.len() < 2 {
        None
    } else {
        assert(views(parts@)[0] == parts@[0]@);
        assert(views(parts@)[1] == parts@[1]@);
        Some((parts[0].clone(), parts[1].clone()))
    }
}

/// The endpoints that a comma-separated list of `name@url` entries names.
pub fn parse_endpoints(url: &str) -> (r: Result<Vec<(String, String)>, ConfigError>)
    ensures
        match r {
            Ok(urls) => endpoints_of(url@) == Some(endpoint_views(urls@)),
            Err(e) => e == ConfigError::InvalidUrl && endpoints_of(url@) is None,
        },
        r is Ok ==> r->Ok_0@.len() > 0,
{
    let entries = split(url, Separator::Char(','));
    proof {
        lemma_split_not_empty(url@, Separator::Char(','));
    }
    let ghost texts = views(entries@);
    let mut urls: Vec<(String, String)> = Vec::new();
    let mut i: usize = 0;
    while i < entries.len()
        invariant
            i <= entries.len(),
            texts == views(entries@),
            texts == split_spec(url@, Separator::Char(',')),
            urls@.len() == i,
            forall|k: int|
                0 <= k < i ==> endpoint_of(#[trigger] texts[k]) == Some((urls@[k].0@, urls@[k].1@)),
        decreases entries.len() - i,
    {
        assert(texts[i as int] == entries@[i as int]@);
        match parse_endpoint(entries[i].as_str()) {
            Some(e) => urls.push(e),
            None => {
                assert(!(endpoint_of(texts[i as int]) is Some));
                return Err(ConfigError::InvalidUrl);
            },
        }
        i += 1;
    }
    assert(endpoint_views(urls@) =~= Seq::new(texts.len(), |i: int| endpoint_of(texts[i])->0));
    Ok(urls)
}

/// The address of a node without its scheme: the text without every
/// "ws://".
pub open spec fn host_of(url: Seq<char>) -> Seq<char> {
    without(url, "ws://"@)
}

/// The address of the container runtime on a node's machine: the node's
/// host up to its first colon, with the runtime's port.
pub open spec fn docker_host_of(url: Seq<char>, port: u16) -> Seq<char> {
    "http://"@ + split_spec(host_of(url), Separator::Char(':'))[0] + ":"@ + decimal_spec(
        port as nat,
    )
}

/// The address of a container's statistics stream.
pub open spec fn stats_uri_of(host: Seq<char>, name: Seq<char>) -> Seq<char> {
    host + "/containers/"@ + name + "/stats"@
}

/// The address of a node without its scheme.
pub fn node_host(url: &str) -> (r: String)
    ensures
        r@ == host_of(url@),
{
    remove_all(url, "ws://")
}

/// The address of the container runtime on a node's machine.
pub fn docker_host(url: &str, port: u16) -> (r: String)
    ensures
        r@ == docker_host_of(url@, port),
{
    let host = node_host(url);
    let ip_port = split(host.as_str(), Separator::Char(':'));
    proof {
        lemma_split_not_empty(host@, Separator::Char(':'));
    }
    assert(views(ip_port@)[0] == ip_port@[0]@);
    let a = join("http://", ip_port[0].as_str());
    let b = join(a.as_str(), ":");
    let digits = decimal(port as u128);
    join(b.as_str(), digits.as_str())
}

/// The address of the statistics stream of the container `name` at the
/// runtime `host`.
pub fn stats_uri(host: &str, name: &str) -> (r: String)
    ensures
        r@ == stats_uri_of(host@, name@),
{
    let a = join(host, "/containers/");
    let b = join(a.as_str(), name);
    join(b.as_str(), "/stats")
}

/// What a node reports of its consensus engine in one poll.
#[derive(Debug, Clone, Copy)]
pub struct ConsensusPoll {
    pub current_number: u64,
    pub epoch: u64,
    pub view: u64,
    pub committed: u64,
    pub locked: u64,
    pub qc: u64,
    pub validator: bool,
}

/// The consensus state of the node `name` at the address `url`, from one
/// poll of it.
pub fn consensus_state(name: &str, url: &str, poll: ConsensusPoll) -> (r: ConsensusState)
    ensures
        r.name@ == name@,
        r.host@ == host_of(url@),
        r.current_number == poll.current_number,
        r.epoch == poll.epoch,
        r.view == poll.view,
        r.committed == poll.committed,
        r.locked == poll.locked,
        r.qc == poll.qc,
        r.validator == poll.validator,
{
    ConsensusState {
        name: name.to_owned(),
        host: node_host(url),
        current_number: poll.current_number,
        epoch: poll.epoch,
        view: poll.view,
        committed: poll.committed,
        locked: poll.locked,
        qc: poll.qc,
        validator: poll.validator,
    }
}

/// One task of the collection: what it collects and from where.
#[derive(Debug)]
pub enum Task {
    /// Follow the new block heads of the node at `url`.
    Heads { url: String },
    /// Poll the consensus state of the node `name` at `url`.
    NodeState { name: String, url: String },
    /// Read the statistics stream of the container `name` at `host`.
    NodeStats { name: String, host: String },
    /// Fetch the reward detail of the node `node_id`.
    NodeDetail { node_id: String },
    /// Read the host's counters.
    SystemStats,
}

/// A `Task` as a mathematical value.
pub enum TaskView {
    Heads { url: Seq<char> },
    NodeState { name: Seq<char>, url: Seq<char> },
    NodeStats { name: Seq<char>, host: Seq<char> },
    NodeDetail { node_id: Seq<char> },
    SystemStats,
}

impl View for Task {
    type V = TaskView;

    open spec fn view(&self) -> TaskView {
        match self {
            Task::Heads { url } => TaskView::Heads { url: url@ },
            Task::NodeState { name, url } => TaskView::NodeState { name: name@, url: url@ },
            Task::NodeStats { name, host } => TaskView::NodeStats { name: name@, host: host@ },
            Task::NodeDetail { node_id } => TaskView::NodeDetail { node_id: node_id@ },
            Task::SystemStats => TaskView::SystemStats,
        }
    }
}

/// The tasks as mathematical values, in order.
pub open spec fn task_views(tasks: Seq<Task>) -> Seq<TaskView> {
    Seq::new(tasks.len(), |i: int| tasks[i]@)
}

/// The tasks for the nodes: for each node its consensus poll and, where
/// containers are monitored, its statistics stream.
pub open spec fn node_tasks(
    urls: Seq<(Seq<char>, Seq<char>)>,
    enable_docker_stats: bool,
    docker_port: u16,
) -> Seq<TaskView>
    decreases urls.len(),
{
    if urls.len() == 0 {
        Seq::empty()
    } else {
        let before = node_tasks(urls.drop_last(), enable_docker_stats, docker_port);
        let node = urls.last();
        let state = TaskView::NodeState { name: node.0, url: node.1 };
        if enable_docker_stats {
            before.push(state).push(
                TaskView::NodeStats { name: node.0, host: docker_host_of(node.1, docker_port) },
            )
        } else {
            before.push(state)
        }
    }
}

/// What the collectors are configured with.
#[derive(Debug)]
pub struct Collector {
    pub urls: Vec<(String, String)>,
    pub enable_docker_stats: bool,
    pub docker_port: u16,
    pub disk_mount_points: Vec<String>,
    pub disk_auto_discovery: bool,
    pub disk_alert_threshold: u64,
    pub disk_refresh_interval: u64,
    pub node_id: Option<String>,
}

impl Collector {
    /// There is an endpoint to follow the block heads of.
    pub open spec fn wf(&self) -> bool {
        self.urls@.len() > 0
    }

    /// All tasks of the collection: the head subscription at the first
    /// endpoint, the tasks for the nodes, the reward detail where a node is
    /// selected for it, and the host's counters.
    pub open spec fn tasks(&self) -> Seq<TaskView> {
        let first = seq![TaskView::Heads { url: self.urls@[0].1@ }] + node_tasks(
            endpoint_views(self.urls@),
            self.enable_docker_stats,
            self.docker_port,
        );
        let second = match self.node_id {
            Some(node_id) => first.push(TaskView::NodeDetail { node_id: node_id@ }),
            None => first,
        };
        second.push(TaskView::SystemStats)
    }

    /// The collectors' configuration from the program's options. Fails
    /// where the endpoint list has an entry without `@`.
    pub fn new(opts: &Opts) -> (r: Result<Collector, ConfigError>)
        ensures
            match r {
                Ok(c) => {
                    &&& c.wf()
                    &&& endpoints_of(opts.url@) == Some(endpoint_views(c.urls@))
                    &&& c.enable_docker_stats == opts.enable_docker_stats
                    &&& c.docker_port == opts.docker_port
                    &&& c.disk_mount_points@ == opts.disk_mount_points@
                    &&& c.disk_auto_discovery == opts.disk_auto_discovery
                    &&& c.disk_alert_threshold == opts.disk_alert_threshold
                    &&& c.disk_refresh_interval == opts.disk_refresh_interval
                    &&& c.node_id == opts.node_id
                },
                Err(e) => e == ConfigError::InvalidUrl && endpoints_of(opts.url@) is None,
            },
    {
        let urls = match parse_endpoints(opts.url.as_str()) {
            Ok(urls) => urls,
            Err(e) => {
                return Err(e);
            },
        };
        let node_id = match &opts.node_id {
            Some(id) => Some(id.clone()),
            None => None,
        };
        Ok(
            Collector {
                urls,
                enable_docker_stats: opts.enable_docker_stats,
                docker_port: opts.docker_port,
                disk_mount_points: clone_texts(&opts.disk_mount_points),
                disk_auto_discovery: opts.disk_auto_discovery,
                disk_alert_threshold: opts.disk_alert_threshold,
                disk_refresh_interval: opts.disk_refresh_interval,
                node_id,
            },
        )
    }

    /// Runs the collection over the heads that the subscription delivers:
    /// says which tasks are started, and records the heads in the store,
    /// first to last.
    pub fn run(&self, data: &mut Data, heads: &Vec<Head>) -> (r: Vec<Task>)
        requires
            self.wf(),
            old(data)@.accepts_all(heads@),
        ensures
            task_views(r@) == self.tasks(),
            final(data)@ == old(data)@.record_heads(heads@),
            final(data).wf() == old(data).wf(),
    {
        let tasks = self.plan();
        data.record_heads(heads);
        tasks
    }

    /// The tasks to start, in the order in which they are started.
    pub fn plan(&self) -> (r: Vec<Task>)
        requires
            self.wf(),
        ensures
            task_views(r@) == self.tasks(),
    {
        let mut tasks: Vec<Task> = Vec::new();
        tasks.push(Task::Heads { url: self.urls[0].1.clone() });
        let ghost nodes = endpoint_views(self.urls@);
        let mut i: usize = 0;
        assert(nodes.take(0) =~= Seq::<(Seq<char>, Seq<char>)>::empty());
        assert(task_views(tasks@) =~= seq![TaskView::Heads { url: self.urls@[0].1@ }] + node_tasks(
            nodes.take(0),
            self.enable_docker_stats,
            self.docker_port,
        ));
        while i < self.urls.len()
            invariant
                i <= self.urls.len(),
                self.urls@.len() > 0,
                nodes == endpoint_views(self.urls@),
                task_views(tasks@) == seq![TaskView::Heads { url: self.urls@[0].1@ }] + node_tasks(
                    nodes.take(i as int),
                    self.enable_docker_stats,
                    self.docker_port,
                ),
            decreases self.urls.len() - i,
        {
            let ghost before = task_views(tasks@);
            proof {
                assert(nodes.take(i + 1).drop_last() =~= nodes.take(i as int));
                assert(nodes.take(i + 1).last() == (self.urls@[i as int].0@, self.urls@[i as int].1@));
            }
            let name = &self.urls[i].0;
            let url = &self.urls[i].1;
            let ghost head = seq![TaskView::Heads { url: self.urls@[0].1@ }];
            let ghost done = node_tasks(
                nodes.take(i as int),
                self.enable_docker_stats,
                self.docker_port,
            );
            let ghost state = TaskView::NodeState { name: name@, url: url@ };
            tasks.push(Task::NodeState { name: name.clone(), url: url.clone() });
            assert(task_views(tasks@) =~= before.push(state));
            assert(before.push(state) =~= head + done.push(state));
            if self.enable_docker_stats {
                let host = docker_host(url.as_str(), self.docker_port);
                let ghost stream = TaskView::NodeStats { name: name@, host: host@ };
                tasks.push(Task::NodeStats { name: name.clone(), host });
                assert(task_views(tasks@) =~= before.push(state).push(stream));
                assert(before.push(state).push(stream) =~= head + done.push(state).push(stream));
            }
            i += 1;
        }
        assert(nodes.take(self.urls.len() as int) =~= nodes);
        let ghost first = task_views(tasks@);
        match &self.node_id {
            Some(node_id) => {
                tasks.push(Task::NodeDetail { node_id: node_id.clone() });
                assert(task_views(tasks@) =~= first.push(TaskView::NodeDetail { node_id: node_id@ }));
            },
            None => {},
        }
        let ghost second = task_views(tasks@);
        tasks.push(Task::SystemStats);
        assert(task_views(tasks@) =~= second.push(TaskView::SystemStats));
        tasks
    }
}

} // verus!
