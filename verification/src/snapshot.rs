//! What the application shows: flows, processes and connections joined with each other.
use crate::curve;
use crate::curve::{CurveView, TrafficCurveSnapshot};
use crate::duration;
use crate::duration::Duration;
use crate::model;
use crate::model::{
    ConnectionSnapshot, FlowSnapshot, ProcessIconState, ProcessKey, ProcessSnapshot,
    ProcessTrafficCounters, SystemSnapshot, SystemView,
};
use crate::ordered;
use crate::ordered::SortedMap;
use crate::text;
use vstd::prelude::*;

verus! {

/// Whether the network is captured.
#[derive(Debug, Clone, Copy, PartialEq, Eq, Structural)]
pub enum CaptureStatus {
    Available,
    Restricted(CaptureRestriction),
}

/// Why the application runs without capturing the network.
#[derive(Debug, Clone, Copy, PartialEq, Eq, Structural)]
pub enum CaptureRestriction {
    PermissionRequired,
    SessionAlreadyExists,
}

/// Rate of the whole network.
#[derive(Debug, Clone, Copy, PartialEq, Eq, Structural)]
pub struct NetworkRateSnapshot {
    pub sampled_at_unix_nanos: u64,
    pub interval_nanos: u64,
    pub send_bytes_per_second: u64,
    pub receive_bytes_per_second: u64,
}

/// A process joined with its traffic and the number of its connections.
#[derive(Debug, PartialEq, Eq)]
pub struct ProcessTrafficSnapshot {
    pub pid: u32,
    pub process_key: Option<ProcessKey>,
    pub name: Option<String>,
    pub image_path: Option<String>,
    pub icon: ProcessIconState,
    pub send_bytes_total: u64,
    pub receive_bytes_total: u64,
    pub send_bytes_per_second: u64,
    pub receive_bytes_per_second: u64,
    pub connection_count: usize,
    pub last_timestamp_unix_nanos: u64,
}

impl Clone for ProcessTrafficSnapshot {
    fn clone(&self) -> (copy: Self)
        ensures
            copy == *self,
    {
        ProcessTrafficSnapshot {
            pid: self.pid,
            process_key: self.process_key,
            name: text::copy_optional(&self.name),
            image_path: text::copy_optional(&self.image_path),
            icon: self.icon.clone(),
            send_bytes_total: self.send_bytes_total,
            receive_bytes_total: self.receive_bytes_total,
            send_bytes_per_second: self.send_bytes_per_second,
            receive_bytes_per_second: self.receive_bytes_per_second,
            connection_count: self.connection_count,
            last_timestamp_unix_nanos: self.last_timestamp_unix_nanos,
        }
    }
}

/// A connection joined with its process.
#[derive(Debug, Clone, PartialEq, Eq)]
pub struct ConnectionDetailSnapshot {
    pub connection: ConnectionSnapshot,
    pub process_name: Option<String>,
    pub process_image_path: Option<String>,
    pub owner_status: ConnectionOwnerStatus,
}

/// How far the owner of a connection is known.
#[derive(Debug, Clone, Copy, PartialEq, Eq, Structural)]
pub enum ConnectionOwnerStatus {
    Matched,
    NameOnly,
    ProcessExited,
}

/// The counts of a running application.
#[derive(Debug, Clone, Copy, PartialEq, Eq, Structural)]
pub struct RuntimeCounters {
    pub received: u64,
    pub accepted: u64,
    pub dropped_full: u64,
    pub dropped_stopped: u64,
    pub processed: u64,
    pub queue_depth: usize,
    pub queue_peak: usize,
}

/// Bounds of a running application.
#[derive(Debug, Clone, Copy, PartialEq, Eq, Structural)]
pub struct RuntimeConfig {
    pub queue_capacity: usize,
    pub snapshot_interval: Duration,
    pub flow_idle_timeout: Duration,
    pub maximum_flows: usize,
    pub curve_bucket_width: Duration,
    pub curve_maximum_buckets: usize,
}

impl RuntimeConfig {
    /// The usual bounds, with a queue of the given capacity.
    pub fn bounded(queue_capacity: usize) -> (config: RuntimeConfig)
        ensures
            config.queue_capacity == queue_capacity,
            config.snapshot_interval@ == 100_000_000,
            config.flow_idle_timeout@ == 300_000_000_000,
            config.maximum_flows == 100_000,
            config.curve_bucket_width@ == 1_000_000_000,
            config.curve_maximum_buckets == 300,
    {
        RuntimeConfig {
            queue_capacity,
            snapshot_interval: Duration::from_millis(100),
            flow_idle_timeout: Duration::from_secs(300),
            maximum_flows: 100_000,
            curve_bucket_width: Duration::from_secs(1),
            curve_maximum_buckets: 300,
        }
    }
}

/// What the application shows at one time.
#[derive(Debug, Clone, PartialEq, Eq)]
pub struct ApplicationSnapshot {
    pub running: bool,
    pub capture_status: CaptureStatus,
    pub events_received: u64,
    pub events_accepted: u64,
    pub events_dropped_full: u64,
    pub events_dropped_stopped: u64,
    pub events_processed: u64,
    pub queue_capacity: usize,
    pub queue_depth: usize,
    pub queue_peak: usize,
    pub snapshot_interval_millis: u128,
    pub flow_idle_timeout_millis: u128,
    pub maximum_flows: usize,
    pub flows: Vec<FlowSnapshot>,
    pub curve: TrafficCurveSnapshot,
    pub recent_60_seconds: TrafficCurveSnapshot,
    pub network_rate: NetworkRateSnapshot,
    pub process_traffic: Vec<ProcessTrafficSnapshot>,
    pub connection_details: Vec<ConnectionDetailSnapshot>,
    pub system: Option<SystemSnapshot>,
}

/// The last process of a list that has a process number.
pub open spec fn last_process(processes: Seq<ProcessSnapshot>, pid: u32) -> Option<ProcessSnapshot>
    decreases processes.len(),
{
    if processes.len() == 0 {
        None
    } else if processes.last().key.pid == pid {
        Some(processes.last())
    } else {
        last_process(processes.drop_last(), pid)
    }
}

/// The last process of a list that has an identity.
pub open spec fn process_of(processes: Seq<ProcessSnapshot>, key: ProcessKey) -> Option<
    ProcessSnapshot,
>
    decreases processes.len(),
{
    if processes.len() == 0 {
        None
    } else if processes.last().key == key {
        Some(processes.last())
    } else {
        process_of(processes.drop_last(), key)
    }
}

/// The process at the place that an index gives a key.
pub open spec fn placed_at<K>(processes: Seq<ProcessSnapshot>, index: Map<K, usize>, key: K) -> Option<
    ProcessSnapshot,
> {
    if index.dom().contains(key) {
        Some(processes[index[key] as int])
    } else {
        None
    }
}

/// The places of the last processes with each process number.
fn index_by_pid(processes: &Vec<ProcessSnapshot>) -> (index: SortedMap<u32, usize>)
    ensures
        index.well_formed(),
        forall|pid: u32|
            #![trigger placed_at(processes@, index@, pid)]
            last_process(processes@, pid) == placed_at(processes@, index@, pid),
        forall|pid: u32| #[trigger]
            index@.dom().contains(pid) ==> index@[pid] < processes@.len(),
{
    let mut index: SortedMap<u32, usize> = SortedMap::new();
    for i in 0..processes.len()
        invariant
            index.well_formed(),
            forall|pid: u32|
                #![trigger placed_at(processes@, index@, pid)]
                last_process(processes@.take(i as int), pid) == placed_at(processes@, index@, pid),
            forall|pid: u32| #[trigger] index@.dom().contains(pid) ==> index@[pid] < i,
    {
        let ghost before = index@;
        index.insert(processes[i].key.pid, i);
        proof {
            let longer = processes@.take(i + 1);
            assert(longer.drop_last() =~= processes@.take(i as int));
            assert forall|pid: u32|
                #![trigger placed_at(processes@, index@, pid)]
                last_process(longer, pid) == placed_at(processes@, index@, pid) by {
                assert(placed_at(processes@, before, pid) == last_process(processes@.take(i as int), pid));
            }
        }
    }
    assert(processes@.take(processes@.len() as int) =~= processes@);
    index
}

/// The places of the last processes with each identity.
pub(crate) fn index_by_key(processes: &Vec<ProcessSnapshot>) -> (index: SortedMap<ProcessKey, usize>)
    ensures
        index.well_formed(),
        forall|key: ProcessKey|
            #![trigger placed_at(processes@, index@, key)]
            process_of(processes@, key) == placed_at(processes@, index@, key),
        forall|key: ProcessKey| #[trigger]
            index@.dom().contains(key) ==> index@[key] < processes@.len(),
{
    let mut index: SortedMap<ProcessKey, usize> = SortedMap::new();
    for i in 0..processes.len()
        invariant
            index.well_formed(),
            forall|key: ProcessKey|
                #![trigger placed_at(processes@, index@, key)]
                process_of(processes@.take(i as int), key) == placed_at(processes@, index@, key),
            forall|key: ProcessKey| #[trigger] index@.dom().contains(key) ==> index@[key] < i,
    {
        let ghost before = index@;
        index.insert(processes[i].key, i);
        proof {
            let longer = processes@.take(i + 1);
            assert(longer.drop_last() =~= processes@.take(i as int));
            assert forall|key: ProcessKey|
                #![trigger placed_at(processes@, index@, key)]
                process_of(longer, key) == placed_at(processes@, index@, key) by {
                assert(process_of(processes@.take(i as int), key) == placed_at(processes@, before, key));
            }
        }
    }
    assert(processes@.take(processes@.len() as int) =~= processes@);
    index
}

/// The identity of a flow's process: that of the process with the flow's number, if it was running
/// all the time that the flow was seen and the system was looked at afterwards.
pub open spec fn attributed_key(flow: FlowSnapshot, system: SystemView) -> Option<ProcessKey> {
    match last_process(system.processes, flow.key.pid) {
        Some(process) => if process.key.started_at_unix_nanos <= flow.first_timestamp_unix_nanos
            && system.captured_at >= flow.last_timestamp_unix_nanos {
            Some(process.key)
        } else {
            None
        },
        None => None,
    }
}

/// Flows with the identities of their processes. Without a system snapshot they stay as they are.
pub open spec fn attributed(flows: Seq<FlowSnapshot>, system: Option<SystemView>) -> Seq<
    FlowSnapshot,
> {
    match system {
        Some(system) => flows.map_values(
            |flow: FlowSnapshot|
                FlowSnapshot { process_key: attributed_key(flow, system), ..flow },
        ),
        None => flows,
    }
}

/// The view of a system snapshot that may be there.
pub open spec fn system_view(system: Option<SystemSnapshot>) -> Option<SystemView> {
    match system {
        Some(system) => Some(system@),
        None => None,
    }
}

/// Flows with the identities of their processes.
pub fn attribute_flows(flows: &[FlowSnapshot], system: &Option<SystemSnapshot>) -> (out: Vec<
    FlowSnapshot,
>)
    ensures
        out@ == attributed(flows@, system_view(*system)),
{
    let mut out: Vec<FlowSnapshot> = Vec::new();
    match system {
        Some(system) => {
            let index = index_by_pid(&system.processes);
            for i in 0..flows.len()
                invariant
                    out@ == attributed(flows@, Some(system@)).take(i as int),
                    index.well_formed(),
                    forall|pid: u32|
                        #![trigger placed_at(system.processes@, index@, pid)]
                        last_process(system.processes@, pid) == placed_at(system.processes@, index@, pid),
                    forall|pid: u32| #[trigger]
                        index@.dom().contains(pid) ==> index@[pid] < system.processes@.len(),
            {
                let mut flow: FlowSnapshot = flows[i];
                assert(last_process(system@.processes, flow.key.pid) == placed_at(
                    system.processes@,
                    index@,
                    flow.key.pid,
                ));
                flow.process_key =
                match index.get(&flow.key.pid) {
                    Some(at) => {
                        let key = system.processes[*at].key;
                        if key.started_at_unix_nanos <= flow.first_timestamp_unix_nanos
                            && system.captured_at_unix_nanos >= flow.last_timestamp_unix_nanos {
                            Some(key)
                        } else {
                            None
                        }
                    },
                    None => None,
                };
                out.push(flow);
            }
        },
        None => {
            for i in 0..flows.len()
                invariant
                    out@ == flows@.take(i as int),
            {
                out.push(flows[i]);
            }
        },
    }
    out
}

/// The name that the connections or the list of processes give a process number: that of the last
/// connection with a name, or else the last in the list.
pub open spec fn owner_name(system: SystemView, pid: u32) -> Option<String> {
    match last_owner(system.connections, pid) {
        Some(name) => Some(name),
        None => last_name(system.names, pid),
    }
}

/// The last name that a list gives a process number.
pub open spec fn last_name(names: Seq<(u32, String)>, pid: u32) -> Option<String>
    decreases names.len(),
{
    if names.len() == 0 {
        None
    } else if names.last().0 == pid {
        Some(names.last().1)
    } else {
        last_name(names.drop_last(), pid)
    }
}

/// The name of the last connection of a process number that has one.
pub open spec fn last_owner(connections: Seq<ConnectionSnapshot>, pid: u32) -> Option<String>
    decreases connections.len(),
{
    if connections.len() == 0 {
        None
    } else if connections.last().pid == pid && connections.last().owner_name is Some {
        connections.last().owner_name
    } else {
        last_owner(connections.drop_last(), pid)
    }
}

/// How many connections a process has: those of its identity where it is known, or else those of
/// its number.
pub open spec fn connections_of(
    connections: Seq<ConnectionSnapshot>,
    pid: u32,
    key: Option<ProcessKey>,
) -> nat
    decreases connections.len(),
{
    if connections.len() == 0 {
        0
    } else {
        connections_of(connections.drop_last(), pid, key) + if connections.last().pid == pid && (
        key is None || connections.last().process_key == key) {
            1nat
        } else {
            0nat
        }
    }
}

/// The process of a counter, if it was running at the counter's last event and the system was
/// looked at afterwards.
pub open spec fn matched_process(counter: ProcessTrafficCounters, system: SystemView) -> Option<
    ProcessKey,
> {
    match last_process(system.processes, counter.pid) {
        Some(process) => if process.key.started_at_unix_nanos <= counter.last_timestamp_unix_nanos
            && system.captured_at >= counter.last_timestamp_unix_nanos {
            Some(process.key)
        } else {
            None
        },
        None => None,
    }
}

/// A counter joined with its process.
pub open spec fn traffic_of(
    counter: ProcessTrafficCounters,
    system: Option<SystemView>,
) -> ProcessTrafficSnapshot {
    let hint = match system {
        Some(system) => last_process(system.processes, counter.pid),
        None => None,
    };
    let key = match system {
        Some(system) => matched_process(counter, system),
        None => None,
    };
    ProcessTrafficSnapshot {
        pid: counter.pid,
        process_key: key,
        name: match hint {
            Some(process) => Some(process.name),
            None => match system {
                Some(system) => owner_name(system, counter.pid),
                None => None,
            },
        },
        image_path: match hint {
            Some(process) => process.image_path,
            None => None,
        },
        icon: match hint {
            Some(process) => process.icon,
            None => ProcessIconState::NotLoaded,
        },
        send_bytes_total: counter.send_bytes_total,
        receive_bytes_total: counter.receive_bytes_total,
        send_bytes_per_second: counter.send_bytes_per_second,
        receive_bytes_per_second: counter.receive_bytes_per_second,
        connection_count: match system {
            Some(system) => connections_of(system.connections, counter.pid, key) as usize,
            None => 0,
        },
        last_timestamp_unix_nanos: counter.last_timestamp_unix_nanos,
    }
}

/// Counters joined with their processes.
pub open spec fn derived_traffic(
    counters: Seq<ProcessTrafficCounters>,
    system: Option<SystemView>,
) -> Seq<ProcessTrafficSnapshot> {
    counters.map_values(|counter: ProcessTrafficCounters| traffic_of(counter, system))
}

fn find_owner(system: &SystemSnapshot, pid: u32) -> (name: Option<String>)
    ensures
        name == owner_name(system@, pid),
{
    let mut i: usize = system.connections.len();
    assert(system.connections@.take(i as int) =~= system.connections@);
    while i > 0
        invariant
            i <= system.connections@.len(),
            last_owner(system.connections@, pid) == last_owner(
                system.connections@.take(i as int),
                pid,
            ),
        decreases i,
    {
        let ghost shown = system.connections@.take(i as int);
        assert(shown.drop_last() =~= system.connections@.take(i - 1));
        i -= 1;
        if system.connections[i].pid == pid {
            if let Some(name) = &system.connections[i].owner_name {
                return Some(name.clone());
            }
        }
    }
    let mut j: usize = system.process_names.len();
    assert(system.process_names@.take(j as int) =~= system.process_names@);
    while j > 0
        invariant
            j <= system.process_names@.len(),
            last_owner(system.connections@, pid) is None,
            last_name(system.process_names@, pid) == last_name(
                system.process_names@.take(j as int),
                pid,
            ),
        decreases j,
    {
        let ghost shown = system.process_names@.take(j as int);
        assert(shown.drop_last() =~= system.process_names@.take(j - 1));
        j -= 1;
        if system.process_names[j].0 == pid {
            return Some(system.process_names[j].1.clone());
        }
    }
    None
}

fn count_connections(
    connections: &Vec<ConnectionSnapshot>,
    pid: u32,
    key: Option<ProcessKey>,
) -> (n:
    usize)
    ensures
        n == connections_of(connections@, pid, key),
{
    let mut n: usize = 0;
    for i in 0..connections.len()
        invariant
            n == connections_of(connections@.take(i as int), pid, key),
            n <= i,
    {
        proof {
            assert(connections@.take(i + 1).drop_last() =~= connections@.take(i as int));
        }
        let connection = &connections[i];
        if connection.pid == pid {
            let counts = match key {
                None => true,
                Some(wanted) => match connection.process_key {
                    Some(owner) => owner == wanted,
                    None => false,
                },
            };
            if counts {
                n += 1;
            }
        }
    }
    assert(connections@.take(connections@.len() as int) =~= connections@);
    n
}

/// Counters joined with their processes.
pub fn derive_process_traffic(
    counters: &[ProcessTrafficCounters],
    system: &Option<SystemSnapshot>,
) -> (out: Vec<ProcessTrafficSnapshot>)
    ensures
        out@ == derived_traffic(counters@, system_view(*system)),
{
    let mut out: Vec<ProcessTrafficSnapshot> = Vec::new();
    let index = match system {
        Some(system) => index_by_pid(&system.processes),
        None => SortedMap::new(),
    };
    for i in 0..counters.len()
        invariant
            out@ == derived_traffic(counters@, system_view(*system)).take(i as int),
            index.well_formed(),
            system matches Some(known) ==> forall|pid: u32|
                #![trigger placed_at(known.processes@, index@, pid)]
                last_process(known.processes@, pid) == placed_at(known.processes@, index@, pid),
            system matches Some(known) ==> forall|pid: u32| #[trigger]
                index@.dom().contains(pid) ==> index@[pid] < known.processes@.len(),
    {
        let counter: ProcessTrafficCounters = counters[i];
        let row = match system {
            Some(system) => {
                assert(last_process(system@.processes, counter.pid) == placed_at(
                    system.processes@,
                    index@,
                    counter.pid,
                ));
                match index.get(&counter.pid) {
                    Some(at) => {
                        let process = &system.processes[*at];
                        let key = if process.key.started_at_unix_nanos
                            <= counter.last_timestamp_unix_nanos && system.captured_at_unix_nanos
                            >= counter.last_timestamp_unix_nanos {
                            Some(process.key)
                        } else {
                            None
                        };
                        traffic_row(
                            &counter,
                            key,
                            Some(process.name.clone()),
                            text::copy_optional(&process.image_path),
                            process.icon.clone(),
                            count_connections(&system.connections, counter.pid, key),
                        )
                    },
                    None => traffic_row(
                        &counter,
                        None,
                        find_owner(system, counter.pid),
                        None,
                        ProcessIconState::NotLoaded,
                        count_connections(&system.connections, counter.pid, None),
                    ),
                }
            },
            None => traffic_row(&counter, None, None, None, ProcessIconState::NotLoaded, 0),
        };
        assert(row == traffic_of(counter, system_view(*system)));
        out.push(row);
    }
    out
}

fn traffic_row(
    counter: &ProcessTrafficCounters,
    process_key: Option<ProcessKey>,
    name: Option<String>,
    image_path: Option<String>,
    icon: ProcessIconState,
    connection_count: usize,
) -> (row: ProcessTrafficSnapshot)
    ensures
        row == (ProcessTrafficSnapshot {
            pid: counter.pid,
            process_key,
            name,
            image_path,
            icon,
            send_bytes_total: counter.send_bytes_total,
            receive_bytes_total: counter.receive_bytes_total,
            send_bytes_per_second: counter.send_bytes_per_second,
            receive_bytes_per_second: counter.receive_bytes_per_second,
            connection_count,
            last_timestamp_unix_nanos: counter.last_timestamp_unix_nanos,
        }),
{
    ProcessTrafficSnapshot {
        pid: counter.pid,
        process_key,
        name,
        image_path,
        icon,
        send_bytes_total: counter.send_bytes_total,
        receive_bytes_total: counter.receive_bytes_total,
        send_bytes_per_second: counter.send_bytes_per_second,
        receive_bytes_per_second: counter.receive_bytes_per_second,
        connection_count,
        last_timestamp_unix_nanos: counter.last_timestamp_unix_nanos,
    }
}

/// Rate of a process in both directions.
pub open spec fn rate_of(row: ProcessTrafficSnapshot) -> u64 {
    model::saturated(row.send_bytes_per_second + row.receive_bytes_per_second)
}

/// Traffic of a process in both directions so far.
pub open spec fn total_of(row: ProcessTrafficSnapshot) -> u64 {
    model::saturated(row.send_bytes_total + row.receive_bytes_total)
}

/// The key by which processes are ranked: the highest rate first, then the most traffic, then the
/// lowest number.
pub open spec fn rank_key(row: ProcessTrafficSnapshot) -> ((u64, u64), u32) {
    (((u64::MAX - rate_of(row)) as u64, (u64::MAX - total_of(row)) as u64), row.pid)
}

/// The keys of rows.
pub open spec fn rank_keys(rows: Seq<ProcessTrafficSnapshot>) -> Seq<((u64, u64), u32)> {
    rows.map_values(|row: ProcessTrafficSnapshot| rank_key(row))
}

/// Rows in the order of their rank; rows of one rank stay in the order that they are in.
pub open spec fn ranked(rows: Seq<ProcessTrafficSnapshot>) -> Seq<ProcessTrafficSnapshot> {
    ordered::places_in_order::<((u64, u64), u32)>(rank_keys(rows)).map_values(
        |at: usize| rows[at as int],
    )
}

/// Rows in the order of their rank.
pub fn rank(rows: &Vec<ProcessTrafficSnapshot>) -> (out: Vec<ProcessTrafficSnapshot>)
    ensures
        out@ == ranked(rows@),
        out@.len() == rows@.len(),
{
    let mut keys: Vec<((u64, u64), u32)> = Vec::new();
    for i in 0..rows.len()
        invariant
            keys@ == rank_keys(rows@).take(i as int),
    {
        let row = &rows[i];
        let rate: u64 = row.send_bytes_per_second.saturating_add(row.receive_bytes_per_second);
        let total: u64 = row.send_bytes_total.saturating_add(row.receive_bytes_total);
        keys.push(((u64::MAX - rate, u64::MAX - total), row.pid));
    }
    let places = ordered::sort_places(keys.as_slice());
    proof {
        assert(rank_keys(rows@).take(rows@.len() as int) =~= rank_keys(rows@));
        assert(ordered::key_views(keys@) =~= rank_keys(rows@));
    }
    let mut out: Vec<ProcessTrafficSnapshot> = Vec::new();
    for i in 0..places.len()
        invariant
            forall|j: int| 0 <= j < places@.len() ==> (#[trigger] places@[j]) < rows@.len(),
            out@ == places@.map_values(|at: usize| rows@[at as int]).take(i as int),
    {
        out.push(rows[places[i]].clone());
    }
    out
}

/// The sum of what processes send in a second.
pub open spec fn sending_rate(rows: Seq<ProcessTrafficSnapshot>) -> int
    decreases rows.len(),
{
    if rows.len() == 0 {
        0
    } else {
        sending_rate(rows.drop_last()) + rows.last().send_bytes_per_second
    }
}

/// The sum of what processes receive in a second.
pub open spec fn receiving_rate(rows: Seq<ProcessTrafficSnapshot>) -> int
    decreases rows.len(),
{
    if rows.len() == 0 {
        0
    } else {
        receiving_rate(rows.drop_last()) + rows.last().receive_bytes_per_second
    }
}

/// The rate of the whole network.
pub fn network_rate(
    rows: &Vec<ProcessTrafficSnapshot>,
    sampled_at_unix_nanos: u64,
    interval: u64,
) -> (rate:
    NetworkRateSnapshot)
    ensures
        rate == (NetworkRateSnapshot {
            sampled_at_unix_nanos,
            interval_nanos: interval,
            send_bytes_per_second: model::saturated(sending_rate(rows@)),
            receive_bytes_per_second: model::saturated(receiving_rate(rows@)),
        }),
{
    let mut send: u64 = 0;
    let mut receive: u64 = 0;
    for i in 0..rows.len()
        invariant
            send == model::saturated(sending_rate(rows@.take(i as int))),
            receive == model::saturated(receiving_rate(rows@.take(i as int))),
            sending_rate(rows@.take(i as int)) >= 0,
            receiving_rate(rows@.take(i as int)) >= 0,
    {
        assert(rows@.take(i + 1).drop_last() =~= rows@.take(i as int));
        send = send.saturating_add(rows[i].send_bytes_per_second);
        receive = receive.saturating_add(rows[i].receive_bytes_per_second);
    }
    assert(rows@.take(rows@.len() as int) =~= rows@);
    NetworkRateSnapshot {
        sampled_at_unix_nanos,
        interval_nanos: interval,
        send_bytes_per_second: send,
        receive_bytes_per_second: receive,
    }
}

/// How many buckets of a width a stretch of time takes, at least one.
pub open spec fn buckets_in(stretch: u64, width: u64) -> int {
    let n = model::saturated(stretch + (width - 1)) as int / width as int;
    if n < 1 {
        1
    } else {
        n
    }
}

/// The end of a curve: its newest buckets, as many as a stretch of time takes.
pub open spec fn recent(curve: CurveView, stretch: u64) -> CurveView {
    let maximum = if buckets_in(stretch, curve.width) < curve.maximum {
        buckets_in(stretch, curve.width) as usize
    } else {
        curve.maximum
    };
    CurveView {
        maximum,
        buckets: if curve.buckets.len() > maximum {
            curve.buckets.skip(curve.buckets.len() - maximum)
        } else {
            curve.buckets
        },
        ..curve
    }
}

/// The end of a curve.
pub fn recent_curve(curve: &TrafficCurveSnapshot, duration: Duration) -> (out: TrafficCurveSnapshot)
    requires
        curve.bucket_width_nanos > 0,
    ensures
        out@ == recent(curve@, duration::clamped(duration@)),
{
    let stretch: u64 = duration.clamped_nanos();
    let width: u64 = curve.bucket_width_nanos;
    let mut count: u64 = stretch.saturating_add(width - 1) / width;
    if count < 1 {
        count = 1;
    }
    let maximum: usize = if count < curve.maximum_buckets as u64 {
        count as usize
    } else {
        curve.maximum_buckets
    };
    let n: usize = curve.buckets.len();
    let mut skip: usize = 0;
    if n > maximum {
        skip = n - maximum;
    }
    let mut buckets: Vec<model::TrafficBucket> = Vec::new();
    for i in skip..n
        invariant
            n == curve.buckets@.len(),
            skip <= n,
            buckets@ == curve.buckets@.subrange(skip as int, i as int),
    {
        buckets.push(curve.buckets[i]);
    }
    proof {
        assert(buckets@ =~= curve.buckets@.skip(skip as int));
        if skip == 0 {
            assert(curve.buckets@.skip(0) =~= curve.buckets@);
        }
    }
    TrafficCurveSnapshot {
        bucket_width_nanos: curve.bucket_width_nanos,
        maximum_buckets: maximum,
        events_received: curve.events_received,
        events_accepted: curve.events_accepted,
        events_late_dropped: curve.events_late_dropped,
        bytes_received: curve.bytes_received,
        bytes_accepted: curve.bytes_accepted,
        bytes_late_dropped: curve.bytes_late_dropped,
        buckets,
    }
}

/// A connection joined with its process.
pub open spec fn detail_of(
    connection: ConnectionSnapshot,
    system: SystemView,
) -> ConnectionDetailSnapshot {
    let process = match connection.process_key {
        Some(key) => process_of(system.processes, key),
        None => None,
    };
    ConnectionDetailSnapshot {
        connection,
        process_name: match process {
            Some(process) => Some(process.name),
            None => connection.owner_name,
        },
        process_image_path: match process {
            Some(process) => process.image_path,
            None => None,
        },
        owner_status: if process is Some {
            ConnectionOwnerStatus::Matched
        } else if connection.owner_name is Some {
            ConnectionOwnerStatus::NameOnly
        } else {
            ConnectionOwnerStatus::ProcessExited
        },
    }
}

/// Connections joined with their processes.
pub open spec fn derived_details(system: Option<SystemView>) -> Seq<ConnectionDetailSnapshot> {
    match system {
        Some(system) => system.connections.map_values(
            |connection: ConnectionSnapshot| detail_of(connection, system),
        ),
        None => Seq::empty(),
    }
}

/// Connections joined with their processes.
pub fn derive_connection_details(system: &Option<SystemSnapshot>) -> (out: Vec<
    ConnectionDetailSnapshot,
>)
    ensures
        out@ == derived_details(system_view(*system)),
{
    let mut out: Vec<ConnectionDetailSnapshot> = Vec::new();
    let system = match system {
        Some(system) => system,
        None => {
            return out;
        },
    };
    let index = index_by_key(&system.processes);
    for i in 0..system.connections.len()
        invariant
            out@ == derived_details(Some(system@)).take(i as int),
            index.well_formed(),
            forall|key: ProcessKey|
                #![trigger placed_at(system.processes@, index@, key)]
                process_of(system.processes@, key) == placed_at(system.processes@, index@, key),
            forall|key: ProcessKey| #[trigger]
                index@.dom().contains(key) ==> index@[key] < system.processes@.len(),
    {
        let connection = &system.connections[i];
        let found: Option<usize> = match connection.process_key {
            Some(key) => {
                assert(process_of(system@.processes, key) == placed_at(system.processes@, index@, key));
                match index.get(&key) {
                    Some(at) => Some(*at),
                    None => None,
                }
            },
            None => None,
        };
        let row = match found {
            Some(at) => ConnectionDetailSnapshot {
                connection: connection.clone(),
                process_name: Some(system.processes[at].name.clone()),
                process_image_path: text::copy_optional(&system.processes[at].image_path),
                owner_status: ConnectionOwnerStatus::Matched,
            },
            None => ConnectionDetailSnapshot {
                connection: connection.clone(),
                process_name: text::copy_optional(&connection.owner_name),
                process_image_path: None,
                owner_status: if connection.owner_name.is_some() {
                    ConnectionOwnerStatus::NameOnly
                } else {
                    ConnectionOwnerStatus::ProcessExited
                },
            },
        };
        assert(row == detail_of(*connection, system@));
        out.push(row);
    }
    out
}

/// A snapshot of the application as a value, besides its counts.
#[verifier::ext_equal]
pub struct JoinedView {
    pub flows: Seq<FlowSnapshot>,
    pub curve: CurveView,
    pub recent: CurveView,
    pub rate: NetworkRateSnapshot,
    pub traffic: Seq<ProcessTrafficSnapshot>,
    pub details: Seq<ConnectionDetailSnapshot>,
    pub system: Option<SystemView>,
}

/// What is published of flows, the curve and the processes, joined with the system at a sample
/// time.
pub open spec fn joined(
    flows: Seq<FlowSnapshot>,
    curve: CurveView,
    counters: Seq<ProcessTrafficCounters>,
    system: Option<SystemView>,
    sampled_at: u64,
) -> JoinedView {
    let traffic = ranked(derived_traffic(counters, system));
    JoinedView {
        flows: attributed(flows, system),
        curve,
        recent: recent(curve, 60_000_000_000),
        rate: NetworkRateSnapshot {
            sampled_at_unix_nanos: sampled_at,
            interval_nanos: curve.width,
            send_bytes_per_second: model::saturated(sending_rate(traffic)),
            receive_bytes_per_second: model::saturated(receiving_rate(traffic)),
        },
        traffic,
        details: derived_details(system),
        system,
    }
}

impl ApplicationSnapshot {
    /// The joined part.
    pub open spec fn joined_view(&self) -> JoinedView {
        JoinedView {
            flows: self.flows@,
            curve: self.curve@,
            recent: self.recent_60_seconds@,
            rate: self.network_rate,
            traffic: self.process_traffic@,
            details: self.connection_details@,
            system: system_view(self.system),
        }
    }

    /// The counts.
    pub open spec fn counters_view(&self) -> RuntimeCounters {
        RuntimeCounters {
            received: self.events_received,
            accepted: self.events_accepted,
            dropped_full: self.events_dropped_full,
            dropped_stopped: self.events_dropped_stopped,
            processed: self.events_processed,
            queue_depth: self.queue_depth,
            queue_peak: self.queue_peak,
        }
    }
}

/// What the application has published: flows in the order of their keys, the curve, and the
/// counters of processes.
#[derive(Debug, Clone, PartialEq, Eq)]
pub struct Publication {
    pub flows: Vec<FlowSnapshot>,
    pub curve: TrafficCurveSnapshot,
    pub process_counters: Vec<ProcessTrafficCounters>,
}

fn copy_curve(curve: &TrafficCurveSnapshot) -> (copy: TrafficCurveSnapshot)
    ensures
        copy@ == curve@,
{
    TrafficCurveSnapshot {
        bucket_width_nanos: curve.bucket_width_nanos,
        maximum_buckets: curve.maximum_buckets,
        events_received: curve.events_received,
        events_accepted: curve.events_accepted,
        events_late_dropped: curve.events_late_dropped,
        bytes_received: curve.bytes_received,
        bytes_accepted: curve.bytes_accepted,
        bytes_late_dropped: curve.bytes_late_dropped,
        buckets: curve::copy_buckets(curve.buckets.as_slice()),
    }
}

/// What the application shows: its counts, and what it has published joined with the system.
pub fn snapshot(
    counters: &RuntimeCounters,
    config: &RuntimeConfig,
    published: &Publication,
    capture_status: CaptureStatus,
    system: &Option<SystemSnapshot>,
    running: bool,
    sampled_at_unix_nanos: u64,
) -> (out: ApplicationSnapshot)
    requires
        published.curve.bucket_width_nanos > 0,
    ensures
        out.running == running,
        out.capture_status == capture_status,
        out.counters_view() == *counters,
        out.queue_capacity == config.queue_capacity,
        out.snapshot_interval_millis == config.snapshot_interval@ / 1_000_000,
        out.flow_idle_timeout_millis == config.flow_idle_timeout@ / 1_000_000,
        out.maximum_flows == config.maximum_flows,
        out.joined_view() == joined(
            published.flows@,
            published.curve@,
            published.process_counters@,
            system_view(*system),
            sampled_at_unix_nanos,
        ),
{
    let flows = attribute_flows(published.flows.as_slice(), system);
    let unranked = derive_process_traffic(published.process_counters.as_slice(), system);
    let process_traffic = rank(&unranked);
    let rate = network_rate(
        &process_traffic,
        sampled_at_unix_nanos,
        published.curve.bucket_width_nanos,
    );
    let copy = match system {
        Some(system) => Some(system.clone()),
        None => None,
    };
    ApplicationSnapshot {
        running,
        capture_status,
        events_received: counters.received,
        events_accepted: counters.accepted,
        events_dropped_full: counters.dropped_full,
        events_dropped_stopped: counters.dropped_stopped,
        events_processed: counters.processed,
        queue_capacity: config.queue_capacity,
        queue_depth: counters.queue_depth,
        queue_peak: counters.queue_peak,
        snapshot_interval_millis: config.snapshot_interval.as_millis(),
        flow_idle_timeout_millis: config.flow_idle_timeout.as_millis(),
        maximum_flows: config.maximum_flows,
        flows,
        curve: copy_curve(&published.curve),
        recent_60_seconds: recent_curve(&published.curve, Duration::from_secs(60)),
        network_rate: rate,
        process_traffic,
        connection_details: derive_connection_details(system),
        system: copy,
    }
}

/// The processes that are shown are those that there are, each as often as it is there, the busiest
/// first: of two, the first has the higher rate, or the same rate and more traffic so far, or the
/// same of both and no higher number.
pub proof fn law_busiest_first(rows: Seq<ProcessTrafficSnapshot>)
    requires
        rows.len() <= usize::MAX,
    ensures
        ranked(rows).len() == rows.len(),
        ranked(rows).to_multiset() == rows.to_multiset(),
        forall|i: int, j: int|
            #![trigger ranked(rows)[i], ranked(rows)[j]]
            0 <= i < j < rows.len() ==> busier(ranked(rows)[i], ranked(rows)[j]),
{
    let key = |row: ProcessTrafficSnapshot| rank_key(row);
    let sorted = ordered::by_key::<((u64, u64), u32), ProcessTrafficSnapshot>(rows, key);
    ordered::law_rows_are_put_in_order::<((u64, u64), u32), ProcessTrafficSnapshot>(rows, key);
    assert(ranked(rows) =~= sorted);
    assert forall|i: int, j: int|
        #![trigger sorted[i], sorted[j]]
        0 <= i < j < rows.len() implies busier(sorted[i], sorted[j]) by {
        assert(key(sorted[i]) == rank_key(sorted[i]) && key(sorted[j]) == rank_key(sorted[j]));
    }
}

/// Whether a process comes before another: by rate, by traffic so far, by number.
pub open spec fn busier(a: ProcessTrafficSnapshot, b: ProcessTrafficSnapshot) -> bool {
    ||| rate_of(a) > rate_of(b)
    ||| rate_of(a) == rate_of(b) && total_of(a) > total_of(b)
    ||| rate_of(a) == rate_of(b) && total_of(a) == total_of(b) && a.pid <= b.pid
}

/// The last process with a number has that number and is in the list.
proof fn lemma_last_process(processes: Seq<ProcessSnapshot>, pid: u32)
    ensures
        match last_process(processes, pid) {
            Some(process) => process.key.pid == pid && processes.contains(process),
            None => forall|i: int|
                0 <= i < processes.len() ==> (#[trigger] processes[i]).key.pid != pid,
        },
    decreases processes.len(),
{
    if processes.len() > 0 {
        lemma_last_process(processes.drop_last(), pid);
        if processes.last().key.pid != pid {
            match last_process(processes.drop_last(), pid) {
                Some(process) => {
                    let i = processes.drop_last().index_of(process);
                    assert(processes[i] == process);
                },
                None => {
                    assert forall|i: int| 0 <= i < processes.len() implies (
                    #[trigger] processes[i]).key.pid != pid by {
                        if i < processes.len() - 1 {
                            assert(processes.drop_last()[i] == processes[i]);
                        }
                    }
                },
            }
        } else {
            assert(processes[processes.len() - 1] == processes.last());
        }
    }
}

/// A flow is never given to a process that reuses the number of the one that caused it: the process
/// was running when the flow began, and was still seen after the flow's last event.
pub proof fn law_reused_number_is_not_attributed(flow: FlowSnapshot, system: SystemView)
    ensures
        match attributed_key(flow, system) {
            Some(key) => {
                &&& key.pid == flow.key.pid
                &&& key.started_at_unix_nanos <= flow.first_timestamp_unix_nanos
                &&& system.captured_at >= flow.last_timestamp_unix_nanos
            },
            None => true,
        },
{
    lemma_last_process(system.processes, flow.key.pid);
}

/// The end of a curve is no longer than the stretch of time takes, and is the curve's end.
pub proof fn law_recent_is_the_end_of_the_curve(curve: CurveView, stretch: u64)
    requires
        curve.well_formed(),
    ensures
        recent(curve, stretch).buckets.len() <= buckets_in(stretch, curve.width),
        recent(curve, stretch).buckets.len() <= curve.buckets.len(),
        recent(curve, stretch).buckets == curve.buckets.skip(
            curve.buckets.len() - recent(curve, stretch).buckets.len(),
        ),
{
    assert(curve.buckets.skip(0) =~= curve.buckets);
}

/// The last process of a number is the one that stands last in the list.
proof fn lemma_process_at(processes: Seq<ProcessSnapshot>, at: int, pid: u32)
    requires
        0 <= at < processes.len(),
        processes[at].key.pid == pid,
        forall|i: int| at < i < processes.len() ==> (#[trigger] processes[i]).key.pid != pid,
    ensures
        last_process(processes, pid) == Some(processes[at]),
    decreases processes.len(),
{
    if at < processes.len() - 1 {
        assert(processes[processes.len() - 1].key.pid != pid);
        assert(processes.drop_last()[at] == processes[at]);
        assert forall|i: int| at < i < processes.drop_last().len() implies (
        #[trigger] processes.drop_last()[i]).key.pid != pid by {
            assert(processes[i].key.pid != pid);
        }
        lemma_process_at(processes.drop_last(), at, pid);
    }
}

proof fn lemma_number_is_free(processes: Seq<ProcessSnapshot>, pid: u32)
    requires
        forall|i: int| 0 <= i < processes.len() ==> (#[trigger] processes[i]).key.pid != pid,
    ensures
        last_process(processes, pid) is None,
    decreases processes.len(),
{
    if processes.len() > 0 {
        assert(processes[processes.len() - 1].key.pid != pid);
        assert forall|i: int| 0 <= i < processes.drop_last().len() implies (
        #[trigger] processes.drop_last()[i]).key.pid != pid by {
            assert(processes[i].key.pid != pid);
        }
        lemma_number_is_free(processes.drop_last(), pid);
    }
}

/// A flow belongs to the process of its number if that process was there before the flow's first
/// event and the system was looked at after its last; its counts stay as they are.
pub proof fn law_flows_are_attributed(
    flows: Seq<FlowSnapshot>,
    system: SystemView,
    i: int,
    at: int,
)
    requires
        0 <= i < flows.len(),
        0 <= at < system.processes.len(),
        system.processes[at].key.pid == flows[i].key.pid,
        forall|k: int|
            at < k < system.processes.len() ==> (#[trigger] system.processes[k]).key.pid
                != flows[i].key.pid,
    ensures
        ({
            let flow = flows[i];
            let process = system.processes[at];
            let shown = attributed(flows, Some(system))[i];
            &&& attributed(flows, Some(system)).len() == flows.len()
            &&& process.key.started_at_unix_nanos <= flow.first_timestamp_unix_nanos
                && flow.last_timestamp_unix_nanos <= system.captured_at ==> shown.process_key
                == Some(process.key)
            &&& process.key.started_at_unix_nanos > flow.first_timestamp_unix_nanos
                || flow.last_timestamp_unix_nanos > system.captured_at ==> shown.process_key is None
            &&& shown.key == flow.key
            &&& shown.events == flow.events
            &&& shown.bytes == flow.bytes
            &&& shown.first_timestamp_unix_nanos == flow.first_timestamp_unix_nanos
            &&& shown.last_timestamp_unix_nanos == flow.last_timestamp_unix_nanos
        }),
{
    lemma_process_at(system.processes, at, flows[i].key.pid);
}

/// A flow whose number no process has belongs to none.
pub proof fn law_flows_of_unknown_processes(flow: FlowSnapshot, system: SystemView)
    requires
        forall|k: int|
            0 <= k < system.processes.len() ==> (#[trigger] system.processes[k]).key.pid
                != flow.key.pid,
    ensures
        attributed_key(flow, system) is None,
{
    lemma_number_is_free(system.processes, flow.key.pid);
}

/// The row of a process shows its counters as they are, and the name, image and picture of the
/// process of its number. It is told to be that process if the process was there before the last
/// event and the system was looked at after it.
pub proof fn law_rows_show_counters_and_process(
    counter: ProcessTrafficCounters,
    system: SystemView,
    at: int,
)
    requires
        0 <= at < system.processes.len(),
        system.processes[at].key.pid == counter.pid,
        forall|k: int|
            at < k < system.processes.len() ==> (#[trigger] system.processes[k]).key.pid
                != counter.pid,
    ensures
        ({
            let row = traffic_of(counter, Some(system));
            let process = system.processes[at];
            &&& row.pid == counter.pid
            &&& row.send_bytes_total == counter.send_bytes_total
            &&& row.receive_bytes_total == counter.receive_bytes_total
            &&& row.send_bytes_per_second == counter.send_bytes_per_second
            &&& row.receive_bytes_per_second == counter.receive_bytes_per_second
            &&& row.last_timestamp_unix_nanos == counter.last_timestamp_unix_nanos
            &&& row.name == Some(process.name)
            &&& row.image_path == process.image_path
            &&& row.icon == process.icon
            &&& process.key.started_at_unix_nanos <= counter.last_timestamp_unix_nanos
                <= system.captured_at ==> row.process_key == Some(process.key)
            &&& counter.last_timestamp_unix_nanos < process.key.started_at_unix_nanos
                || system.captured_at < counter.last_timestamp_unix_nanos ==> row.process_key is None
        }),
{
    lemma_process_at(system.processes, at, counter.pid);
}

/// The row of a process that the system does not list has no image and no picture, and the name that
/// the system's connections or names give its number.
pub proof fn law_rows_of_unlisted_processes(counter: ProcessTrafficCounters, system: SystemView)
    requires
        forall|k: int|
            0 <= k < system.processes.len() ==> (#[trigger] system.processes[k]).key.pid
                != counter.pid,
    ensures
        ({
            let row = traffic_of(counter, Some(system));
            &&& row.process_key is None
            &&& row.image_path is None
            &&& row.icon == ProcessIconState::NotLoaded
            &&& row.name == owner_name(system, counter.pid)
            &&& row.send_bytes_total == counter.send_bytes_total
            &&& row.receive_bytes_total == counter.receive_bytes_total
            &&& row.send_bytes_per_second == counter.send_bytes_per_second
            &&& row.receive_bytes_per_second == counter.receive_bytes_per_second
        }),
{
    lemma_number_is_free(system.processes, counter.pid);
}

/// A connection counts for its number's process, and for a process that is told apart only where it
/// is known to be that process's.
pub proof fn law_connections_are_counted(
    connections: Seq<ConnectionSnapshot>,
    more: ConnectionSnapshot,
    pid: u32,
    key: ProcessKey,
)
    ensures
        connections_of(Seq::empty(), pid, None) == 0,
        connections_of(Seq::empty(), pid, Some(key)) == 0,
        connections_of(connections.push(more), pid, None) == connections_of(connections, pid, None)
            + (if more.pid == pid {
            1int
        } else {
            0
        }),
        connections_of(connections.push(more), pid, Some(key)) == connections_of(
            connections,
            pid,
            Some(key),
        ) + (if more.pid == pid && more.process_key == Some(key) {
            1int
        } else {
            0
        }),
{
    assert(connections.push(more).drop_last() =~= connections);
}

/// The bytes a second that counters sent, or received, together.
pub open spec fn sent_together(counters: Seq<ProcessTrafficCounters>) -> int
    decreases counters.len(),
{
    if counters.len() == 0 {
        0
    } else {
        sent_together(counters.drop_last()) + counters.last().send_bytes_per_second
    }
}

/// The bytes a second that counters received together.
pub open spec fn received_together(counters: Seq<ProcessTrafficCounters>) -> int
    decreases counters.len(),
{
    if counters.len() == 0 {
        0
    } else {
        received_together(counters.drop_last()) + counters.last().receive_bytes_per_second
    }
}

proof fn lemma_rates_without(rows: Seq<ProcessTrafficSnapshot>, k: int)
    requires
        0 <= k < rows.len(),
    ensures
        sending_rate(rows) == sending_rate(rows.remove(k)) + rows[k].send_bytes_per_second,
        receiving_rate(rows) == receiving_rate(rows.remove(k)) + rows[k].receive_bytes_per_second,
    decreases rows.len(),
{
    if k == rows.len() - 1 {
        assert(rows.remove(k) =~= rows.drop_last());
    } else {
        lemma_rates_without(rows.drop_last(), k);
        assert(rows.remove(k).drop_last() =~= rows.drop_last().remove(k));
        assert(rows.remove(k).last() == rows.last());
    }
}

proof fn lemma_same_rates(a: Seq<ProcessTrafficSnapshot>, b: Seq<ProcessTrafficSnapshot>)
    requires
        a.to_multiset() == b.to_multiset(),
    ensures
        sending_rate(a) == sending_rate(b),
        receiving_rate(a) == receiving_rate(b),
    decreases a.len(),
{
    a.to_multiset_ensures();
    b.to_multiset_ensures();
    assert(a.len() == b.len());
    if a.len() > 0 {
        let x = a.last();
        let n = a.len() - 1;
        assert(a.to_multiset().count(x) > 0) by {
            assert(a[n] == x);
            assert(a.contains(x));
        }
        assert(b.contains(x));
        let k = choose|k: int| 0 <= k < b.len() && b[k] == x;
        lemma_rates_without(b, k);
        lemma_rates_without(a, n);
        assert(a.remove(n) =~= a.drop_last());
        assert(a.remove(n).to_multiset() =~= a.to_multiset().remove(x));
        assert(b.remove(k).to_multiset() =~= b.to_multiset().remove(x));
        lemma_same_rates(a.drop_last(), b.remove(k));
    }
}

proof fn lemma_rates_of_counters(
    counters: Seq<ProcessTrafficCounters>,
    system: Option<SystemView>,
)
    ensures
        sending_rate(derived_traffic(counters, system)) == sent_together(counters),
        receiving_rate(derived_traffic(counters, system)) == received_together(counters),
    decreases counters.len(),
{
    if counters.len() > 0 {
        lemma_rates_of_counters(counters.drop_last(), system);
        assert(derived_traffic(counters, system).drop_last() =~= derived_traffic(
            counters.drop_last(),
            system,
        ));
    }
}

/// The rate of the network is what all processes together sent and received a second, at the time
/// of the sample.
pub proof fn law_network_rate_is_of_all_processes(
    flows: Seq<FlowSnapshot>,
    curve: CurveView,
    counters: Seq<ProcessTrafficCounters>,
    system: Option<SystemView>,
    sampled_at: u64,
)
    requires
        counters.len() <= usize::MAX,
    ensures
        ({
            let rate = joined(flows, curve, counters, system, sampled_at).rate;
            &&& rate.send_bytes_per_second == model::saturated(sent_together(counters))
            &&& rate.receive_bytes_per_second == model::saturated(received_together(counters))
            &&& rate.sampled_at_unix_nanos == sampled_at
            &&& rate.interval_nanos == curve.width
        }),
{
    let rows = derived_traffic(counters, system);
    law_busiest_first(rows);
    lemma_same_rates(ranked(rows), rows);
    lemma_rates_of_counters(counters, system);
}

/// No process is listed before one that carries more a second, sent and received together, nor,
/// where two carry the same, before one that has carried more in all.
pub proof fn law_rows_are_listed_by_traffic(rows: Seq<ProcessTrafficSnapshot>, i: int, j: int)
    requires
        rows.len() <= usize::MAX,
        0 <= i < j < rows.len(),
        ranked(rows)[i].send_bytes_per_second + ranked(rows)[i].receive_bytes_per_second
            <= u64::MAX,
        ranked(rows)[j].send_bytes_per_second + ranked(rows)[j].receive_bytes_per_second
            <= u64::MAX,
        ranked(rows)[i].send_bytes_total + ranked(rows)[i].receive_bytes_total <= u64::MAX,
        ranked(rows)[j].send_bytes_total + ranked(rows)[j].receive_bytes_total <= u64::MAX,
    ensures
        ({
            let a = ranked(rows)[i];
            let b = ranked(rows)[j];
            let rate_a = a.send_bytes_per_second + a.receive_bytes_per_second;
            let rate_b = b.send_bytes_per_second + b.receive_bytes_per_second;
            let total_a = a.send_bytes_total + a.receive_bytes_total;
            let total_b = b.send_bytes_total + b.receive_bytes_total;
            &&& rate_a >= rate_b
            &&& rate_a == rate_b ==> total_a >= total_b
            &&& rate_a == rate_b && total_a == total_b ==> a.pid <= b.pid
        }),
{
    law_busiest_first(rows);
    assert(busier(ranked(rows)[i], ranked(rows)[j]));
}

/// The recent part of a curve is its newest buckets, as many as it takes to hold the stretch, or all
/// where there are fewer.
pub proof fn law_recent_holds_the_stretch(curve: CurveView, stretch: u64, n: int)
    requires
        curve.well_formed(),
        n >= 1,
        stretch + curve.width <= u64::MAX,
        (n - 1) * curve.width < stretch <= n * curve.width,
    ensures
        ({
            let shown = recent(curve, stretch).buckets;
            let most = if n < curve.maximum {
                n
            } else {
                curve.maximum as int
            };
            &&& shown.len() == (if curve.buckets.len() < most {
                curve.buckets.len() as int
            } else {
                most
            })
            &&& forall|i: int|
                0 <= i < shown.len() ==> #[trigger] shown[i] == curve.buckets[curve.buckets.len()
                    - shown.len() + i]
        }),
{
    let w = curve.width as int;
    let m = stretch as int + (w - 1);
    assert(m / w == n) by {
        let r = m - n * w;
        assert((n - 1) * w == n * w - w) by (nonlinear_arith);
        assert(0 <= r < w);
        assert(n * w == w * n) by (nonlinear_arith);
        vstd::arithmetic::div_mod::lemma_fundamental_div_mod_converse(m, w, n, r);
    }
}

/// A connection's detail names the process of its key; without one it has the name that the
/// connection itself gives, or none.
pub proof fn law_details_tell_the_owner(
    connection: ConnectionSnapshot,
    system: SystemView,
    key: ProcessKey,
)
    ensures
        detail_of(connection, system).connection == connection,
        connection.process_key == Some(key) && process_of(system.processes, key) is Some ==> {
            let process = process_of(system.processes, key)->0;
            let detail = detail_of(connection, system);
            &&& detail.owner_status == ConnectionOwnerStatus::Matched
            &&& detail.process_name == Some(process.name)
            &&& detail.process_image_path == process.image_path
        },
        connection.process_key is None ==> {
            let detail = detail_of(connection, system);
            &&& detail.process_name == connection.owner_name
            &&& detail.process_image_path is None
            &&& detail.owner_status == (if connection.owner_name is Some {
                ConnectionOwnerStatus::NameOnly
            } else {
                ConnectionOwnerStatus::ProcessExited
            })
        },
{
}

/// The process of a key is one that the system lists under that key.
pub proof fn law_process_of_a_key(processes: Seq<ProcessSnapshot>, key: ProcessKey, at: int)
    requires
        0 <= at < processes.len(),
        processes[at].key == key,
    ensures
        process_of(processes, key) matches Some(process) && process.key == key,
    decreases processes.len(),
{
    if processes.last().key != key {
        assert(processes.drop_last()[at] == processes[at]);
        law_process_of_a_key(processes.drop_last(), key, at);
    }
}

/// A snapshot shows the counts of events under their names.
pub proof fn law_snapshot_shows_its_parts(snapshot: ApplicationSnapshot)
    ensures
        snapshot.counters_view().received == snapshot.events_received,
        snapshot.counters_view().accepted == snapshot.events_accepted,
        snapshot.counters_view().dropped_full == snapshot.events_dropped_full,
        snapshot.counters_view().dropped_stopped == snapshot.events_dropped_stopped,
        snapshot.counters_view().processed == snapshot.events_processed,
        snapshot.counters_view().queue_depth == snapshot.queue_depth,
        snapshot.counters_view().queue_peak == snapshot.queue_peak,
        snapshot.joined_view().flows == snapshot.flows@,
        snapshot.joined_view().curve == snapshot.curve@,
        snapshot.joined_view().recent == snapshot.recent_60_seconds@,
        snapshot.joined_view().rate == snapshot.network_rate,
        snapshot.joined_view().traffic == snapshot.process_traffic@,
        snapshot.joined_view().details == snapshot.connection_details@,
{
}

} // verus!
