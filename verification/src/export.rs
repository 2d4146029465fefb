//! A snapshot as JSON and as CSV.
use crate::address;
use crate::address::SocketAddr;
use crate::json;
use crate::json::Json;
use crate::model;
use crate::model::{
    ConnectionSnapshot, FlowKey, FlowSnapshot, ProcessIconState, ProcessKey, ProcessSnapshot,
    SystemSnapshot, SystemView, TcpConnectionState, TrafficBucket, TrafficDirection,
    TransportProtocol,
};
use crate::ordered;
use crate::ordered::OrderedKey;
use crate::quoting;
use crate::snapshot::{
    ApplicationSnapshot, CaptureRestriction, CaptureStatus, ConnectionDetailSnapshot,
    NetworkRateSnapshot, ProcessTrafficSnapshot,
};
use crate::table;
use crate::text;
use vstd::prelude::*;

verus! {

/// Texts with commas between them.
pub open spec fn listed(parts: Seq<Seq<char>>) -> Seq<char> {
    text::joined(parts, ","@)
}

/// When a process started, or zero where that is not known.
pub open spec fn started_at(key: Option<ProcessKey>) -> u64 {
    match key {
        Some(key) => key.started_at_unix_nanos,
        None => 0,
    }
}

fn start_of(key: Option<ProcessKey>) -> (at: u64)
    ensures
        at == started_at(key),
{
    match key {
        Some(key) => key.started_at_unix_nanos,
        None => 0,
    }
}

/// The word for a truth value.
pub open spec fn truth_text(value: bool) -> Seq<char> {
    if value {
        "true"@
    } else {
        "false"@
    }
}

/// The word for a truth value.
pub fn truth(value: bool) -> (text: &'static str)
    ensures
        text@ == truth_text(value),
{
    if value {
        "true"
    } else {
        "false"
    }
}

/// The word for a protocol.
pub open spec fn protocol_name(value: TransportProtocol) -> Seq<char> {
    match value {
        TransportProtocol::Tcp => "tcp"@,
        TransportProtocol::Udp => "udp"@,
    }
}

/// The word for a protocol.
pub fn protocol(value: TransportProtocol) -> (name: &'static str)
    ensures
        name@ == protocol_name(value),
{
    match value {
        TransportProtocol::Tcp => "tcp",
        TransportProtocol::Udp => "udp",
    }
}

fn protocol_place(value: TransportProtocol) -> (n: u32)
    ensures
        n == model::protocol_rank(value),
{
    match value {
        TransportProtocol::Tcp => 0,
        TransportProtocol::Udp => 1,
    }
}

/// The word for a direction.
pub open spec fn direction_name(value: TrafficDirection) -> Seq<char> {
    match value {
        TrafficDirection::Send => "send"@,
        TrafficDirection::Receive => "receive"@,
    }
}

/// The word for a direction.
pub fn direction(value: TrafficDirection) -> (name: &'static str)
    ensures
        name@ == direction_name(value),
{
    match value {
        TrafficDirection::Send => "send",
        TrafficDirection::Receive => "receive",
    }
}

/// The word for a state of a connection.
pub open spec fn tcp_state_name(value: TcpConnectionState) -> Seq<char> {
    match value {
        TcpConnectionState::Closed => "Closed"@,
        TcpConnectionState::Listen => "Listen"@,
        TcpConnectionState::SynSent => "SynSent"@,
        TcpConnectionState::SynReceived => "SynReceived"@,
        TcpConnectionState::Established => "Established"@,
        TcpConnectionState::FinWait1 => "FinWait1"@,
        TcpConnectionState::FinWait2 => "FinWait2"@,
        TcpConnectionState::CloseWait => "CloseWait"@,
        TcpConnectionState::Closing => "Closing"@,
        TcpConnectionState::LastAck => "LastAck"@,
        TcpConnectionState::TimeWait => "TimeWait"@,
        TcpConnectionState::DeleteTcb => "DeleteTcb"@,
        TcpConnectionState::Unknown(n) => "Unknown("@ + text::decimal(n as nat) + ")"@,
    }
}

/// The word for a state of a connection.
pub fn tcp_state(value: TcpConnectionState) -> (name: String)
    ensures
        name@ == tcp_state_name(value),
{
    match value {
        TcpConnectionState::Closed => "Closed".to_owned(),
        TcpConnectionState::Listen => "Listen".to_owned(),
        TcpConnectionState::SynSent => "SynSent".to_owned(),
        TcpConnectionState::SynReceived => "SynReceived".to_owned(),
        TcpConnectionState::Established => "Established".to_owned(),
        TcpConnectionState::FinWait1 => "FinWait1".to_owned(),
        TcpConnectionState::FinWait2 => "FinWait2".to_owned(),
        TcpConnectionState::CloseWait => "CloseWait".to_owned(),
        TcpConnectionState::Closing => "Closing".to_owned(),
        TcpConnectionState::LastAck => "LastAck".to_owned(),
        TcpConnectionState::TimeWait => "TimeWait".to_owned(),
        TcpConnectionState::DeleteTcb => "DeleteTcb".to_owned(),
        TcpConnectionState::Unknown(n) => {
            let mut name = "Unknown(".to_owned();
            text::put_number(&mut name, n as u64);
            name.append(")");
            name
        },
    }
}

/// The word for how far the picture of a process is known.
pub open spec fn icon_name(value: ProcessIconState) -> Seq<char> {
    match value {
        ProcessIconState::NotLoaded => "not_loaded"@,
        ProcessIconState::Unavailable => "unavailable"@,
        ProcessIconState::Available(_) => "available"@,
    }
}

/// The word for how far the picture of a process is known.
pub fn icon_status(value: &ProcessIconState) -> (name: &'static str)
    ensures
        name@ == icon_name(*value),
{
    match value {
        ProcessIconState::NotLoaded => "not_loaded",
        ProcessIconState::Unavailable => "unavailable",
        ProcessIconState::Available(_) => "available",
    }
}

/// The word for whether the network is captured.
pub open spec fn status_name(value: CaptureStatus) -> Seq<char> {
    match value {
        CaptureStatus::Available => "available"@,
        CaptureStatus::Restricted(_) => "restricted"@,
    }
}

/// The word for why the network is not captured.
pub open spec fn restriction_name(value: CaptureStatus) -> Seq<char> {
    match value {
        CaptureStatus::Available => "none"@,
        CaptureStatus::Restricted(CaptureRestriction::PermissionRequired) => "permission_required"@,
        CaptureStatus::Restricted(CaptureRestriction::SessionAlreadyExists) =>
            "session_already_exists"@,
    }
}

/// The words for whether the network is captured, and why not.
pub fn capture_labels(value: CaptureStatus) -> (labels: (&'static str, &'static str))
    ensures
        labels.0@ == status_name(value),
        labels.1@ == restriction_name(value),
{
    match value {
        CaptureStatus::Available => ("available", "none"),
        CaptureStatus::Restricted(CaptureRestriction::PermissionRequired) => (
            "restricted",
            "permission_required",
        ),
        CaptureStatus::Restricted(CaptureRestriction::SessionAlreadyExists) => (
            "restricted",
            "session_already_exists",
        ),
    }
}

/// A remote end as text.
pub open spec fn remote_text(remote: Option<SocketAddr>) -> Option<Seq<char>> {
    match remote {
        Some(remote) => Some(address::socket_text(remote)),
        None => None,
    }
}

fn remote_string(remote: Option<SocketAddr>) -> (text: Option<String>)
    ensures
        text::optional(text) == remote_text(remote),
{
    match remote {
        Some(remote) => Some(remote.text()),
        None => None,
    }
}

/// A state as text.
pub open spec fn state_text(state: Option<TcpConnectionState>) -> Option<Seq<char>> {
    match state {
        Some(state) => Some(tcp_state_name(state)),
        None => None,
    }
}

fn state_string(state: Option<TcpConnectionState>) -> (text: Option<String>)
    ensures
        text::optional(text) == state_text(state),
{
    match state {
        Some(state) => Some(tcp_state(state)),
        None => None,
    }
}

/// The first detail of a connection.
pub open spec fn detail_for(
    details: Seq<ConnectionDetailSnapshot>,
    connection: ConnectionSnapshot,
) -> Option<ConnectionDetailSnapshot>
    decreases details.len(),
{
    if details.len() == 0 {
        None
    } else if details[0].connection@ == connection@ {
        Some(details[0])
    } else {
        detail_for(details.drop_first(), connection)
    }
}

/// The name of a connection's process.
pub open spec fn detail_name(
    details: Seq<ConnectionDetailSnapshot>,
    connection: ConnectionSnapshot,
) -> Option<Seq<char>> {
    match detail_for(details, connection) {
        Some(detail) => text::optional(detail.process_name),
        None => None,
    }
}

/// The image of a connection's process.
pub open spec fn detail_path(
    details: Seq<ConnectionDetailSnapshot>,
    connection: ConnectionSnapshot,
) -> Option<Seq<char>> {
    match detail_for(details, connection) {
        Some(detail) => text::optional(detail.process_image_path),
        None => None,
    }
}

fn find_detail(details: &Vec<ConnectionDetailSnapshot>, connection: &ConnectionSnapshot) -> (found:
    Option<usize>)
    ensures
        match found {
            Some(at) => at < details@.len() && detail_for(details@, *connection) == Some(
                details@[at as int],
            ),
            None => detail_for(details@, *connection) is None,
        },
{
    let mut i: usize = 0;
    assert(details@.skip(0) =~= details@);
    while i < details.len()
        invariant
            i <= details@.len(),
            detail_for(details@, *connection) == detail_for(details@.skip(i as int), *connection),
        decreases details@.len() - i,
    {
        if details[i].connection.same_as(connection) {
            return Some(i);
        }
        assert(details@.skip(i as int).drop_first() =~= details@.skip(i + 1));
        i += 1;
    }
    None
}

fn find_name(details: &Vec<ConnectionDetailSnapshot>, connection: &ConnectionSnapshot) -> (name:
    Option<String>)
    ensures
        text::optional(name) == detail_name(details@, *connection),
{
    match find_detail(details, connection) {
        Some(at) => text::copy_optional(&details[at].process_name),
        None => None,
    }
}

fn find_path(details: &Vec<ConnectionDetailSnapshot>, connection: &ConnectionSnapshot) -> (path:
    Option<String>)
    ensures
        text::optional(path) == detail_path(details@, *connection),
{
    match find_detail(details, connection) {
        Some(at) => text::copy_optional(&details[at].process_image_path),
        None => None,
    }
}

fn system_text(system: &Option<SystemSnapshot>, details: &Vec<ConnectionDetailSnapshot>) -> (text:
    String)
    ensures
        text@ == (match *system {
            Some(system) => system_json(system@, details@),
            None => "null"@,
        }),
{
    match system {
        Some(system) => write_system_json(system, details),
        None => "null".to_owned(),
    }
}

/// The keys of a list.
pub open spec fn sorted_flows_keys(items: Seq<FlowSnapshot>) -> Seq<FlowKey> {
    items.map_values(|item: FlowSnapshot| item.key)
}

/// A list in the order of its keys.
pub open spec fn sorted_flows(items: Seq<FlowSnapshot>) -> Seq<FlowSnapshot> {
    ordered::places_in_order::<FlowKey>(sorted_flows_keys(items)).map_values(|at: usize| items[at as int])
}

fn sort_flows(items: &Vec<FlowSnapshot>) -> (sorted: Vec<FlowSnapshot>)
    ensures
        sorted@ == sorted_flows(items@),
{
    let mut keys: Vec<FlowKey> = Vec::new();
    for i in 0..items.len()
        invariant
            keys@.len() == i,
            forall|k: int| 0 <= k < i ==> (#[trigger] keys@[k])@ == sorted_flows_keys(items@)[k],
    {
        let item = &items[i];
        keys.push(item.key);
    }
    let places = ordered::sort_places(keys.as_slice());
    assert(ordered::key_views(keys@) =~= sorted_flows_keys(items@));
    let mut sorted: Vec<FlowSnapshot> = Vec::new();
    for i in 0..places.len()
        invariant
            forall|j: int| 0 <= j < places@.len() ==> (#[trigger] places@[j]) < items@.len(),
            sorted@ == places@.map_values(|at: usize| items@[at as int]).take(i as int),
    {
        sorted.push(items[places[i]].clone());
    }
    sorted
}

/// The keys of a list.
pub open spec fn sorted_processes_keys(items: Seq<ProcessSnapshot>) -> Seq<ProcessKey> {
    items.map_values(|item: ProcessSnapshot| item.key)
}

/// A list in the order of its keys.
pub open spec fn sorted_processes(items: Seq<ProcessSnapshot>) -> Seq<ProcessSnapshot> {
    ordered::places_in_order::<ProcessKey>(sorted_processes_keys(items)).map_values(
        |at: usize| items[at as int],
    )
}

fn sort_processes(items: &Vec<ProcessSnapshot>) -> (sorted: Vec<ProcessSnapshot>)
    ensures
        sorted@ == sorted_processes(items@),
{
    let mut keys: Vec<ProcessKey> = Vec::new();
    for i in 0..items.len()
        invariant
            keys@.len() == i,
            forall|k: int| 0 <= k < i ==> (#[trigger] keys@[k])@ == sorted_processes_keys(items@)[k],
    {
        let item = &items[i];
        keys.push(item.key);
    }
    let places = ordered::sort_places(keys.as_slice());
    assert(ordered::key_views(keys@) =~= sorted_processes_keys(items@));
    let mut sorted: Vec<ProcessSnapshot> = Vec::new();
    for i in 0..places.len()
        invariant
            forall|j: int| 0 <= j < places@.len() ==> (#[trigger] places@[j]) < items@.len(),
            sorted@ == places@.map_values(|at: usize| items@[at as int]).take(i as int),
    {
        sorted.push(items[places[i]].clone());
    }
    sorted
}

/// The keys of a list.
pub open spec fn sorted_connections_keys(
    items: Seq<ConnectionSnapshot>,
) -> Seq<((u32, u32), (SocketAddr, Option<SocketAddr>))> {
    items.map_values(
        |item: ConnectionSnapshot|
            (
                (item.pid, model::protocol_rank(item.protocol) as u32),
                (item.local, item.remote),
            ),
    )
}

/// A list in the order of its keys.
pub open spec fn sorted_connections(items: Seq<ConnectionSnapshot>) -> Seq<ConnectionSnapshot> {
    ordered::places_in_order::<((u32, u32), (SocketAddr, Option<SocketAddr>))>(
        sorted_connections_keys(items),
    ).map_values(|at: usize| items[at as int])
}

fn sort_connections(items: &Vec<ConnectionSnapshot>) -> (sorted: Vec<ConnectionSnapshot>)
    ensures
        sorted@ == sorted_connections(items@),
{
    let mut keys: Vec<((u32, u32), (SocketAddr, Option<SocketAddr>))> = Vec::new();
    for i in 0..items.len()
        invariant
            keys@.len() == i,
            forall|k: int| 0 <= k < i ==> (#[trigger] keys@[k])@ == sorted_connections_keys(items@)[k],
    {
        let item = &items[i];
        keys.push(((item.pid, protocol_place(item.protocol)), (item.local, item.remote)));
    }
    let places = ordered::sort_places(keys.as_slice());
    assert(ordered::key_views(keys@) =~= sorted_connections_keys(items@));
    let mut sorted: Vec<ConnectionSnapshot> = Vec::new();
    for i in 0..places.len()
        invariant
            forall|j: int| 0 <= j < places@.len() ==> (#[trigger] places@[j]) < items@.len(),
            sorted@ == places@.map_values(|at: usize| items@[at as int]).take(i as int),
    {
        sorted.push(items[places[i]].clone());
    }
    sorted
}

fn list_buckets(items: &Vec<TrafficBucket>) -> (out: String)
    ensures
        out@ == listed(items@.map_values(|item: TrafficBucket| bucket_json(item))),
{
    let write = |item: &TrafficBucket| -> (r: String)
        ensures
            r@ == bucket_json(*item)
    {
        write_bucket_json(item)
    };
    let ghost written = |item: TrafficBucket| bucket_json(item);
    let parts = text::each(items.as_slice(), write, Ghost(written));
    text::join(parts.as_slice(), ",")
}

fn list_traffic(items: &Vec<ProcessTrafficSnapshot>) -> (out: String)
    ensures
        out@ == listed(items@.map_values(|item: ProcessTrafficSnapshot| traffic_json(item))),
{
    let write = |item: &ProcessTrafficSnapshot| -> (r: String)
        ensures
            r@ == traffic_json(*item)
    {
        write_traffic_json(item)
    };
    let ghost written = |item: ProcessTrafficSnapshot| traffic_json(item);
    let parts = text::each(items.as_slice(), write, Ghost(written));
    text::join(parts.as_slice(), ",")
}

fn list_flows(items: &Vec<FlowSnapshot>) -> (out: String)
    ensures
        out@ == listed(sorted_flows(items@).map_values(|item: FlowSnapshot| flow_json(item))),
{
    let sorted = sort_flows(items);
    let write = |item: &FlowSnapshot| -> (r: String)
        ensures
            r@ == flow_json(*item)
    {
        write_flow_json(item)
    };
    let ghost written = |item: FlowSnapshot| flow_json(item);
    let parts = text::each(sorted.as_slice(), write, Ghost(written));
    text::join(parts.as_slice(), ",")
}

fn list_processes(items: &Vec<ProcessSnapshot>) -> (out: String)
    ensures
        out@ == listed(sorted_processes(items@).map_values(|item: ProcessSnapshot| process_json(item))),
{
    let sorted = sort_processes(items);
    let write = |item: &ProcessSnapshot| -> (r: String)
        ensures
            r@ == process_json(*item)
    {
        write_process_json(item)
    };
    let ghost written = |item: ProcessSnapshot| process_json(item);
    let parts = text::each(sorted.as_slice(), write, Ghost(written));
    text::join(parts.as_slice(), ",")
}

fn list_connections(
    items: &Vec<ConnectionSnapshot>,
    details: &Vec<ConnectionDetailSnapshot>,
) -> (out: String)
    ensures
        out@ == listed(
            sorted_connections(items@).map_values(
                |item: ConnectionSnapshot| connection_json(item, details@),
            ),
        ),
{
    let sorted = sort_connections(items);
    let write = |item: &ConnectionSnapshot| -> (r: String)
        ensures
            r@ == connection_json(*item, details@)
    {
        write_connection_json(item, details)
    };
    let ghost written = |item: ConnectionSnapshot| connection_json(item, details@);
    let parts = text::each(sorted.as_slice(), write, Ghost(written));
    text::join(parts.as_slice(), ",")
}

/// A bucket of the curve in JSON.
pub open spec fn bucket_json(bucket: TrafficBucket) -> Seq<char> {
    "{\"start_unix_nanos\":"@
        + text::decimal(bucket.start_unix_nanos as nat)
        + ",\"send_bytes\":"@
        + text::decimal(bucket.send_bytes as nat)
        + ",\"receive_bytes\":"@
        + text::decimal(bucket.receive_bytes as nat)
        + "}"@
}

fn write_bucket_json(bucket: &TrafficBucket) -> (out: String)
    ensures
        out@ == bucket_json(*bucket),
{
    let mut out = "{\"start_unix_nanos\":".to_owned();
    text::put_number(&mut out, bucket.start_unix_nanos);
    out.append(",\"send_bytes\":");
    text::put_number(&mut out, bucket.send_bytes);
    out.append(",\"receive_bytes\":");
    text::put_number(&mut out, bucket.receive_bytes);
    out.append("}");
    out
}

/// The traffic of a process in JSON.
pub open spec fn traffic_json(process: ProcessTrafficSnapshot) -> Seq<char> {
    "{\"pid\":"@
        + text::decimal(process.pid as nat)
        + ",\"process_started_at_unix_nanos\":"@
        + text::decimal(started_at(process.process_key) as nat)
        + ",\"name\":"@
        + quoting::json_optional(text::optional(process.name))
        + ",\"image_path\":"@
        + quoting::json_optional(text::optional(process.image_path))
        + ",\"icon_status\":"@
        + quoting::json_string(icon_name(process.icon))
        + ",\"send_bytes_total\":"@
        + text::decimal(process.send_bytes_total as nat)
        + ",\"receive_bytes_total\":"@
        + text::decimal(process.receive_bytes_total as nat)
        + ",\"send_bytes_per_second\":"@
        + text::decimal(process.send_bytes_per_second as nat)
        + ",\"receive_bytes_per_second\":"@
        + text::decimal(process.receive_bytes_per_second as nat)
        + ",\"connection_count\":"@
        + text::decimal(process.connection_count as nat)
        + ",\"last_timestamp_unix_nanos\":"@
        + text::decimal(process.last_timestamp_unix_nanos as nat)
        + "}"@
}

fn write_traffic_json(process: &ProcessTrafficSnapshot) -> (out: String)
    ensures
        out@ == traffic_json(*process),
{
    let mut out = "{\"pid\":".to_owned();
    text::put_number(&mut out, process.pid as u64);
    out.append(",\"process_started_at_unix_nanos\":");
    text::put_number(&mut out, start_of(process.process_key));
    out.append(",\"name\":");
    quoting::put_json_optional(&mut out, &process.name);
    out.append(",\"image_path\":");
    quoting::put_json_optional(&mut out, &process.image_path);
    out.append(",\"icon_status\":");
    quoting::put_json(&mut out, icon_status(&process.icon));
    out.append(",\"send_bytes_total\":");
    text::put_number(&mut out, process.send_bytes_total);
    out.append(",\"receive_bytes_total\":");
    text::put_number(&mut out, process.receive_bytes_total);
    out.append(",\"send_bytes_per_second\":");
    text::put_number(&mut out, process.send_bytes_per_second);
    out.append(",\"receive_bytes_per_second\":");
    text::put_number(&mut out, process.receive_bytes_per_second);
    out.append(",\"connection_count\":");
    text::put_number(&mut out, process.connection_count as u64);
    out.append(",\"last_timestamp_unix_nanos\":");
    text::put_number(&mut out, process.last_timestamp_unix_nanos);
    out.append("}");
    out
}

/// A flow in JSON.
pub open spec fn flow_json(flow: FlowSnapshot) -> Seq<char> {
    "{\"pid\":"@
        + text::decimal(flow.key.pid as nat)
        + ",\"process_started_at_unix_nanos\":"@
        + text::decimal(started_at(flow.process_key) as nat)
        + ",\"protocol\":"@
        + quoting::json_string(protocol_name(flow.key.protocol))
        + ",\"direction\":"@
        + quoting::json_string(direction_name(flow.key.direction))
        + ",\"source\":"@
        + quoting::json_string(address::socket_text(flow.key.source))
        + ",\"destination\":"@
        + quoting::json_string(address::socket_text(flow.key.destination))
        + ",\"events\":"@
        + text::decimal(flow.events as nat)
        + ",\"bytes\":"@
        + text::decimal(flow.bytes as nat)
        + ",\"first_timestamp_unix_nanos\":"@
        + text::decimal(flow.first_timestamp_unix_nanos as nat)
        + ",\"last_timestamp_unix_nanos\":"@
        + text::decimal(flow.last_timestamp_unix_nanos as nat)
        + "}"@
}

fn write_flow_json(flow: &FlowSnapshot) -> (out: String)
    ensures
        out@ == flow_json(*flow),
{
    let mut out = "{\"pid\":".to_owned();
    text::put_number(&mut out, flow.key.pid as u64);
    out.append(",\"process_started_at_unix_nanos\":");
    text::put_number(&mut out, start_of(flow.process_key));
    out.append(",\"protocol\":");
    quoting::put_json(&mut out, protocol(flow.key.protocol));
    out.append(",\"direction\":");
    quoting::put_json(&mut out, direction(flow.key.direction));
    out.append(",\"source\":");
    quoting::put_json(&mut out, flow.key.source.text().as_str());
    out.append(",\"destination\":");
    quoting::put_json(&mut out, flow.key.destination.text().as_str());
    out.append(",\"events\":");
    text::put_number(&mut out, flow.events);
    out.append(",\"bytes\":");
    text::put_number(&mut out, flow.bytes);
    out.append(",\"first_timestamp_unix_nanos\":");
    text::put_number(&mut out, flow.first_timestamp_unix_nanos);
    out.append(",\"last_timestamp_unix_nanos\":");
    text::put_number(&mut out, flow.last_timestamp_unix_nanos);
    out.append("}");
    out
}

/// A process in JSON.
pub open spec fn process_json(process: ProcessSnapshot) -> Seq<char> {
    "{\"pid\":"@
        + text::decimal(process.key.pid as nat)
        + ",\"started_at_unix_nanos\":"@
        + text::decimal(process.key.started_at_unix_nanos as nat)
        + ",\"name\":"@
        + quoting::json_string(process.name@)
        + ",\"image_path\":"@
        + quoting::json_optional(text::optional(process.image_path))
        + ",\"icon_status\":"@
        + quoting::json_string(icon_name(process.icon))
        + "}"@
}

fn write_process_json(process: &ProcessSnapshot) -> (out: String)
    ensures
        out@ == process_json(*process),
{
    let mut out = "{\"pid\":".to_owned();
    text::put_number(&mut out, process.key.pid as u64);
    out.append(",\"started_at_unix_nanos\":");
    text::put_number(&mut out, process.key.started_at_unix_nanos);
    out.append(",\"name\":");
    quoting::put_json(&mut out, process.name.as_str());
    out.append(",\"image_path\":");
    quoting::put_json_optional(&mut out, &process.image_path);
    out.append(",\"icon_status\":");
    quoting::put_json(&mut out, icon_status(&process.icon));
    out.append("}");
    out
}

/// A connection in JSON, with the name and the image of its process as its detail has them.
pub open spec fn connection_json(
    connection: ConnectionSnapshot,
    details: Seq<ConnectionDetailSnapshot>,
) -> Seq<char> {
    "{\"pid\":"@
        + text::decimal(connection.pid as nat)
        + ",\"process_started_at_unix_nanos\":"@
        + text::decimal(started_at(connection.process_key) as nat)
        + ",\"protocol\":"@
        + quoting::json_string(protocol_name(connection.protocol))
        + ",\"local\":"@
        + quoting::json_string(address::socket_text(connection.local))
        + ",\"remote\":"@
        + quoting::json_optional(remote_text(connection.remote))
        + ",\"tcp_state\":"@
        + quoting::json_optional(state_text(connection.tcp_state))
        + ",\"process_name\":"@
        + quoting::json_optional(detail_name(details, connection))
        + ",\"process_image_path\":"@
        + quoting::json_optional(detail_path(details, connection))
        + "}"@
}

fn write_connection_json(
    connection: &ConnectionSnapshot,
    details: &Vec<ConnectionDetailSnapshot>,
) -> (out: String)
    ensures
        out@ == connection_json(*connection, details@),
{
    let mut out = "{\"pid\":".to_owned();
    text::put_number(&mut out, connection.pid as u64);
    out.append(",\"process_started_at_unix_nanos\":");
    text::put_number(&mut out, start_of(connection.process_key));
    out.append(",\"protocol\":");
    quoting::put_json(&mut out, protocol(connection.protocol));
    out.append(",\"local\":");
    quoting::put_json(&mut out, connection.local.text().as_str());
    out.append(",\"remote\":");
    quoting::put_json_optional(&mut out, &remote_string(connection.remote));
    out.append(",\"tcp_state\":");
    quoting::put_json_optional(&mut out, &state_string(connection.tcp_state));
    out.append(",\"process_name\":");
    quoting::put_json_optional(&mut out, &find_name(details, connection));
    out.append(",\"process_image_path\":");
    quoting::put_json_optional(&mut out, &find_path(details, connection));
    out.append("}");
    out
}

/// The counts of events and the head of the curve in JSON.
pub open spec fn counts_json(snapshot: ApplicationSnapshot) -> Seq<char> {
    ",\n  \"events\": {\"received\": "@
        + text::decimal(snapshot.events_received as nat)
        + ", \"accepted\": "@
        + text::decimal(snapshot.events_accepted as nat)
        + ", \"processed\": "@
        + text::decimal(snapshot.events_processed as nat)
        + ", \"dropped_full\": "@
        + text::decimal(snapshot.events_dropped_full as nat)
        + ", \"dropped_stopped\": "@
        + text::decimal(snapshot.events_dropped_stopped as nat)
        + "},\n  \"curve\": {\n    \"bucket_width_nanos\": "@
        + text::decimal(snapshot.curve.bucket_width_nanos as nat)
        + ", \"maximum_buckets\": "@
        + text::decimal(snapshot.curve.maximum_buckets as nat)
        + ", \"events_received\": "@
        + text::decimal(snapshot.curve.events_received as nat)
        + ", \"events_accepted\": "@
        + text::decimal(snapshot.curve.events_accepted as nat)
        + ", \"events_late_dropped\": "@
        + text::decimal(snapshot.curve.events_late_dropped as nat)
        + ", \"bytes_received\": "@
        + text::decimal(snapshot.curve.bytes_received as nat)
        + ", \"bytes_accepted\": "@
        + text::decimal(snapshot.curve.bytes_accepted as nat)
        + ", \"bytes_late_dropped\": "@
        + text::decimal(snapshot.curve.bytes_late_dropped as nat)
        + ",\n    \"buckets\": ["@
}

fn write_counts_json(snapshot: &ApplicationSnapshot) -> (out: String)
    ensures
        out@ == counts_json(*snapshot),
{
    let mut out = ",\n  \"events\": {\"received\": ".to_owned();
    text::put_number(&mut out, snapshot.events_received);
    out.append(", \"accepted\": ");
    text::put_number(&mut out, snapshot.events_accepted);
    out.append(", \"processed\": ");
    text::put_number(&mut out, snapshot.events_processed);
    out.append(", \"dropped_full\": ");
    text::put_number(&mut out, snapshot.events_dropped_full);
    out.append(", \"dropped_stopped\": ");
    text::put_number(&mut out, snapshot.events_dropped_stopped);
    out.append("},\n  \"curve\": {\n    \"bucket_width_nanos\": ");
    text::put_number(&mut out, snapshot.curve.bucket_width_nanos);
    out.append(", \"maximum_buckets\": ");
    text::put_number(&mut out, snapshot.curve.maximum_buckets as u64);
    out.append(", \"events_received\": ");
    text::put_number(&mut out, snapshot.curve.events_received);
    out.append(", \"events_accepted\": ");
    text::put_number(&mut out, snapshot.curve.events_accepted);
    out.append(", \"events_late_dropped\": ");
    text::put_number(&mut out, snapshot.curve.events_late_dropped);
    out.append(", \"bytes_received\": ");
    text::put_number(&mut out, snapshot.curve.bytes_received);
    out.append(", \"bytes_accepted\": ");
    text::put_number(&mut out, snapshot.curve.bytes_accepted);
    out.append(", \"bytes_late_dropped\": ");
    text::put_number(&mut out, snapshot.curve.bytes_late_dropped);
    out.append(",\n    \"buckets\": [");
    out
}

/// The rate of the network in JSON.
pub open spec fn rate_json(rate: NetworkRateSnapshot) -> Seq<char> {
    "]\n  },\n  \"network_rate\": {\"sampled_at_unix_nanos\":"@
        + text::decimal(rate.sampled_at_unix_nanos as nat)
        + ",\"interval_nanos\":"@
        + text::decimal(rate.interval_nanos as nat)
        + ",\"send_bytes_per_second\":"@
        + text::decimal(rate.send_bytes_per_second as nat)
        + ",\"receive_bytes_per_second\":"@
        + text::decimal(rate.receive_bytes_per_second as nat)
        + "},\n  \"recent_60_seconds\": ["@
}

fn write_rate_json(rate: &NetworkRateSnapshot) -> (out: String)
    ensures
        out@ == rate_json(*rate),
{
    let mut out = "]\n  },\n  \"network_rate\": {\"sampled_at_unix_nanos\":".to_owned();
    text::put_number(&mut out, rate.sampled_at_unix_nanos);
    out.append(",\"interval_nanos\":");
    text::put_number(&mut out, rate.interval_nanos);
    out.append(",\"send_bytes_per_second\":");
    text::put_number(&mut out, rate.send_bytes_per_second);
    out.append(",\"receive_bytes_per_second\":");
    text::put_number(&mut out, rate.receive_bytes_per_second);
    out.append("},\n  \"recent_60_seconds\": [");
    out
}

/// The processes and connections of the system in JSON.
pub open spec fn system_json(
    system: SystemView,
    details: Seq<ConnectionDetailSnapshot>,
) -> Seq<char> {
    "{\"captured_at_unix_nanos\":"@
        + text::decimal(system.captured_at as nat)
        + ",\"processes\":["@
        + listed(
        sorted_processes(system.processes).map_values(
            |process: ProcessSnapshot| process_json(process),
        ),
    )
        + "],\"connections\":["@
        + listed(
        sorted_connections(system.connections).map_values(
            |connection: ConnectionSnapshot| connection_json(connection, details),
        ),
    )
        + "]}"@
}

fn write_system_json(
    system: &SystemSnapshot,
    details: &Vec<ConnectionDetailSnapshot>,
) -> (out: String)
    ensures
        out@ == system_json(system@, details@),
{
    let mut out = "{\"captured_at_unix_nanos\":".to_owned();
    text::put_number(&mut out, system.captured_at_unix_nanos);
    out.append(",\"processes\":[");
    out.append(list_processes(&system.processes).as_str());
    out.append("],\"connections\":[");
    out.append(list_connections(&system.connections, details).as_str());
    out.append("]}");
    out
}

/// A snapshot in JSON.
pub open spec fn snapshot_json(snapshot: ApplicationSnapshot) -> Seq<char> {
    "{\n  \"running\": "@
        + truth_text(snapshot.running)
        + ",\n  \"capture_status\": "@
        + quoting::json_string(status_name(snapshot.capture_status))
        + ",\n  \"capture_restriction\": "@
        + quoting::json_string(restriction_name(snapshot.capture_status))
        + counts_json(snapshot)
        + listed(snapshot.curve.buckets@.map_values(|bucket: TrafficBucket| bucket_json(bucket)))
        + rate_json(snapshot.network_rate)
        + listed(snapshot.recent_60_seconds.buckets@.map_values(|bucket: TrafficBucket| bucket_json(bucket)))
        + "],\n  \"process_traffic\": ["@
        + listed(
        snapshot.process_traffic@.map_values(
            |process: ProcessTrafficSnapshot| traffic_json(process),
        ),
    )
        + "],\n  \"flows\": ["@
        + listed(sorted_flows(snapshot.flows@).map_values(|flow: FlowSnapshot| flow_json(flow)))
        + "],\n  \"system\": "@
        + (match snapshot.system { Some(system) => system_json(system@, snapshot.connection_details@), None => "null"@ })
        + "\n}\n"@
}

/// A snapshot in JSON. Equal snapshots give equal text.
pub fn render_snapshot_json(snapshot: &ApplicationSnapshot) -> (out: String)
    ensures
        out@ == snapshot_json(*snapshot),
{
    let mut out = "{\n  \"running\": ".to_owned();
    out.append(truth(snapshot.running));
    out.append(",\n  \"capture_status\": ");
    quoting::put_json(&mut out, capture_labels(snapshot.capture_status).0);
    out.append(",\n  \"capture_restriction\": ");
    quoting::put_json(&mut out, capture_labels(snapshot.capture_status).1);
    out.append(write_counts_json(snapshot).as_str());
    out.append(list_buckets(&snapshot.curve.buckets).as_str());
    out.append(write_rate_json(&snapshot.network_rate).as_str());
    out.append(list_buckets(&snapshot.recent_60_seconds.buckets).as_str());
    out.append("],\n  \"process_traffic\": [");
    out.append(list_traffic(&snapshot.process_traffic).as_str());
    out.append("],\n  \"flows\": [");
    out.append(list_flows(&snapshot.flows).as_str());
    out.append("],\n  \"system\": ");
    out.append(system_text(&snapshot.system, &snapshot.connection_details).as_str());
    out.append("\n}\n");
    out
}

/// The fields of a flow.
pub open spec fn flow_fields(flow: FlowSnapshot) -> Seq<Seq<char>> {
    seq![
        "flow"@,
        text::decimal(flow.key.pid as nat),
        text::decimal(started_at(flow.process_key) as nat),
        protocol_name(flow.key.protocol),
        direction_name(flow.key.direction),
        address::socket_text(flow.key.source),
        address::socket_text(flow.key.destination),
        ""@,
        ""@,
        ""@,
        ""@,
        ""@,
        ""@,
        text::decimal(flow.events as nat),
        text::decimal(flow.bytes as nat),
    ]
}

fn write_flow_row(flow: &FlowSnapshot) -> (row: String)
    ensures
        row@ == quoting::csv_row(flow_fields(*flow)),
{
    let mut fields: Vec<String> = Vec::new();
    fields.push("flow".to_owned());
    fields.push(text::decimal_text(flow.key.pid as u64));
    fields.push(text::decimal_text(start_of(flow.process_key)));
    fields.push(protocol(flow.key.protocol).to_owned());
    fields.push(direction(flow.key.direction).to_owned());
    fields.push(flow.key.source.text());
    fields.push(flow.key.destination.text());
    fields.push("".to_owned());
    fields.push("".to_owned());
    fields.push("".to_owned());
    fields.push("".to_owned());
    fields.push("".to_owned());
    fields.push("".to_owned());
    fields.push(text::decimal_text(flow.events));
    fields.push(text::decimal_text(flow.bytes));
    assert(text::texts(fields@) =~= flow_fields(*flow));
    quoting::write_csv_row(&fields)
}

/// The fields of a bucket of the curve.
pub open spec fn curve_fields(bucket: TrafficBucket) -> Seq<Seq<char>> {
    seq![
        "curve"@,
        ""@,
        ""@,
        ""@,
        ""@,
        ""@,
        ""@,
        ""@,
        ""@,
        ""@,
        text::decimal(bucket.start_unix_nanos as nat),
        text::decimal(bucket.send_bytes as nat),
        text::decimal(bucket.receive_bytes as nat),
        ""@,
        ""@,
    ]
}

fn write_curve_row(bucket: &TrafficBucket) -> (row: String)
    ensures
        row@ == quoting::csv_row(curve_fields(*bucket)),
{
    let mut fields: Vec<String> = Vec::new();
    fields.push("curve".to_owned());
    fields.push("".to_owned());
    fields.push("".to_owned());
    fields.push("".to_owned());
    fields.push("".to_owned());
    fields.push("".to_owned());
    fields.push("".to_owned());
    fields.push("".to_owned());
    fields.push("".to_owned());
    fields.push("".to_owned());
    fields.push(text::decimal_text(bucket.start_unix_nanos));
    fields.push(text::decimal_text(bucket.send_bytes));
    fields.push(text::decimal_text(bucket.receive_bytes));
    fields.push("".to_owned());
    fields.push("".to_owned());
    assert(text::texts(fields@) =~= curve_fields(*bucket));
    quoting::write_csv_row(&fields)
}

/// The fields of the rate of the network.
pub open spec fn rate_fields(rate: NetworkRateSnapshot) -> Seq<Seq<char>> {
    seq![
        "network_rate"@,
        ""@,
        ""@,
        ""@,
        ""@,
        ""@,
        ""@,
        ""@,
        ""@,
        ""@,
        text::decimal(rate.sampled_at_unix_nanos as nat),
        text::decimal(rate.send_bytes_per_second as nat),
        text::decimal(rate.receive_bytes_per_second as nat),
        ""@,
        text::decimal(rate.interval_nanos as nat),
    ]
}

fn write_rate_row(rate: &NetworkRateSnapshot) -> (row: String)
    ensures
        row@ == quoting::csv_row(rate_fields(*rate)),
{
    let mut fields: Vec<String> = Vec::new();
    fields.push("network_rate".to_owned());
    fields.push("".to_owned());
    fields.push("".to_owned());
    fields.push("".to_owned());
    fields.push("".to_owned());
    fields.push("".to_owned());
    fields.push("".to_owned());
    fields.push("".to_owned());
    fields.push("".to_owned());
    fields.push("".to_owned());
    fields.push(text::decimal_text(rate.sampled_at_unix_nanos));
    fields.push(text::decimal_text(rate.send_bytes_per_second));
    fields.push(text::decimal_text(rate.receive_bytes_per_second));
    fields.push("".to_owned());
    fields.push(text::decimal_text(rate.interval_nanos));
    assert(text::texts(fields@) =~= rate_fields(*rate));
    quoting::write_csv_row(&fields)
}

/// The fields of a recent bucket of the curve.
pub open spec fn recent_fields(bucket: TrafficBucket) -> Seq<Seq<char>> {
    seq![
        "recent_curve"@,
        ""@,
        ""@,
        ""@,
        ""@,
        ""@,
        ""@,
        ""@,
        ""@,
        ""@,
        text::decimal(bucket.start_unix_nanos as nat),
        text::decimal(bucket.send_bytes as nat),
        text::decimal(bucket.receive_bytes as nat),
        ""@,
        ""@,
    ]
}

fn write_recent_row(bucket: &TrafficBucket) -> (row: String)
    ensures
        row@ == quoting::csv_row(recent_fields(*bucket)),
{
    let mut fields: Vec<String> = Vec::new();
    fields.push("recent_curve".to_owned());
    fields.push("".to_owned());
    fields.push("".to_owned());
    fields.push("".to_owned());
    fields.push("".to_owned());
    fields.push("".to_owned());
    fields.push("".to_owned());
    fields.push("".to_owned());
    fields.push("".to_owned());
    fields.push("".to_owned());
    fields.push(text::decimal_text(bucket.start_unix_nanos));
    fields.push(text::decimal_text(bucket.send_bytes));
    fields.push(text::decimal_text(bucket.receive_bytes));
    fields.push("".to_owned());
    fields.push("".to_owned());
    assert(text::texts(fields@) =~= recent_fields(*bucket));
    quoting::write_csv_row(&fields)
}

/// The fields of the traffic of a process.
pub open spec fn traffic_fields(process: ProcessTrafficSnapshot) -> Seq<Seq<char>> {
    seq![
        "process_traffic"@,
        text::decimal(process.pid as nat),
        text::decimal(started_at(process.process_key) as nat),
        ""@,
        ""@,
        ""@,
        ""@,
        icon_name(process.icon),
        text::text_or_none(text::optional(process.name)),
        text::text_or_none(text::optional(process.image_path)),
        text::decimal(process.last_timestamp_unix_nanos as nat),
        text::decimal(process.send_bytes_per_second as nat),
        text::decimal(process.receive_bytes_per_second as nat),
        text::decimal(process.send_bytes_total as nat),
        text::decimal(process.receive_bytes_total as nat),
    ]
}

fn write_traffic_row(process: &ProcessTrafficSnapshot) -> (row: String)
    ensures
        row@ == quoting::csv_row(traffic_fields(*process)),
{
    let mut fields: Vec<String> = Vec::new();
    fields.push("process_traffic".to_owned());
    fields.push(text::decimal_text(process.pid as u64));
    fields.push(text::decimal_text(start_of(process.process_key)));
    fields.push("".to_owned());
    fields.push("".to_owned());
    fields.push("".to_owned());
    fields.push("".to_owned());
    fields.push(icon_status(&process.icon).to_owned());
    fields.push(text::or_empty(&process.name));
    fields.push(text::or_empty(&process.image_path));
    fields.push(text::decimal_text(process.last_timestamp_unix_nanos));
    fields.push(text::decimal_text(process.send_bytes_per_second));
    fields.push(text::decimal_text(process.receive_bytes_per_second));
    fields.push(text::decimal_text(process.send_bytes_total));
    fields.push(text::decimal_text(process.receive_bytes_total));
    assert(text::texts(fields@) =~= traffic_fields(*process));
    quoting::write_csv_row(&fields)
}

/// The fields of a process.
pub open spec fn process_fields(process: ProcessSnapshot) -> Seq<Seq<char>> {
    seq![
        "process"@,
        text::decimal(process.key.pid as nat),
        text::decimal(process.key.started_at_unix_nanos as nat),
        ""@,
        ""@,
        ""@,
        ""@,
        icon_name(process.icon),
        process.name@,
        text::text_or_none(text::optional(process.image_path)),
        ""@,
        ""@,
        ""@,
        ""@,
        ""@,
    ]
}

fn write_process_row(process: &ProcessSnapshot) -> (row: String)
    ensures
        row@ == quoting::csv_row(process_fields(*process)),
{
    let mut fields: Vec<String> = Vec::new();
    fields.push("process".to_owned());
    fields.push(text::decimal_text(process.key.pid as u64));
    fields.push(text::decimal_text(process.key.started_at_unix_nanos));
    fields.push("".to_owned());
    fields.push("".to_owned());
    fields.push("".to_owned());
    fields.push("".to_owned());
    fields.push(icon_status(&process.icon).to_owned());
    fields.push(process.name.clone());
    fields.push(text::or_empty(&process.image_path));
    fields.push("".to_owned());
    fields.push("".to_owned());
    fields.push("".to_owned());
    fields.push("".to_owned());
    fields.push("".to_owned());
    assert(text::texts(fields@) =~= process_fields(*process));
    quoting::write_csv_row(&fields)
}

/// The fields of a connection, with the name and the image of its process as its detail has them.
pub open spec fn connection_fields(
    connection: ConnectionSnapshot,
    details: Seq<ConnectionDetailSnapshot>,
) -> Seq<Seq<char>> {
    seq![
        "connection"@,
        text::decimal(connection.pid as nat),
        text::decimal(started_at(connection.process_key) as nat),
        protocol_name(connection.protocol),
        ""@,
        address::socket_text(connection.local),
        text::text_or_none(remote_text(connection.remote)),
        text::text_or_none(state_text(connection.tcp_state)),
        text::text_or_none(detail_name(details, connection)),
        text::text_or_none(detail_path(details, connection)),
        ""@,
        ""@,
        ""@,
        ""@,
        ""@,
    ]
}

fn write_connection_row(
    connection: &ConnectionSnapshot,
    details: &Vec<ConnectionDetailSnapshot>,
) -> (row: String)
    ensures
        row@ == quoting::csv_row(connection_fields(*connection, details@)),
{
    let mut fields: Vec<String> = Vec::new();
    fields.push("connection".to_owned());
    fields.push(text::decimal_text(connection.pid as u64));
    fields.push(text::decimal_text(start_of(connection.process_key)));
    fields.push(protocol(connection.protocol).to_owned());
    fields.push("".to_owned());
    fields.push(connection.local.text());
    fields.push(text::or_empty(&remote_string(connection.remote)));
    fields.push(text::or_empty(&state_string(connection.tcp_state)));
    fields.push(text::or_empty(&find_name(details, connection)));
    fields.push(text::or_empty(&find_path(details, connection)));
    fields.push("".to_owned());
    fields.push("".to_owned());
    fields.push("".to_owned());
    fields.push("".to_owned());
    fields.push("".to_owned());
    assert(text::texts(fields@) =~= connection_fields(*connection, details@));
    quoting::write_csv_row(&fields)
}

fn put_flow_rows(out: &mut String, items: &Vec<FlowSnapshot>)
    ensures
        final(out)@ == old(out)@ + text::flat(
            sorted_flows(items@).map_values(|item: FlowSnapshot| quoting::csv_row(flow_fields(item))),
        ),
{
    let sorted = sort_flows(items);
    let write = |item: &FlowSnapshot| -> (r: String)
        ensures
            r@ == quoting::csv_row(flow_fields(*item))
    {
        write_flow_row(item)
    };
    let ghost written = |item: FlowSnapshot| quoting::csv_row(flow_fields(item));
    let parts = text::each(sorted.as_slice(), write, Ghost(written));
    text::put_all(out, &parts);
}

fn put_curve_rows(out: &mut String, items: &Vec<TrafficBucket>)
    ensures
        final(out)@ == old(out)@ + text::flat(
            items@.map_values(|item: TrafficBucket| quoting::csv_row(curve_fields(item))),
        ),
{
    let write = |item: &TrafficBucket| -> (r: String)
        ensures
            r@ == quoting::csv_row(curve_fields(*item))
    {
        write_curve_row(item)
    };
    let ghost written = |item: TrafficBucket| quoting::csv_row(curve_fields(item));
    let parts = text::each(items.as_slice(), write, Ghost(written));
    text::put_all(out, &parts);
}

fn put_recent_rows(out: &mut String, items: &Vec<TrafficBucket>)
    ensures
        final(out)@ == old(out)@ + text::flat(
            items@.map_values(|item: TrafficBucket| quoting::csv_row(recent_fields(item))),
        ),
{
    let write = |item: &TrafficBucket| -> (r: String)
        ensures
            r@ == quoting::csv_row(recent_fields(*item))
    {
        write_recent_row(item)
    };
    let ghost written = |item: TrafficBucket| quoting::csv_row(recent_fields(item));
    let parts = text::each(items.as_slice(), write, Ghost(written));
    text::put_all(out, &parts);
}

fn put_traffic_rows(out: &mut String, items: &Vec<ProcessTrafficSnapshot>)
    ensures
        final(out)@ == old(out)@ + text::flat(
            items@.map_values(|item: ProcessTrafficSnapshot| quoting::csv_row(traffic_fields(item))),
        ),
{
    let write = |item: &ProcessTrafficSnapshot| -> (r: String)
        ensures
            r@ == quoting::csv_row(traffic_fields(*item))
    {
        write_traffic_row(item)
    };
    let ghost written = |item: ProcessTrafficSnapshot| quoting::csv_row(traffic_fields(item));
    let parts = text::each(items.as_slice(), write, Ghost(written));
    text::put_all(out, &parts);
}

fn put_process_rows(out: &mut String, items: &Vec<ProcessSnapshot>)
    ensures
        final(out)@ == old(out)@ + text::flat(
            sorted_processes(items@).map_values(
                |item: ProcessSnapshot| quoting::csv_row(process_fields(item)),
            ),
        ),
{
    let sorted = sort_processes(items);
    let write = |item: &ProcessSnapshot| -> (r: String)
        ensures
            r@ == quoting::csv_row(process_fields(*item))
    {
        write_process_row(item)
    };
    let ghost written = |item: ProcessSnapshot| quoting::csv_row(process_fields(item));
    let parts = text::each(sorted.as_slice(), write, Ghost(written));
    text::put_all(out, &parts);
}

fn put_connection_rows(
    out: &mut String,
    items: &Vec<ConnectionSnapshot>,
    details: &Vec<ConnectionDetailSnapshot>,
)
    ensures
        final(out)@ == old(out)@ + text::flat(
            sorted_connections(items@).map_values(
                |item: ConnectionSnapshot| quoting::csv_row(connection_fields(item, details@)),
            ),
        ),
{
    let sorted = sort_connections(items);
    let write = |item: &ConnectionSnapshot| -> (r: String)
        ensures
            r@ == quoting::csv_row(connection_fields(*item, details@))
    {
        write_connection_row(item, details)
    };
    let ghost written = |item: ConnectionSnapshot| quoting::csv_row(connection_fields(item, details@));
    let parts = text::each(sorted.as_slice(), write, Ghost(written));
    text::put_all(out, &parts);
}

/// The names of the fields.
pub open spec fn csv_heading() -> Seq<char> {
    "record_type,pid,process_started_at_unix_nanos,protocol,direction,local,remote,state,name,image_path,start_unix_nanos,send_bytes,receive_bytes,events,bytes\r\n"@
}

/// The rows of the system.
pub open spec fn system_rows(
    system: SystemView,
    details: Seq<ConnectionDetailSnapshot>,
) -> Seq<char> {
    text::flat(
        sorted_processes(system.processes).map_values(
            |item: ProcessSnapshot| quoting::csv_row(process_fields(item)),
        ),
    ) + text::flat(
        sorted_connections(system.connections).map_values(
            |item: ConnectionSnapshot| quoting::csv_row(connection_fields(item, details)),
        ),
    )
}

/// A snapshot in CSV.
pub open spec fn snapshot_csv(snapshot: ApplicationSnapshot) -> Seq<char> {
    csv_heading() + text::flat(
        sorted_flows(snapshot.flows@).map_values(
            |item: FlowSnapshot| quoting::csv_row(flow_fields(item)),
        ),
    ) + text::flat(
        snapshot.curve.buckets@.map_values(
            |item: TrafficBucket| quoting::csv_row(curve_fields(item)),
        ),
    ) + quoting::csv_row(rate_fields(snapshot.network_rate)) + text::flat(
        snapshot.recent_60_seconds.buckets@.map_values(
            |item: TrafficBucket| quoting::csv_row(recent_fields(item)),
        ),
    ) + text::flat(
        snapshot.process_traffic@.map_values(
            |item: ProcessTrafficSnapshot| quoting::csv_row(traffic_fields(item)),
        ),
    ) + (match snapshot.system {
        Some(system) => system_rows(system@, snapshot.connection_details@),
        None => Seq::empty(),
    })
}

/// A snapshot in CSV. Equal snapshots give equal text.
pub fn render_snapshot_csv(snapshot: &ApplicationSnapshot) -> (out: String)
    ensures
        out@ == snapshot_csv(*snapshot),
{
    let mut out =
        "record_type,pid,process_started_at_unix_nanos,protocol,direction,local,remote,state,name,image_path,start_unix_nanos,send_bytes,receive_bytes,events,bytes\r\n".to_owned();
    put_flow_rows(&mut out, &snapshot.flows);
    put_curve_rows(&mut out, &snapshot.curve.buckets);
    out.append(write_rate_row(&snapshot.network_rate).as_str());
    put_recent_rows(&mut out, &snapshot.recent_60_seconds.buckets);
    put_traffic_rows(&mut out, &snapshot.process_traffic);
    let ghost before = out@;
    match &snapshot.system {
        Some(system) => {
            put_process_rows(&mut out, &system.processes);
            put_connection_rows(&mut out, &system.connections, &snapshot.connection_details);
            assert(out@ =~= before + system_rows(system@, snapshot.connection_details@));
        },
        None => {
            assert(before + Seq::<char>::empty() =~= before);
        },
    }
    out
}

/// What a connection is listed by: the process, the protocol and the two endpoints.
pub open spec fn connection_place(
    item: ConnectionSnapshot,
) -> ((u32, u32), (SocketAddr, Option<SocketAddr>)) {
    ((item.pid, model::protocol_rank(item.protocol) as u32), (item.local, item.remote))
}

/// Whether no two flows have one key.
pub open spec fn flows_differ(items: Seq<FlowSnapshot>) -> bool {
    forall|i: int, j: int|
        #![trigger items[i], items[j]]
        0 <= i < j < items.len() ==> items[i].key != items[j].key
}

/// Whether no two processes have one key.
pub open spec fn processes_differ(items: Seq<ProcessSnapshot>) -> bool {
    forall|i: int, j: int|
        #![trigger items[i], items[j]]
        0 <= i < j < items.len() ==> items[i].key != items[j].key
}

/// Whether no two connections have one process, protocol and pair of endpoints.
pub open spec fn connections_differ(items: Seq<ConnectionSnapshot>) -> bool {
    forall|i: int, j: int|
        #![trigger items[i], items[j]]
        0 <= i < j < items.len() ==> (items[i].pid, items[i].protocol, items[i].local, items[i].remote)
            != (items[j].pid, items[j].protocol, items[j].local, items[j].remote)
}

/// Whether two snapshots differ in nothing but the order of flows, processes and connections.
pub open spec fn same_but_for_order(a: ApplicationSnapshot, b: ApplicationSnapshot) -> bool {
    &&& b == (ApplicationSnapshot { flows: b.flows, system: b.system, ..a })
    &&& a.flows@.to_multiset() == b.flows@.to_multiset()
    &&& match (a.system, b.system) {
        (Some(x), Some(y)) => {
            &&& x@.captured_at == y@.captured_at
            &&& x@.processes.to_multiset() == y@.processes.to_multiset()
            &&& x@.connections.to_multiset() == y@.connections.to_multiset()
        },
        (None, None) => true,
        _ => false,
    }
}

/// Flows are listed in the order of their keys, each as often as it is there.
pub proof fn law_flows_are_listed_in_order(items: Seq<FlowSnapshot>)
    requires
        items.len() <= usize::MAX,
    ensures
        sorted_flows(items).len() == items.len(),
        sorted_flows(items).to_multiset() == items.to_multiset(),
        forall|i: int, j: int|
            #![trigger sorted_flows(items)[i], sorted_flows(items)[j]]
            0 <= i < j < items.len() ==> FlowKey::before(
                sorted_flows(items)[i].key,
                sorted_flows(items)[j].key,
            ) || sorted_flows(items)[i].key == sorted_flows(items)[j].key,
{
    let key = |item: FlowSnapshot| item.key;
    ordered::law_rows_are_put_in_order::<FlowKey, FlowSnapshot>(items, key);
    assert(sorted_flows(items) =~= ordered::by_key::<FlowKey, FlowSnapshot>(items, key));
}

/// Processes are listed by number and start, each as often as it is there.
pub proof fn law_processes_are_listed_in_order(items: Seq<ProcessSnapshot>)
    requires
        items.len() <= usize::MAX,
    ensures
        sorted_processes(items).len() == items.len(),
        sorted_processes(items).to_multiset() == items.to_multiset(),
        forall|i: int, j: int|
            #![trigger sorted_processes(items)[i], sorted_processes(items)[j]]
            0 <= i < j < items.len() ==> ProcessKey::before(
                sorted_processes(items)[i].key,
                sorted_processes(items)[j].key,
            ) || sorted_processes(items)[i].key == sorted_processes(items)[j].key,
{
    let key = |item: ProcessSnapshot| item.key;
    ordered::law_rows_are_put_in_order::<ProcessKey, ProcessSnapshot>(items, key);
    assert(sorted_processes(items) =~= ordered::by_key::<ProcessKey, ProcessSnapshot>(items, key));
}

/// Connections are listed by process, protocol and endpoints, each as often as it is there.
pub proof fn law_connections_are_listed_in_order(items: Seq<ConnectionSnapshot>)
    requires
        items.len() <= usize::MAX,
    ensures
        sorted_connections(items).len() == items.len(),
        sorted_connections(items).to_multiset() == items.to_multiset(),
        forall|i: int, j: int|
            #![trigger sorted_connections(items)[i], sorted_connections(items)[j]]
            0 <= i < j < items.len() ==> <((u32, u32), (SocketAddr, Option<SocketAddr>)) as
                OrderedKey>::before(
                connection_place(sorted_connections(items)[i]),
                connection_place(sorted_connections(items)[j]),
            ) || connection_place(sorted_connections(items)[i]) == connection_place(
                sorted_connections(items)[j],
            ),
{
    let key = |item: ConnectionSnapshot| connection_place(item);
    ordered::law_rows_are_put_in_order::<
        ((u32, u32), (SocketAddr, Option<SocketAddr>)),
        ConnectionSnapshot,
    >(items, key);
    let sorted = ordered::by_key::<
        ((u32, u32), (SocketAddr, Option<SocketAddr>)),
        ConnectionSnapshot,
    >(items, key);
    assert(sorted_connections_keys(items) =~= items.map_values(key));
    assert(sorted_connections(items) =~= sorted);
}

/// The text of a snapshot, in JSON and in CSV, does not depend on the order in which flows,
/// processes and connections are given.
pub proof fn law_text_does_not_depend_on_order(a: ApplicationSnapshot, b: ApplicationSnapshot)
    requires
        same_but_for_order(a, b),
        flows_differ(a.flows@),
        a.system matches Some(system) ==> processes_differ(system@.processes)
            && connections_differ(system@.connections),
    ensures
        snapshot_json(a) == snapshot_json(b),
        snapshot_csv(a) == snapshot_csv(b),
{
    let flow_key = |item: FlowSnapshot| item.key;
    assert(a.flows@.len() == a.flows.len());
    ordered::law_first_order_does_not_matter::<FlowKey, FlowSnapshot>(a.flows@, b.flows@, flow_key);
    assert(sorted_flows(a.flows@) =~= ordered::by_key::<FlowKey, FlowSnapshot>(a.flows@, flow_key));
    assert(sorted_flows(b.flows@) =~= ordered::by_key::<FlowKey, FlowSnapshot>(b.flows@, flow_key));
    match (a.system, b.system) {
        (Some(x), Some(y)) => {
            assert(x.processes@.len() == x.processes.len());
            assert(x.connections@.len() == x.connections.len());
            lemma_system_lists_agree(x@, y@);
        },
        _ => {},
    }
}

/// Processes and connections come out in one order, whatever order they are in.
proof fn lemma_system_lists_agree(a: SystemView, b: SystemView)
    requires
        a.processes.len() <= usize::MAX,
        a.connections.len() <= usize::MAX,
        a.processes.to_multiset() == b.processes.to_multiset(),
        a.connections.to_multiset() == b.connections.to_multiset(),
        processes_differ(a.processes),
        connections_differ(a.connections),
    ensures
        sorted_processes(a.processes) == sorted_processes(b.processes),
        sorted_connections(a.connections) == sorted_connections(b.connections),
{
    let process_key = |item: ProcessSnapshot| item.key;
    ordered::law_first_order_does_not_matter::<ProcessKey, ProcessSnapshot>(
        a.processes,
        b.processes,
        process_key,
    );
    assert(sorted_processes(a.processes) =~= ordered::by_key::<ProcessKey, ProcessSnapshot>(
        a.processes,
        process_key,
    ));
    assert(sorted_processes(b.processes) =~= ordered::by_key::<ProcessKey, ProcessSnapshot>(
        b.processes,
        process_key,
    ));
    let place = |item: ConnectionSnapshot| connection_place(item);
    assert forall|i: int, j: int|
        #![trigger a.connections[i], a.connections[j]]
        0 <= i < j < a.connections.len() implies place(a.connections[i]) != place(
        a.connections[j],
    ) by {}
    ordered::law_first_order_does_not_matter::<
        ((u32, u32), (SocketAddr, Option<SocketAddr>)),
        ConnectionSnapshot,
    >(a.connections, b.connections, place);
    assert(sorted_connections_keys(a.connections) =~= a.connections.map_values(place));
    assert(sorted_connections_keys(b.connections) =~= b.connections.map_values(place));
    assert(sorted_connections(a.connections) =~= ordered::by_key::<
        ((u32, u32), (SocketAddr, Option<SocketAddr>)),
        ConnectionSnapshot,
    >(a.connections, place));
    assert(sorted_connections(b.connections) =~= ordered::by_key::<
        ((u32, u32), (SocketAddr, Option<SocketAddr>)),
        ConnectionSnapshot,
    >(b.connections, place));
}

/// A bucket of the curve as a reader of the JSON finds it.
#[verifier::opaque]
pub open spec fn bucket_value(bucket: TrafficBucket) -> Json {
    Json::Object(
        seq![
            ("start_unix_nanos"@, Json::Number(bucket.start_unix_nanos as int)),
            ("send_bytes"@, Json::Number(bucket.send_bytes as int)),
            ("receive_bytes"@, Json::Number(bucket.receive_bytes as int)),
        ],
    )
}

/// The traffic of a process as a reader of the JSON finds it.
#[verifier::opaque]
pub open spec fn traffic_value(process: ProcessTrafficSnapshot) -> Json {
    Json::Object(
        seq![
            ("pid"@, Json::Number(process.pid as int)),
            ("process_started_at_unix_nanos"@, Json::Number(started_at(process.process_key) as int)),
            ("name"@, json::text_or_null(text::optional(process.name))),
            ("image_path"@, json::text_or_null(text::optional(process.image_path))),
            ("icon_status"@, Json::Text(icon_name(process.icon))),
            ("send_bytes_total"@, Json::Number(process.send_bytes_total as int)),
            ("receive_bytes_total"@, Json::Number(process.receive_bytes_total as int)),
            ("send_bytes_per_second"@, Json::Number(process.send_bytes_per_second as int)),
            ("receive_bytes_per_second"@, Json::Number(process.receive_bytes_per_second as int)),
            ("connection_count"@, Json::Number(process.connection_count as int)),
            ("last_timestamp_unix_nanos"@, Json::Number(process.last_timestamp_unix_nanos as int)),
        ],
    )
}

/// A flow as a reader of the JSON finds it.
#[verifier::opaque]
pub open spec fn flow_value(flow: FlowSnapshot) -> Json {
    Json::Object(
        seq![
            ("pid"@, Json::Number(flow.key.pid as int)),
            ("process_started_at_unix_nanos"@, Json::Number(started_at(flow.process_key) as int)),
            ("protocol"@, Json::Text(protocol_name(flow.key.protocol))),
            ("direction"@, Json::Text(direction_name(flow.key.direction))),
            ("source"@, Json::Text(address::socket_text(flow.key.source))),
            ("destination"@, Json::Text(address::socket_text(flow.key.destination))),
            ("events"@, Json::Number(flow.events as int)),
            ("bytes"@, Json::Number(flow.bytes as int)),
            ("first_timestamp_unix_nanos"@, Json::Number(flow.first_timestamp_unix_nanos as int)),
            ("last_timestamp_unix_nanos"@, Json::Number(flow.last_timestamp_unix_nanos as int)),
        ],
    )
}

/// A process as a reader of the JSON finds it.
#[verifier::opaque]
pub open spec fn process_value(process: ProcessSnapshot) -> Json {
    Json::Object(
        seq![
            ("pid"@, Json::Number(process.key.pid as int)),
            ("started_at_unix_nanos"@, Json::Number(process.key.started_at_unix_nanos as int)),
            ("name"@, Json::Text(process.name@)),
            ("image_path"@, json::text_or_null(text::optional(process.image_path))),
            ("icon_status"@, Json::Text(icon_name(process.icon))),
        ],
    )
}

/// A connection as a reader of the JSON finds it.
#[verifier::opaque]
pub open spec fn connection_value(connection: ConnectionSnapshot, details: Seq<ConnectionDetailSnapshot>) -> Json {
    Json::Object(
        seq![
            ("pid"@, Json::Number(connection.pid as int)),
            ("process_started_at_unix_nanos"@, Json::Number(started_at(connection.process_key) as int)),
            ("protocol"@, Json::Text(protocol_name(connection.protocol))),
            ("local"@, Json::Text(address::socket_text(connection.local))),
            ("remote"@, json::text_or_null(remote_text(connection.remote))),
            ("tcp_state"@, json::text_or_null(state_text(connection.tcp_state))),
            ("process_name"@, json::text_or_null(detail_name(details, connection))),
            ("process_image_path"@, json::text_or_null(detail_path(details, connection))),
        ],
    )
}

/// The counts of events as a reader of the JSON finds them.
#[verifier::opaque]
pub open spec fn events_value(snapshot: ApplicationSnapshot) -> Json {
    Json::Object(
        seq![
            ("received"@, Json::Number(snapshot.events_received as int)),
            ("accepted"@, Json::Number(snapshot.events_accepted as int)),
            ("processed"@, Json::Number(snapshot.events_processed as int)),
            ("dropped_full"@, Json::Number(snapshot.events_dropped_full as int)),
            ("dropped_stopped"@, Json::Number(snapshot.events_dropped_stopped as int)),
        ],
    )
}

/// The curve as a reader of the JSON finds it.
#[verifier::opaque]
pub open spec fn curve_value(snapshot: ApplicationSnapshot) -> Json {
    Json::Object(
        seq![
            ("bucket_width_nanos"@, Json::Number(snapshot.curve.bucket_width_nanos as int)),
            ("maximum_buckets"@, Json::Number(snapshot.curve.maximum_buckets as int)),
            ("events_received"@, Json::Number(snapshot.curve.events_received as int)),
            ("events_accepted"@, Json::Number(snapshot.curve.events_accepted as int)),
            ("events_late_dropped"@, Json::Number(snapshot.curve.events_late_dropped as int)),
            ("bytes_received"@, Json::Number(snapshot.curve.bytes_received as int)),
            ("bytes_accepted"@, Json::Number(snapshot.curve.bytes_accepted as int)),
            ("bytes_late_dropped"@, Json::Number(snapshot.curve.bytes_late_dropped as int)),
            ("buckets"@, Json::List(
                    snapshot.curve.buckets@.map_values(
                        |bucket: TrafficBucket| bucket_value(bucket),
                    ),
                )),
        ],
    )
}

/// The rate of the network as a reader of the JSON finds it.
#[verifier::opaque]
pub open spec fn rate_value(rate: NetworkRateSnapshot) -> Json {
    Json::Object(
        seq![
            ("sampled_at_unix_nanos"@, Json::Number(rate.sampled_at_unix_nanos as int)),
            ("interval_nanos"@, Json::Number(rate.interval_nanos as int)),
            ("send_bytes_per_second"@, Json::Number(rate.send_bytes_per_second as int)),
            ("receive_bytes_per_second"@, Json::Number(rate.receive_bytes_per_second as int)),
        ],
    )
}

/// The system as a reader of the JSON finds it.
#[verifier::opaque]
pub open spec fn system_value(snapshot: ApplicationSnapshot) -> Json {
    match snapshot.system {
        Some(system) => Json::Object(
            seq![
                ("captured_at_unix_nanos"@, Json::Number(system.captured_at_unix_nanos as int)),
                (
                    "processes"@,
                    Json::List(
                        sorted_processes(system.processes@).map_values(
                            |process: ProcessSnapshot| process_value(process),
                        ),
                    ),
                ),
                (
                    "connections"@,
                    Json::List(
                        sorted_connections(system.connections@).map_values(
                            |connection: ConnectionSnapshot|
                                connection_value(connection, snapshot.connection_details@),
                        ),
                    ),
                ),
            ],
        ),
        None => Json::Null,
    }
}

/// The labels of the members that are written.
proof fn lemma_labels()
    ensures
        json::is_label(",\"receive_bytes\":"@, "receive_bytes"@),
        json::is_label(",\"send_bytes\":"@, "send_bytes"@),
        json::is_label(",\"last_timestamp_unix_nanos\":"@, "last_timestamp_unix_nanos"@),
        json::is_label(",\"connection_count\":"@, "connection_count"@),
        json::is_label(",\"receive_bytes_per_second\":"@, "receive_bytes_per_second"@),
        json::is_label(",\"send_bytes_per_second\":"@, "send_bytes_per_second"@),
        json::is_label(",\"receive_bytes_total\":"@, "receive_bytes_total"@),
        json::is_label(",\"send_bytes_total\":"@, "send_bytes_total"@),
        json::is_label(",\"icon_status\":"@, "icon_status"@),
        json::is_label(",\"image_path\":"@, "image_path"@),
        json::is_label(",\"name\":"@, "name"@),
        json::is_label(",\"process_started_at_unix_nanos\":"@, "process_started_at_unix_nanos"@),
        json::is_label(",\"first_timestamp_unix_nanos\":"@, "first_timestamp_unix_nanos"@),
        json::is_label(",\"bytes\":"@, "bytes"@),
        json::is_label(",\"events\":"@, "events"@),
        json::is_label(",\"destination\":"@, "destination"@),
        json::is_label(",\"source\":"@, "source"@),
        json::is_label(",\"direction\":"@, "direction"@),
        json::is_label(",\"protocol\":"@, "protocol"@),
        json::is_label(",\"started_at_unix_nanos\":"@, "started_at_unix_nanos"@),
        json::is_label(",\"process_image_path\":"@, "process_image_path"@),
        json::is_label(",\"process_name\":"@, "process_name"@),
        json::is_label(",\"tcp_state\":"@, "tcp_state"@),
        json::is_label(",\"remote\":"@, "remote"@),
        json::is_label(",\"local\":"@, "local"@),
        json::is_label(", \"dropped_stopped\": "@, "dropped_stopped"@),
        json::is_label(", \"dropped_full\": "@, "dropped_full"@),
        json::is_label(", \"processed\": "@, "processed"@),
        json::is_label(", \"accepted\": "@, "accepted"@),
        json::is_label(",\n    \"buckets\": "@, "buckets"@),
        json::is_label(", \"bytes_late_dropped\": "@, "bytes_late_dropped"@),
        json::is_label(", \"bytes_accepted\": "@, "bytes_accepted"@),
        json::is_label(", \"bytes_received\": "@, "bytes_received"@),
        json::is_label(", \"events_late_dropped\": "@, "events_late_dropped"@),
        json::is_label(", \"events_accepted\": "@, "events_accepted"@),
        json::is_label(", \"events_received\": "@, "events_received"@),
        json::is_label(", \"maximum_buckets\": "@, "maximum_buckets"@),
        json::is_label(",\"interval_nanos\":"@, "interval_nanos"@),
        json::is_label(",\"connections\":"@, "connections"@),
        json::is_label(",\"processes\":"@, "processes"@),
        json::is_label(",\n  \"system\": "@, "system"@),
        json::is_label(",\n  \"flows\": "@, "flows"@),
        json::is_label(",\n  \"process_traffic\": "@, "process_traffic"@),
        json::is_label(",\n  \"recent_60_seconds\": "@, "recent_60_seconds"@),
        json::is_label(",\n  \"network_rate\": "@, "network_rate"@),
        json::is_label(",\n  \"curve\": "@, "curve"@),
        json::is_label(",\n  \"events\": "@, "events"@),
        json::is_label(",\n  \"capture_restriction\": "@, "capture_restriction"@),
        json::is_label(",\n  \"capture_status\": "@, "capture_status"@),
        json::is_opening("{\"start_unix_nanos\":"@, "start_unix_nanos"@),
        json::is_opening("{\"pid\":"@, "pid"@),
        json::is_opening("{\"received\": "@, "received"@),
        json::is_opening("{\n    \"bucket_width_nanos\": "@, "bucket_width_nanos"@),
        json::is_opening("{\"sampled_at_unix_nanos\":"@, "sampled_at_unix_nanos"@),
        json::is_opening("{\"captured_at_unix_nanos\":"@, "captured_at_unix_nanos"@),
        json::is_opening("{\n  \"running\": "@, "running"@),
        json::ends_object("}"@, Seq::empty()),
        json::ends_object("\n  }"@, Seq::empty()),
        json::ends_object("\n}"@, Seq::empty()),
{
    assert(json::is_label(",\"receive_bytes\":"@, "receive_bytes"@)) by {
        reveal_strlit(",\"receive_bytes\":");
        reveal_strlit("receive_bytes");
        reveal_strlit("");
        json::lemma_label(",\"receive_bytes\":"@, ""@, "receive_bytes"@, ""@);
    }
    assert(json::is_label(",\"send_bytes\":"@, "send_bytes"@)) by {
        reveal_strlit(",\"send_bytes\":");
        reveal_strlit("send_bytes");
        reveal_strlit("");
        json::lemma_label(",\"send_bytes\":"@, ""@, "send_bytes"@, ""@);
    }
    assert(json::is_label(",\"last_timestamp_unix_nanos\":"@, "last_timestamp_unix_nanos"@)) by {
        reveal_strlit(",\"last_timestamp_unix_nanos\":");
        reveal_strlit("last_timestamp_unix_nanos");
        reveal_strlit("");
        json::lemma_label(",\"last_timestamp_unix_nanos\":"@, ""@, "last_timestamp_unix_nanos"@, ""@);
    }
    assert(json::is_label(",\"connection_count\":"@, "connection_count"@)) by {
        reveal_strlit(",\"connection_count\":");
        reveal_strlit("connection_count");
        reveal_strlit("");
        json::lemma_label(",\"connection_count\":"@, ""@, "connection_count"@, ""@);
    }
    assert(json::is_label(",\"receive_bytes_per_second\":"@, "receive_bytes_per_second"@)) by {
        reveal_strlit(",\"receive_bytes_per_second\":");
        reveal_strlit("receive_bytes_per_second");
        reveal_strlit("");
        json::lemma_label(",\"receive_bytes_per_second\":"@, ""@, "receive_bytes_per_second"@, ""@);
    }
    assert(json::is_label(",\"send_bytes_per_second\":"@, "send_bytes_per_second"@)) by {
        reveal_strlit(",\"send_bytes_per_second\":");
        reveal_strlit("send_bytes_per_second");
        reveal_strlit("");
        json::lemma_label(",\"send_bytes_per_second\":"@, ""@, "send_bytes_per_second"@, ""@);
    }
    assert(json::is_label(",\"receive_bytes_total\":"@, "receive_bytes_total"@)) by {
        reveal_strlit(",\"receive_bytes_total\":");
        reveal_strlit("receive_bytes_total");
        reveal_strlit("");
        json::lemma_label(",\"receive_bytes_total\":"@, ""@, "receive_bytes_total"@, ""@);
    }
    assert(json::is_label(",\"send_bytes_total\":"@, "send_bytes_total"@)) by {
        reveal_strlit(",\"send_bytes_total\":");
        reveal_strlit("send_bytes_total");
        reveal_strlit("");
        json::lemma_label(",\"send_bytes_total\":"@, ""@, "send_bytes_total"@, ""@);
    }
    assert(json::is_label(",\"icon_status\":"@, "icon_status"@)) by {
        reveal_strlit(",\"icon_status\":");
        reveal_strlit("icon_status");
        reveal_strlit("");
        json::lemma_label(",\"icon_status\":"@, ""@, "icon_status"@, ""@);
    }
    assert(json::is_label(",\"image_path\":"@, "image_path"@)) by {
        reveal_strlit(",\"image_path\":");
        reveal_strlit("image_path");
        reveal_strlit("");
        json::lemma_label(",\"image_path\":"@, ""@, "image_path"@, ""@);
    }
    assert(json::is_label(",\"name\":"@, "name"@)) by {
        reveal_strlit(",\"name\":");
        reveal_strlit("name");
        reveal_strlit("");
        json::lemma_label(",\"name\":"@, ""@, "name"@, ""@);
    }
    assert(json::is_label(",\"process_started_at_unix_nanos\":"@, "process_started_at_unix_nanos"@)) by {
        reveal_strlit(",\"process_started_at_unix_nanos\":");
        reveal_strlit("process_started_at_unix_nanos");
        reveal_strlit("");
        json::lemma_label(",\"process_started_at_unix_nanos\":"@, ""@, "process_started_at_unix_nanos"@, ""@);
    }
    assert(json::is_label(",\"first_timestamp_unix_nanos\":"@, "first_timestamp_unix_nanos"@)) by {
        reveal_strlit(",\"first_timestamp_unix_nanos\":");
        reveal_strlit("first_timestamp_unix_nanos");
        reveal_strlit("");
        json::lemma_label(",\"first_timestamp_unix_nanos\":"@, ""@, "first_timestamp_unix_nanos"@, ""@);
    }
    assert(json::is_label(",\"bytes\":"@, "bytes"@)) by {
        reveal_strlit(",\"bytes\":");
        reveal_strlit("bytes");
        reveal_strlit("");
        json::lemma_label(",\"bytes\":"@, ""@, "bytes"@, ""@);
    }
    assert(json::is_label(",\"events\":"@, "events"@)) by {
        reveal_strlit(",\"events\":");
        reveal_strlit("events");
        reveal_strlit("");
        json::lemma_label(",\"events\":"@, ""@, "events"@, ""@);
    }
    assert(json::is_label(",\"destination\":"@, "destination"@)) by {
        reveal_strlit(",\"destination\":");
        reveal_strlit("destination");
        reveal_strlit("");
        json::lemma_label(",\"destination\":"@, ""@, "destination"@, ""@);
    }
    assert(json::is_label(",\"source\":"@, "source"@)) by {
        reveal_strlit(",\"source\":");
        reveal_strlit("source");
        reveal_strlit("");
        json::lemma_label(",\"source\":"@, ""@, "source"@, ""@);
    }
    assert(json::is_label(",\"direction\":"@, "direction"@)) by {
        reveal_strlit(",\"direction\":");
        reveal_strlit("direction");
        reveal_strlit("");
        json::lemma_label(",\"direction\":"@, ""@, "direction"@, ""@);
    }
    assert(json::is_label(",\"protocol\":"@, "protocol"@)) by {
        reveal_strlit(",\"protocol\":");
        reveal_strlit("protocol");
        reveal_strlit("");
        json::lemma_label(",\"protocol\":"@, ""@, "protocol"@, ""@);
    }
    assert(json::is_label(",\"started_at_unix_nanos\":"@, "started_at_unix_nanos"@)) by {
        reveal_strlit(",\"started_at_unix_nanos\":");
        reveal_strlit("started_at_unix_nanos");
        reveal_strlit("");
        json::lemma_label(",\"started_at_unix_nanos\":"@, ""@, "started_at_unix_nanos"@, ""@);
    }
    assert(json::is_label(",\"process_image_path\":"@, "process_image_path"@)) by {
        reveal_strlit(",\"process_image_path\":");
        reveal_strlit("process_image_path");
        reveal_strlit("");
        json::lemma_label(",\"process_image_path\":"@, ""@, "process_image_path"@, ""@);
    }
    assert(json::is_label(",\"process_name\":"@, "process_name"@)) by {
        reveal_strlit(",\"process_name\":");
        reveal_strlit("process_name");
        reveal_strlit("");
        json::lemma_label(",\"process_name\":"@, ""@, "process_name"@, ""@);
    }
    assert(json::is_label(",\"tcp_state\":"@, "tcp_state"@)) by {
        reveal_strlit(",\"tcp_state\":");
        reveal_strlit("tcp_state");
        reveal_strlit("");
        json::lemma_label(",\"tcp_state\":"@, ""@, "tcp_state"@, ""@);
    }
    assert(json::is_label(",\"remote\":"@, "remote"@)) by {
        reveal_strlit(",\"remote\":");
        reveal_strlit("remote");
        reveal_strlit("");
        json::lemma_label(",\"remote\":"@, ""@, "remote"@, ""@);
    }
    assert(json::is_label(",\"local\":"@, "local"@)) by {
        reveal_strlit(",\"local\":");
        reveal_strlit("local");
        reveal_strlit("");
        json::lemma_label(",\"local\":"@, ""@, "local"@, ""@);
    }
    assert(json::is_label(", \"dropped_stopped\": "@, "dropped_stopped"@)) by {
        reveal_strlit(", \"dropped_stopped\": ");
        reveal_strlit("dropped_stopped");
        reveal_strlit(" ");
        json::lemma_label(", \"dropped_stopped\": "@, " "@, "dropped_stopped"@, " "@);
    }
    assert(json::is_label(", \"dropped_full\": "@, "dropped_full"@)) by {
        reveal_strlit(", \"dropped_full\": ");
        reveal_strlit("dropped_full");
        reveal_strlit(" ");
        json::lemma_label(", \"dropped_full\": "@, " "@, "dropped_full"@, " "@);
    }
    assert(json::is_label(", \"processed\": "@, "processed"@)) by {
        reveal_strlit(", \"processed\": ");
        reveal_strlit("processed");
        reveal_strlit(" ");
        json::lemma_label(", \"processed\": "@, " "@, "processed"@, " "@);
    }
    assert(json::is_label(", \"accepted\": "@, "accepted"@)) by {
        reveal_strlit(", \"accepted\": ");
        reveal_strlit("accepted");
        reveal_strlit(" ");
        json::lemma_label(", \"accepted\": "@, " "@, "accepted"@, " "@);
    }
    assert(json::is_label(",\n    \"buckets\": "@, "buckets"@)) by {
        reveal_strlit(",\n    \"buckets\": ");
        reveal_strlit("buckets");
        reveal_strlit("\n    ");
        reveal_strlit(" ");
        json::lemma_label(",\n    \"buckets\": "@, "\n    "@, "buckets"@, " "@);
    }
    assert(json::is_label(", \"bytes_late_dropped\": "@, "bytes_late_dropped"@)) by {
        reveal_strlit(", \"bytes_late_dropped\": ");
        reveal_strlit("bytes_late_dropped");
        reveal_strlit(" ");
        json::lemma_label(", \"bytes_late_dropped\": "@, " "@, "bytes_late_dropped"@, " "@);
    }
    assert(json::is_label(", \"bytes_accepted\": "@, "bytes_accepted"@)) by {
        reveal_strlit(", \"bytes_accepted\": ");
        reveal_strlit("bytes_accepted");
        reveal_strlit(" ");
        json::lemma_label(", \"bytes_accepted\": "@, " "@, "bytes_accepted"@, " "@);
    }
    assert(json::is_label(", \"bytes_received\": "@, "bytes_received"@)) by {
        reveal_strlit(", \"bytes_received\": ");
        reveal_strlit("bytes_received");
        reveal_strlit(" ");
        json::lemma_label(", \"bytes_received\": "@, " "@, "bytes_received"@, " "@);
    }
    assert(json::is_label(", \"events_late_dropped\": "@, "events_late_dropped"@)) by {
        reveal_strlit(", \"events_late_dropped\": ");
        reveal_strlit("events_late_dropped");
        reveal_strlit(" ");
        json::lemma_label(", \"events_late_dropped\": "@, " "@, "events_late_dropped"@, " "@);
    }
    assert(json::is_label(", \"events_accepted\": "@, "events_accepted"@)) by {
        reveal_strlit(", \"events_accepted\": ");
        reveal_strlit("events_accepted");
        reveal_strlit(" ");
        json::lemma_label(", \"events_accepted\": "@, " "@, "events_accepted"@, " "@);
    }
    assert(json::is_label(", \"events_received\": "@, "events_received"@)) by {
        reveal_strlit(", \"events_received\": ");
        reveal_strlit("events_received");
        reveal_strlit(" ");
        json::lemma_label(", \"events_received\": "@, " "@, "events_received"@, " "@);
    }
    assert(json::is_label(", \"maximum_buckets\": "@, "maximum_buckets"@)) by {
        reveal_strlit(", \"maximum_buckets\": ");
        reveal_strlit("maximum_buckets");
        reveal_strlit(" ");
        json::lemma_label(", \"maximum_buckets\": "@, " "@, "maximum_buckets"@, " "@);
    }
    assert(json::is_label(",\"interval_nanos\":"@, "interval_nanos"@)) by {
        reveal_strlit(",\"interval_nanos\":");
        reveal_strlit("interval_nanos");
        reveal_strlit("");
        json::lemma_label(",\"interval_nanos\":"@, ""@, "interval_nanos"@, ""@);
    }
    assert(json::is_label(",\"connections\":"@, "connections"@)) by {
        reveal_strlit(",\"connections\":");
        reveal_strlit("connections");
        reveal_strlit("");
        json::lemma_label(",\"connections\":"@, ""@, "connections"@, ""@);
    }
    assert(json::is_label(",\"processes\":"@, "processes"@)) by {
        reveal_strlit(",\"processes\":");
        reveal_strlit("processes");
        reveal_strlit("");
        json::lemma_label(",\"processes\":"@, ""@, "processes"@, ""@);
    }
    assert(json::is_label(",\n  \"system\": "@, "system"@)) by {
        reveal_strlit(",\n  \"system\": ");
        reveal_strlit("system");
        reveal_strlit("\n  ");
        reveal_strlit(" ");
        json::lemma_label(",\n  \"system\": "@, "\n  "@, "system"@, " "@);
    }
    assert(json::is_label(",\n  \"flows\": "@, "flows"@)) by {
        reveal_strlit(",\n  \"flows\": ");
        reveal_strlit("flows");
        reveal_strlit("\n  ");
        reveal_strlit(" ");
        json::lemma_label(",\n  \"flows\": "@, "\n  "@, "flows"@, " "@);
    }
    assert(json::is_label(",\n  \"process_traffic\": "@, "process_traffic"@)) by {
        reveal_strlit(",\n  \"process_traffic\": ");
        reveal_strlit("process_traffic");
        reveal_strlit("\n  ");
        reveal_strlit(" ");
        json::lemma_label(",\n  \"process_traffic\": "@, "\n  "@, "process_traffic"@, " "@);
    }
    assert(json::is_label(",\n  \"recent_60_seconds\": "@, "recent_60_seconds"@)) by {
        reveal_strlit(",\n  \"recent_60_seconds\": ");
        reveal_strlit("recent_60_seconds");
        reveal_strlit("\n  ");
        reveal_strlit(" ");
        json::lemma_label(",\n  \"recent_60_seconds\": "@, "\n  "@, "recent_60_seconds"@, " "@);
    }
    assert(json::is_label(",\n  \"network_rate\": "@, "network_rate"@)) by {
        reveal_strlit(",\n  \"network_rate\": ");
        reveal_strlit("network_rate");
        reveal_strlit("\n  ");
        reveal_strlit(" ");
        json::lemma_label(",\n  \"network_rate\": "@, "\n  "@, "network_rate"@, " "@);
    }
    assert(json::is_label(",\n  \"curve\": "@, "curve"@)) by {
        reveal_strlit(",\n  \"curve\": ");
        reveal_strlit("curve");
        reveal_strlit("\n  ");
        reveal_strlit(" ");
        json::lemma_label(",\n  \"curve\": "@, "\n  "@, "curve"@, " "@);
    }
    assert(json::is_label(",\n  \"events\": "@, "events"@)) by {
        reveal_strlit(",\n  \"events\": ");
        reveal_strlit("events");
        reveal_strlit("\n  ");
        reveal_strlit(" ");
        json::lemma_label(",\n  \"events\": "@, "\n  "@, "events"@, " "@);
    }
    assert(json::is_label(",\n  \"capture_restriction\": "@, "capture_restriction"@)) by {
        reveal_strlit(",\n  \"capture_restriction\": ");
        reveal_strlit("capture_restriction");
        reveal_strlit("\n  ");
        reveal_strlit(" ");
        json::lemma_label(",\n  \"capture_restriction\": "@, "\n  "@, "capture_restriction"@, " "@);
    }
    assert(json::is_label(",\n  \"capture_status\": "@, "capture_status"@)) by {
        reveal_strlit(",\n  \"capture_status\": ");
        reveal_strlit("capture_status");
        reveal_strlit("\n  ");
        reveal_strlit(" ");
        json::lemma_label(",\n  \"capture_status\": "@, "\n  "@, "capture_status"@, " "@);
    }
    assert(json::is_opening("{\"start_unix_nanos\":"@, "start_unix_nanos"@)) by {
        reveal_strlit("{\"start_unix_nanos\":");
        reveal_strlit("start_unix_nanos");
        reveal_strlit("");
        json::lemma_opening("{\"start_unix_nanos\":"@, ""@, ""@, "start_unix_nanos"@, ""@);
    }
    assert(json::is_opening("{\"pid\":"@, "pid"@)) by {
        reveal_strlit("{\"pid\":");
        reveal_strlit("pid");
        reveal_strlit("");
        json::lemma_opening("{\"pid\":"@, ""@, ""@, "pid"@, ""@);
    }
    assert(json::is_opening("{\"received\": "@, "received"@)) by {
        reveal_strlit("{\"received\": ");
        reveal_strlit("received");
        reveal_strlit("");
        reveal_strlit(" ");
        json::lemma_opening("{\"received\": "@, ""@, ""@, "received"@, " "@);
    }
    assert(json::is_opening("{\n    \"bucket_width_nanos\": "@, "bucket_width_nanos"@)) by {
        reveal_strlit("{\n    \"bucket_width_nanos\": ");
        reveal_strlit("bucket_width_nanos");
        reveal_strlit("");
        reveal_strlit("\n    ");
        reveal_strlit(" ");
        json::lemma_opening("{\n    \"bucket_width_nanos\": "@, ""@, "\n    "@, "bucket_width_nanos"@, " "@);
    }
    assert(json::is_opening("{\"sampled_at_unix_nanos\":"@, "sampled_at_unix_nanos"@)) by {
        reveal_strlit("{\"sampled_at_unix_nanos\":");
        reveal_strlit("sampled_at_unix_nanos");
        reveal_strlit("");
        json::lemma_opening("{\"sampled_at_unix_nanos\":"@, ""@, ""@, "sampled_at_unix_nanos"@, ""@);
    }
    assert(json::is_opening("{\"captured_at_unix_nanos\":"@, "captured_at_unix_nanos"@)) by {
        reveal_strlit("{\"captured_at_unix_nanos\":");
        reveal_strlit("captured_at_unix_nanos");
        reveal_strlit("");
        json::lemma_opening("{\"captured_at_unix_nanos\":"@, ""@, ""@, "captured_at_unix_nanos"@, ""@);
    }
    assert(json::is_opening("{\n  \"running\": "@, "running"@)) by {
        reveal_strlit("{\n  \"running\": ");
        reveal_strlit("running");
        reveal_strlit("");
        reveal_strlit("\n  ");
        reveal_strlit(" ");
        json::lemma_opening("{\n  \"running\": "@, ""@, "\n  "@, "running"@, " "@);
    }
    assert(json::ends_object("}"@, Seq::empty())) by {
        reveal_strlit("}");
        reveal_strlit("");
        json::lemma_object_ends(""@);
        assert("}"@ =~= ""@ + seq!['}']);
    }
    assert(json::ends_object("\n  }"@, Seq::empty())) by {
        reveal_strlit("\n  }");
        reveal_strlit("\n  ");
        json::lemma_object_ends("\n  "@);
        assert("\n  }"@ =~= "\n  "@ + seq!['}']);
    }
    assert(json::ends_object("\n}"@, Seq::empty())) by {
        reveal_strlit("\n}");
        reveal_strlit("\n");
        json::lemma_object_ends("\n"@);
        assert("\n}"@ =~= "\n"@ + seq!['}']);
    }
}

/// How the text between two values is put together.
proof fn lemma_pieces()
    ensures
        ",\n  \"events\": {\"received\": "@ == ",\n  \"events\": "@ + "{\"received\": "@,
        "},\n  \"curve\": {\n    \"bucket_width_nanos\": "@ == "}"@ + ",\n  \"curve\": "@ + "{\n    \"bucket_width_nanos\": "@,
        ",\n    \"buckets\": ["@ == ",\n    \"buckets\": "@ + "["@,
        "]\n  },\n  \"network_rate\": {\"sampled_at_unix_nanos\":"@ == "]"@ + "\n  }"@ + ",\n  \"network_rate\": "@ + "{\"sampled_at_unix_nanos\":"@,
        "},\n  \"recent_60_seconds\": ["@ == "}"@ + ",\n  \"recent_60_seconds\": "@ + "["@,
        "],\n  \"process_traffic\": ["@ == "]"@ + ",\n  \"process_traffic\": "@ + "["@,
        "],\n  \"flows\": ["@ == "]"@ + ",\n  \"flows\": "@ + "["@,
        "],\n  \"system\": "@ == "]"@ + ",\n  \"system\": "@,
        "\n}\n"@ == "\n}"@ + "\n"@,
        ",\"processes\":["@ == ",\"processes\":"@ + "["@,
        "],\"connections\":["@ == "]"@ + ",\"connections\":"@ + "["@,
        "]}"@ == "]"@ + "}"@,
{
    assert(",\n  \"events\": {\"received\": "@ == ",\n  \"events\": "@ + "{\"received\": "@) by {
        reveal_strlit(",\n  \"events\": {\"received\": ");
        reveal_strlit(",\n  \"events\": ");
        reveal_strlit("{\"received\": ");
    }
    assert("},\n  \"curve\": {\n    \"bucket_width_nanos\": "@ == "}"@ + ",\n  \"curve\": "@ + "{\n    \"bucket_width_nanos\": "@) by {
        reveal_strlit("},\n  \"curve\": {\n    \"bucket_width_nanos\": ");
        reveal_strlit("}");
        reveal_strlit(",\n  \"curve\": ");
        reveal_strlit("{\n    \"bucket_width_nanos\": ");
    }
    assert(",\n    \"buckets\": ["@ == ",\n    \"buckets\": "@ + "["@) by {
        reveal_strlit(",\n    \"buckets\": [");
        reveal_strlit(",\n    \"buckets\": ");
        reveal_strlit("[");
    }
    assert("]\n  },\n  \"network_rate\": {\"sampled_at_unix_nanos\":"@ == "]"@ + "\n  }"@ + ",\n  \"network_rate\": "@ + "{\"sampled_at_unix_nanos\":"@) by {
        reveal_strlit("]\n  },\n  \"network_rate\": {\"sampled_at_unix_nanos\":");
        reveal_strlit("]");
        reveal_strlit("\n  }");
        reveal_strlit(",\n  \"network_rate\": ");
        reveal_strlit("{\"sampled_at_unix_nanos\":");
    }
    assert("},\n  \"recent_60_seconds\": ["@ == "}"@ + ",\n  \"recent_60_seconds\": "@ + "["@) by {
        reveal_strlit("},\n  \"recent_60_seconds\": [");
        reveal_strlit("}");
        reveal_strlit(",\n  \"recent_60_seconds\": ");
        reveal_strlit("[");
    }
    assert("],\n  \"process_traffic\": ["@ == "]"@ + ",\n  \"process_traffic\": "@ + "["@) by {
        reveal_strlit("],\n  \"process_traffic\": [");
        reveal_strlit("]");
        reveal_strlit(",\n  \"process_traffic\": ");
        reveal_strlit("[");
    }
    assert("],\n  \"flows\": ["@ == "]"@ + ",\n  \"flows\": "@ + "["@) by {
        reveal_strlit("],\n  \"flows\": [");
        reveal_strlit("]");
        reveal_strlit(",\n  \"flows\": ");
        reveal_strlit("[");
    }
    assert("],\n  \"system\": "@ == "]"@ + ",\n  \"system\": "@) by {
        reveal_strlit("],\n  \"system\": ");
        reveal_strlit("]");
        reveal_strlit(",\n  \"system\": ");
    }
    assert("\n}\n"@ == "\n}"@ + "\n"@) by {
        reveal_strlit("\n}\n");
        reveal_strlit("\n}");
        reveal_strlit("\n");
    }
    assert(",\"processes\":["@ == ",\"processes\":"@ + "["@) by {
        reveal_strlit(",\"processes\":[");
        reveal_strlit(",\"processes\":");
        reveal_strlit("[");
    }
    assert("],\"connections\":["@ == "]"@ + ",\"connections\":"@ + "["@) by {
        reveal_strlit("],\"connections\":[");
        reveal_strlit("]");
        reveal_strlit(",\"connections\":");
        reveal_strlit("[");
    }
    assert("]}"@ == "]"@ + "}"@) by {
        reveal_strlit("]}");
        reveal_strlit("]");
        reveal_strlit("}");
    }
}

/// A bucket is read back.
#[verifier::rlimit(60)]
proof fn lemma_bucket_is_read_back(bucket: TrafficBucket)
    ensures
        json::reads_as(
            bucket_json(bucket),
            Json::Object(
                seq![
                    ("start_unix_nanos"@, Json::Number(bucket.start_unix_nanos as int)),
                    ("send_bytes"@, Json::Number(bucket.send_bytes as int)),
                    ("receive_bytes"@, Json::Number(bucket.receive_bytes as int)),
                ],
            ),
        ),
{
    lemma_labels();
    json::lemma_number(bucket.start_unix_nanos as nat);
    json::lemma_number(bucket.send_bytes as nat);
    json::lemma_number(bucket.receive_bytes as nat);
    let end3 = "}"@;
    let last3 = Seq::<(Seq<char>, Json)>::empty();
    let end2 = ",\"receive_bytes\":"@ + (text::decimal(bucket.receive_bytes as nat) + end3);
    let last2 = seq![("receive_bytes"@, Json::Number(bucket.receive_bytes as int))] + last3;
    json::lemma_member(",\"receive_bytes\":"@, "receive_bytes"@, text::decimal(bucket.receive_bytes as nat), Json::Number(bucket.receive_bytes as int), end3, last3);
    let end1 = ",\"send_bytes\":"@ + (text::decimal(bucket.send_bytes as nat) + end2);
    let last1 = seq![("send_bytes"@, Json::Number(bucket.send_bytes as int))] + last2;
    json::lemma_member(",\"send_bytes\":"@, "send_bytes"@, text::decimal(bucket.send_bytes as nat), Json::Number(bucket.send_bytes as int), end2, last2);
    json::lemma_object("{\"start_unix_nanos\":"@, "start_unix_nanos"@, text::decimal(bucket.start_unix_nanos as nat), Json::Number(bucket.start_unix_nanos as int), end1, last1);
    assert(bucket_json(bucket) == "{\"start_unix_nanos\":"@ + (text::decimal(bucket.start_unix_nanos as nat) + end1)) by {
        broadcast use json::lemma_grouping;
    }
    assert(seq![("start_unix_nanos"@, Json::Number(bucket.start_unix_nanos as int))] + last1 =~= seq![
        ("start_unix_nanos"@, Json::Number(bucket.start_unix_nanos as int)),
        ("send_bytes"@, Json::Number(bucket.send_bytes as int)),
        ("receive_bytes"@, Json::Number(bucket.receive_bytes as int)),
    ]);
}

/// The traffic of a process is read back.
#[verifier::rlimit(60)]
proof fn lemma_traffic_is_read_back(process: ProcessTrafficSnapshot)
    ensures
        json::reads_as(
            traffic_json(process),
            Json::Object(
                seq![
                    ("pid"@, Json::Number(process.pid as int)),
                    ("process_started_at_unix_nanos"@, Json::Number(started_at(process.process_key) as int)),
                    ("name"@, json::text_or_null(text::optional(process.name))),
                    ("image_path"@, json::text_or_null(text::optional(process.image_path))),
                    ("icon_status"@, Json::Text(icon_name(process.icon))),
                    ("send_bytes_total"@, Json::Number(process.send_bytes_total as int)),
                    ("receive_bytes_total"@, Json::Number(process.receive_bytes_total as int)),
                    ("send_bytes_per_second"@, Json::Number(process.send_bytes_per_second as int)),
                    ("receive_bytes_per_second"@, Json::Number(process.receive_bytes_per_second as int)),
                    ("connection_count"@, Json::Number(process.connection_count as int)),
                    ("last_timestamp_unix_nanos"@, Json::Number(process.last_timestamp_unix_nanos as int)),
                ],
            ),
        ),
{
    lemma_labels();
    json::lemma_number(process.pid as nat);
    json::lemma_number(started_at(process.process_key) as nat);
    json::lemma_optional_text(text::optional(process.name));
    json::lemma_optional_text(text::optional(process.image_path));
    json::lemma_text(icon_name(process.icon));
    json::lemma_number(process.send_bytes_total as nat);
    json::lemma_number(process.receive_bytes_total as nat);
    json::lemma_number(process.send_bytes_per_second as nat);
    json::lemma_number(process.receive_bytes_per_second as nat);
    json::lemma_number(process.connection_count as nat);
    json::lemma_number(process.last_timestamp_unix_nanos as nat);
    let end11 = "}"@;
    let last11 = Seq::<(Seq<char>, Json)>::empty();
    let end10 = ",\"last_timestamp_unix_nanos\":"@ + (text::decimal(process.last_timestamp_unix_nanos as nat) + end11);
    let last10 = seq![("last_timestamp_unix_nanos"@, Json::Number(process.last_timestamp_unix_nanos as int))] + last11;
    json::lemma_member(",\"last_timestamp_unix_nanos\":"@, "last_timestamp_unix_nanos"@, text::decimal(process.last_timestamp_unix_nanos as nat), Json::Number(process.last_timestamp_unix_nanos as int), end11, last11);
    let end9 = ",\"connection_count\":"@ + (text::decimal(process.connection_count as nat) + end10);
    let last9 = seq![("connection_count"@, Json::Number(process.connection_count as int))] + last10;
    json::lemma_member(",\"connection_count\":"@, "connection_count"@, text::decimal(process.connection_count as nat), Json::Number(process.connection_count as int), end10, last10);
    let end8 = ",\"receive_bytes_per_second\":"@ + (text::decimal(process.receive_bytes_per_second as nat) + end9);
    let last8 = seq![("receive_bytes_per_second"@, Json::Number(process.receive_bytes_per_second as int))] + last9;
    json::lemma_member(",\"receive_bytes_per_second\":"@, "receive_bytes_per_second"@, text::decimal(process.receive_bytes_per_second as nat), Json::Number(process.receive_bytes_per_second as int), end9, last9);
    let end7 = ",\"send_bytes_per_second\":"@ + (text::decimal(process.send_bytes_per_second as nat) + end8);
    let last7 = seq![("send_bytes_per_second"@, Json::Number(process.send_bytes_per_second as int))] + last8;
    json::lemma_member(",\"send_bytes_per_second\":"@, "send_bytes_per_second"@, text::decimal(process.send_bytes_per_second as nat), Json::Number(process.send_bytes_per_second as int), end8, last8);
    let end6 = ",\"receive_bytes_total\":"@ + (text::decimal(process.receive_bytes_total as nat) + end7);
    let last6 = seq![("receive_bytes_total"@, Json::Number(process.receive_bytes_total as int))] + last7;
    json::lemma_member(",\"receive_bytes_total\":"@, "receive_bytes_total"@, text::decimal(process.receive_bytes_total as nat), Json::Number(process.receive_bytes_total as int), end7, last7);
    let end5 = ",\"send_bytes_total\":"@ + (text::decimal(process.send_bytes_total as nat) + end6);
    let last5 = seq![("send_bytes_total"@, Json::Number(process.send_bytes_total as int))] + last6;
    json::lemma_member(",\"send_bytes_total\":"@, "send_bytes_total"@, text::decimal(process.send_bytes_total as nat), Json::Number(process.send_bytes_total as int), end6, last6);
    let end4 = ",\"icon_status\":"@ + (quoting::json_string(icon_name(process.icon)) + end5);
    let last4 = seq![("icon_status"@, Json::Text(icon_name(process.icon)))] + last5;
    json::lemma_member(",\"icon_status\":"@, "icon_status"@, quoting::json_string(icon_name(process.icon)), Json::Text(icon_name(process.icon)), end5, last5);
    let end3 = ",\"image_path\":"@ + (quoting::json_optional(text::optional(process.image_path)) + end4);
    let last3 = seq![("image_path"@, json::text_or_null(text::optional(process.image_path)))] + last4;
    json::lemma_member(",\"image_path\":"@, "image_path"@, quoting::json_optional(text::optional(process.image_path)), json::text_or_null(text::optional(process.image_path)), end4, last4);
    let end2 = ",\"name\":"@ + (quoting::json_optional(text::optional(process.name)) + end3);
    let last2 = seq![("name"@, json::text_or_null(text::optional(process.name)))] + last3;
    json::lemma_member(",\"name\":"@, "name"@, quoting::json_optional(text::optional(process.name)), json::text_or_null(text::optional(process.name)), end3, last3);
    let end1 = ",\"process_started_at_unix_nanos\":"@ + (text::decimal(started_at(process.process_key) as nat) + end2);
    let last1 = seq![("process_started_at_unix_nanos"@, Json::Number(started_at(process.process_key) as int))] + last2;
    json::lemma_member(",\"process_started_at_unix_nanos\":"@, "process_started_at_unix_nanos"@, text::decimal(started_at(process.process_key) as nat), Json::Number(started_at(process.process_key) as int), end2, last2);
    json::lemma_object("{\"pid\":"@, "pid"@, text::decimal(process.pid as nat), Json::Number(process.pid as int), end1, last1);
    assert(traffic_json(process) == "{\"pid\":"@ + (text::decimal(process.pid as nat) + end1)) by {
        broadcast use json::lemma_grouping;
    }
    assert(seq![("pid"@, Json::Number(process.pid as int))] + last1 =~= seq![
        ("pid"@, Json::Number(process.pid as int)),
        ("process_started_at_unix_nanos"@, Json::Number(started_at(process.process_key) as int)),
        ("name"@, json::text_or_null(text::optional(process.name))),
        ("image_path"@, json::text_or_null(text::optional(process.image_path))),
        ("icon_status"@, Json::Text(icon_name(process.icon))),
        ("send_bytes_total"@, Json::Number(process.send_bytes_total as int)),
        ("receive_bytes_total"@, Json::Number(process.receive_bytes_total as int)),
        ("send_bytes_per_second"@, Json::Number(process.send_bytes_per_second as int)),
        ("receive_bytes_per_second"@, Json::Number(process.receive_bytes_per_second as int)),
        ("connection_count"@, Json::Number(process.connection_count as int)),
        ("last_timestamp_unix_nanos"@, Json::Number(process.last_timestamp_unix_nanos as int)),
    ]);
}

/// A flow is read back.
#[verifier::rlimit(60)]
proof fn lemma_flow_is_read_back(flow: FlowSnapshot)
    ensures
        json::reads_as(
            flow_json(flow),
            Json::Object(
                seq![
                    ("pid"@, Json::Number(flow.key.pid as int)),
                    ("process_started_at_unix_nanos"@, Json::Number(started_at(flow.process_key) as int)),
                    ("protocol"@, Json::Text(protocol_name(flow.key.protocol))),
                    ("direction"@, Json::Text(direction_name(flow.key.direction))),
                    ("source"@, Json::Text(address::socket_text(flow.key.source))),
                    ("destination"@, Json::Text(address::socket_text(flow.key.destination))),
                    ("events"@, Json::Number(flow.events as int)),
                    ("bytes"@, Json::Number(flow.bytes as int)),
                    ("first_timestamp_unix_nanos"@, Json::Number(flow.first_timestamp_unix_nanos as int)),
                    ("last_timestamp_unix_nanos"@, Json::Number(flow.last_timestamp_unix_nanos as int)),
                ],
            ),
        ),
{
    lemma_labels();
    json::lemma_number(flow.key.pid as nat);
    json::lemma_number(started_at(flow.process_key) as nat);
    json::lemma_text(protocol_name(flow.key.protocol));
    json::lemma_text(direction_name(flow.key.direction));
    json::lemma_text(address::socket_text(flow.key.source));
    json::lemma_text(address::socket_text(flow.key.destination));
    json::lemma_number(flow.events as nat);
    json::lemma_number(flow.bytes as nat);
    json::lemma_number(flow.first_timestamp_unix_nanos as nat);
    json::lemma_number(flow.last_timestamp_unix_nanos as nat);
    let end10 = "}"@;
    let last10 = Seq::<(Seq<char>, Json)>::empty();
    let end9 = ",\"last_timestamp_unix_nanos\":"@ + (text::decimal(flow.last_timestamp_unix_nanos as nat) + end10);
    let last9 = seq![("last_timestamp_unix_nanos"@, Json::Number(flow.last_timestamp_unix_nanos as int))] + last10;
    json::lemma_member(",\"last_timestamp_unix_nanos\":"@, "last_timestamp_unix_nanos"@, text::decimal(flow.last_timestamp_unix_nanos as nat), Json::Number(flow.last_timestamp_unix_nanos as int), end10, last10);
    let end8 = ",\"first_timestamp_unix_nanos\":"@ + (text::decimal(flow.first_timestamp_unix_nanos as nat) + end9);
    let last8 = seq![("first_timestamp_unix_nanos"@, Json::Number(flow.first_timestamp_unix_nanos as int))] + last9;
    json::lemma_member(",\"first_timestamp_unix_nanos\":"@, "first_timestamp_unix_nanos"@, text::decimal(flow.first_timestamp_unix_nanos as nat), Json::Number(flow.first_timestamp_unix_nanos as int), end9, last9);
    let end7 = ",\"bytes\":"@ + (text::decimal(flow.bytes as nat) + end8);
    let last7 = seq![("bytes"@, Json::Number(flow.bytes as int))] + last8;
    json::lemma_member(",\"bytes\":"@, "bytes"@, text::decimal(flow.bytes as nat), Json::Number(flow.bytes as int), end8, last8);
    let end6 = ",\"events\":"@ + (text::decimal(flow.events as nat) + end7);
    let last6 = seq![("events"@, Json::Number(flow.events as int))] + last7;
    json::lemma_member(",\"events\":"@, "events"@, text::decimal(flow.events as nat), Json::Number(flow.events as int), end7, last7);
    let end5 = ",\"destination\":"@ + (quoting::json_string(address::socket_text(flow.key.destination)) + end6);
    let last5 = seq![("destination"@, Json::Text(address::socket_text(flow.key.destination)))] + last6;
    json::lemma_member(",\"destination\":"@, "destination"@, quoting::json_string(address::socket_text(flow.key.destination)), Json::Text(address::socket_text(flow.key.destination)), end6, last6);
    let end4 = ",\"source\":"@ + (quoting::json_string(address::socket_text(flow.key.source)) + end5);
    let last4 = seq![("source"@, Json::Text(address::socket_text(flow.key.source)))] + last5;
    json::lemma_member(",\"source\":"@, "source"@, quoting::json_string(address::socket_text(flow.key.source)), Json::Text(address::socket_text(flow.key.source)), end5, last5);
    let end3 = ",\"direction\":"@ + (quoting::json_string(direction_name(flow.key.direction)) + end4);
    let last3 = seq![("direction"@, Json::Text(direction_name(flow.key.direction)))] + last4;
    json::lemma_member(",\"direction\":"@, "direction"@, quoting::json_string(direction_name(flow.key.direction)), Json::Text(direction_name(flow.key.direction)), end4, last4);
    let end2 = ",\"protocol\":"@ + (quoting::json_string(protocol_name(flow.key.protocol)) + end3);
    let last2 = seq![("protocol"@, Json::Text(protocol_name(flow.key.protocol)))] + last3;
    json::lemma_member(",\"protocol\":"@, "protocol"@, quoting::json_string(protocol_name(flow.key.protocol)), Json::Text(protocol_name(flow.key.protocol)), end3, last3);
    let end1 = ",\"process_started_at_unix_nanos\":"@ + (text::decimal(started_at(flow.process_key) as nat) + end2);
    let last1 = seq![("process_started_at_unix_nanos"@, Json::Number(started_at(flow.process_key) as int))] + last2;
    json::lemma_member(",\"process_started_at_unix_nanos\":"@, "process_started_at_unix_nanos"@, text::decimal(started_at(flow.process_key) as nat), Json::Number(started_at(flow.process_key) as int), end2, last2);
    json::lemma_object("{\"pid\":"@, "pid"@, text::decimal(flow.key.pid as nat), Json::Number(flow.key.pid as int), end1, last1);
    assert(flow_json(flow) == "{\"pid\":"@ + (text::decimal(flow.key.pid as nat) + end1)) by {
        broadcast use json::lemma_grouping;
    }
    assert(seq![("pid"@, Json::Number(flow.key.pid as int))] + last1 =~= seq![
        ("pid"@, Json::Number(flow.key.pid as int)),
        ("process_started_at_unix_nanos"@, Json::Number(started_at(flow.process_key) as int)),
        ("protocol"@, Json::Text(protocol_name(flow.key.protocol))),
        ("direction"@, Json::Text(direction_name(flow.key.direction))),
        ("source"@, Json::Text(address::socket_text(flow.key.source))),
        ("destination"@, Json::Text(address::socket_text(flow.key.destination))),
        ("events"@, Json::Number(flow.events as int)),
        ("bytes"@, Json::Number(flow.bytes as int)),
        ("first_timestamp_unix_nanos"@, Json::Number(flow.first_timestamp_unix_nanos as int)),
        ("last_timestamp_unix_nanos"@, Json::Number(flow.last_timestamp_unix_nanos as int)),
    ]);
}

/// A process is read back.
#[verifier::rlimit(60)]
proof fn lemma_process_is_read_back(process: ProcessSnapshot)
    ensures
        json::reads_as(
            process_json(process),
            Json::Object(
                seq![
                    ("pid"@, Json::Number(process.key.pid as int)),
                    ("started_at_unix_nanos"@, Json::Number(process.key.started_at_unix_nanos as int)),
                    ("name"@, Json::Text(process.name@)),
                    ("image_path"@, json::text_or_null(text::optional(process.image_path))),
                    ("icon_status"@, Json::Text(icon_name(process.icon))),
                ],
            ),
        ),
{
    lemma_labels();
    json::lemma_number(process.key.pid as nat);
    json::lemma_number(process.key.started_at_unix_nanos as nat);
    json::lemma_text(process.name@);
    json::lemma_optional_text(text::optional(process.image_path));
    json::lemma_text(icon_name(process.icon));
    let end5 = "}"@;
    let last5 = Seq::<(Seq<char>, Json)>::empty();
    let end4 = ",\"icon_status\":"@ + (quoting::json_string(icon_name(process.icon)) + end5);
    let last4 = seq![("icon_status"@, Json::Text(icon_name(process.icon)))] + last5;
    json::lemma_member(",\"icon_status\":"@, "icon_status"@, quoting::json_string(icon_name(process.icon)), Json::Text(icon_name(process.icon)), end5, last5);
    let end3 = ",\"image_path\":"@ + (quoting::json_optional(text::optional(process.image_path)) + end4);
    let last3 = seq![("image_path"@, json::text_or_null(text::optional(process.image_path)))] + last4;
    json::lemma_member(",\"image_path\":"@, "image_path"@, quoting::json_optional(text::optional(process.image_path)), json::text_or_null(text::optional(process.image_path)), end4, last4);
    let end2 = ",\"name\":"@ + (quoting::json_string(process.name@) + end3);
    let last2 = seq![("name"@, Json::Text(process.name@))] + last3;
    json::lemma_member(",\"name\":"@, "name"@, quoting::json_string(process.name@), Json::Text(process.name@), end3, last3);
    let end1 = ",\"started_at_unix_nanos\":"@ + (text::decimal(process.key.started_at_unix_nanos as nat) + end2);
    let last1 = seq![("started_at_unix_nanos"@, Json::Number(process.key.started_at_unix_nanos as int))] + last2;
    json::lemma_member(",\"started_at_unix_nanos\":"@, "started_at_unix_nanos"@, text::decimal(process.key.started_at_unix_nanos as nat), Json::Number(process.key.started_at_unix_nanos as int), end2, last2);
    json::lemma_object("{\"pid\":"@, "pid"@, text::decimal(process.key.pid as nat), Json::Number(process.key.pid as int), end1, last1);
    assert(process_json(process) == "{\"pid\":"@ + (text::decimal(process.key.pid as nat) + end1)) by {
        broadcast use json::lemma_grouping;
    }
    assert(seq![("pid"@, Json::Number(process.key.pid as int))] + last1 =~= seq![
        ("pid"@, Json::Number(process.key.pid as int)),
        ("started_at_unix_nanos"@, Json::Number(process.key.started_at_unix_nanos as int)),
        ("name"@, Json::Text(process.name@)),
        ("image_path"@, json::text_or_null(text::optional(process.image_path))),
        ("icon_status"@, Json::Text(icon_name(process.icon))),
    ]);
}

/// A connection is read back.
#[verifier::rlimit(60)]
proof fn lemma_connection_is_read_back(connection: ConnectionSnapshot, details: Seq<ConnectionDetailSnapshot>)
    ensures
        json::reads_as(
            connection_json(connection, details),
            Json::Object(
                seq![
                    ("pid"@, Json::Number(connection.pid as int)),
                    ("process_started_at_unix_nanos"@, Json::Number(started_at(connection.process_key) as int)),
                    ("protocol"@, Json::Text(protocol_name(connection.protocol))),
                    ("local"@, Json::Text(address::socket_text(connection.local))),
                    ("remote"@, json::text_or_null(remote_text(connection.remote))),
                    ("tcp_state"@, json::text_or_null(state_text(connection.tcp_state))),
                    ("process_name"@, json::text_or_null(detail_name(details, connection))),
                    ("process_image_path"@, json::text_or_null(detail_path(details, connection))),
                ],
            ),
        ),
{
    lemma_labels();
    json::lemma_number(connection.pid as nat);
    json::lemma_number(started_at(connection.process_key) as nat);
    json::lemma_text(protocol_name(connection.protocol));
    json::lemma_text(address::socket_text(connection.local));
    json::lemma_optional_text(remote_text(connection.remote));
    json::lemma_optional_text(state_text(connection.tcp_state));
    json::lemma_optional_text(detail_name(details, connection));
    json::lemma_optional_text(detail_path(details, connection));
    let end8 = "}"@;
    let last8 = Seq::<(Seq<char>, Json)>::empty();
    let end7 = ",\"process_image_path\":"@ + (quoting::json_optional(detail_path(details, connection)) + end8);
    let last7 = seq![("process_image_path"@, json::text_or_null(detail_path(details, connection)))] + last8;
    json::lemma_member(",\"process_image_path\":"@, "process_image_path"@, quoting::json_optional(detail_path(details, connection)), json::text_or_null(detail_path(details, connection)), end8, last8);
    let end6 = ",\"process_name\":"@ + (quoting::json_optional(detail_name(details, connection)) + end7);
    let last6 = seq![("process_name"@, json::text_or_null(detail_name(details, connection)))] + last7;
    json::lemma_member(",\"process_name\":"@, "process_name"@, quoting::json_optional(detail_name(details, connection)), json::text_or_null(detail_name(details, connection)), end7, last7);
    let end5 = ",\"tcp_state\":"@ + (quoting::json_optional(state_text(connection.tcp_state)) + end6);
    let last5 = seq![("tcp_state"@, json::text_or_null(state_text(connection.tcp_state)))] + last6;
    json::lemma_member(",\"tcp_state\":"@, "tcp_state"@, quoting::json_optional(state_text(connection.tcp_state)), json::text_or_null(state_text(connection.tcp_state)), end6, last6);
    let end4 = ",\"remote\":"@ + (quoting::json_optional(remote_text(connection.remote)) + end5);
    let last4 = seq![("remote"@, json::text_or_null(remote_text(connection.remote)))] + last5;
    json::lemma_member(",\"remote\":"@, "remote"@, quoting::json_optional(remote_text(connection.remote)), json::text_or_null(remote_text(connection.remote)), end5, last5);
    let end3 = ",\"local\":"@ + (quoting::json_string(address::socket_text(connection.local)) + end4);
    let last3 = seq![("local"@, Json::Text(address::socket_text(connection.local)))] + last4;
    json::lemma_member(",\"local\":"@, "local"@, quoting::json_string(address::socket_text(connection.local)), Json::Text(address::socket_text(connection.local)), end4, last4);
    let end2 = ",\"protocol\":"@ + (quoting::json_string(protocol_name(connection.protocol)) + end3);
    let last2 = seq![("protocol"@, Json::Text(protocol_name(connection.protocol)))] + last3;
    json::lemma_member(",\"protocol\":"@, "protocol"@, quoting::json_string(protocol_name(connection.protocol)), Json::Text(protocol_name(connection.protocol)), end3, last3);
    let end1 = ",\"process_started_at_unix_nanos\":"@ + (text::decimal(started_at(connection.process_key) as nat) + end2);
    let last1 = seq![("process_started_at_unix_nanos"@, Json::Number(started_at(connection.process_key) as int))] + last2;
    json::lemma_member(",\"process_started_at_unix_nanos\":"@, "process_started_at_unix_nanos"@, text::decimal(started_at(connection.process_key) as nat), Json::Number(started_at(connection.process_key) as int), end2, last2);
    json::lemma_object("{\"pid\":"@, "pid"@, text::decimal(connection.pid as nat), Json::Number(connection.pid as int), end1, last1);
    assert(connection_json(connection, details) == "{\"pid\":"@ + (text::decimal(connection.pid as nat) + end1)) by {
        broadcast use json::lemma_grouping;
    }
    assert(seq![("pid"@, Json::Number(connection.pid as int))] + last1 =~= seq![
        ("pid"@, Json::Number(connection.pid as int)),
        ("process_started_at_unix_nanos"@, Json::Number(started_at(connection.process_key) as int)),
        ("protocol"@, Json::Text(protocol_name(connection.protocol))),
        ("local"@, Json::Text(address::socket_text(connection.local))),
        ("remote"@, json::text_or_null(remote_text(connection.remote))),
        ("tcp_state"@, json::text_or_null(state_text(connection.tcp_state))),
        ("process_name"@, json::text_or_null(detail_name(details, connection))),
        ("process_image_path"@, json::text_or_null(detail_path(details, connection))),
    ]);
}

/// The text of the counts of events.
spec fn events_object(snapshot: ApplicationSnapshot) -> Seq<char> {
    "{\"received\": "@
        + text::decimal(snapshot.events_received as nat)
        + ", \"accepted\": "@
        + text::decimal(snapshot.events_accepted as nat)
        + ", \"processed\": "@
        + text::decimal(snapshot.events_processed as nat)
        + ", \"dropped_full\": "@
        + text::decimal(snapshot.events_dropped_full as nat)
        + ", \"dropped_stopped\": "@
        + text::decimal(snapshot.events_dropped_stopped as nat)
        + "}"@
}

/// The counts of events are read back.
proof fn lemma_events_are_read_back(snapshot: ApplicationSnapshot)
    ensures
        json::reads_as(
            events_object(snapshot),
            Json::Object(
                seq![
                    ("received"@, Json::Number(snapshot.events_received as int)),
                    ("accepted"@, Json::Number(snapshot.events_accepted as int)),
                    ("processed"@, Json::Number(snapshot.events_processed as int)),
                    ("dropped_full"@, Json::Number(snapshot.events_dropped_full as int)),
                    ("dropped_stopped"@, Json::Number(snapshot.events_dropped_stopped as int)),
                ],
            ),
        ),
{
    lemma_labels();
    json::lemma_number(snapshot.events_received as nat);
    json::lemma_number(snapshot.events_accepted as nat);
    json::lemma_number(snapshot.events_processed as nat);
    json::lemma_number(snapshot.events_dropped_full as nat);
    json::lemma_number(snapshot.events_dropped_stopped as nat);
    let end5 = "}"@;
    let last5 = Seq::<(Seq<char>, Json)>::empty();
    let end4 = ", \"dropped_stopped\": "@ + (text::decimal(snapshot.events_dropped_stopped as nat) + end5);
    let last4 = seq![("dropped_stopped"@, Json::Number(snapshot.events_dropped_stopped as int))] + last5;
    json::lemma_member(", \"dropped_stopped\": "@, "dropped_stopped"@, text::decimal(snapshot.events_dropped_stopped as nat), Json::Number(snapshot.events_dropped_stopped as int), end5, last5);
    let end3 = ", \"dropped_full\": "@ + (text::decimal(snapshot.events_dropped_full as nat) + end4);
    let last3 = seq![("dropped_full"@, Json::Number(snapshot.events_dropped_full as int))] + last4;
    json::lemma_member(", \"dropped_full\": "@, "dropped_full"@, text::decimal(snapshot.events_dropped_full as nat), Json::Number(snapshot.events_dropped_full as int), end4, last4);
    let end2 = ", \"processed\": "@ + (text::decimal(snapshot.events_processed as nat) + end3);
    let last2 = seq![("processed"@, Json::Number(snapshot.events_processed as int))] + last3;
    json::lemma_member(", \"processed\": "@, "processed"@, text::decimal(snapshot.events_processed as nat), Json::Number(snapshot.events_processed as int), end3, last3);
    let end1 = ", \"accepted\": "@ + (text::decimal(snapshot.events_accepted as nat) + end2);
    let last1 = seq![("accepted"@, Json::Number(snapshot.events_accepted as int))] + last2;
    json::lemma_member(", \"accepted\": "@, "accepted"@, text::decimal(snapshot.events_accepted as nat), Json::Number(snapshot.events_accepted as int), end2, last2);
    json::lemma_object("{\"received\": "@, "received"@, text::decimal(snapshot.events_received as nat), Json::Number(snapshot.events_received as int), end1, last1);
    assert(events_object(snapshot) == "{\"received\": "@ + (text::decimal(snapshot.events_received as nat) + end1)) by {
        broadcast use json::lemma_grouping;
    }
    assert(seq![("received"@, Json::Number(snapshot.events_received as int))] + last1 =~= seq![
        ("received"@, Json::Number(snapshot.events_received as int)),
        ("accepted"@, Json::Number(snapshot.events_accepted as int)),
        ("processed"@, Json::Number(snapshot.events_processed as int)),
        ("dropped_full"@, Json::Number(snapshot.events_dropped_full as int)),
        ("dropped_stopped"@, Json::Number(snapshot.events_dropped_stopped as int)),
    ]);
}

/// The text of the curve.
spec fn curve_object(snapshot: ApplicationSnapshot, buckets: Seq<char>) -> Seq<char> {
    "{\n    \"bucket_width_nanos\": "@
        + text::decimal(snapshot.curve.bucket_width_nanos as nat)
        + ", \"maximum_buckets\": "@
        + text::decimal(snapshot.curve.maximum_buckets as nat)
        + ", \"events_received\": "@
        + text::decimal(snapshot.curve.events_received as nat)
        + ", \"events_accepted\": "@
        + text::decimal(snapshot.curve.events_accepted as nat)
        + ", \"events_late_dropped\": "@
        + text::decimal(snapshot.curve.events_late_dropped as nat)
        + ", \"bytes_received\": "@
        + text::decimal(snapshot.curve.bytes_received as nat)
        + ", \"bytes_accepted\": "@
        + text::decimal(snapshot.curve.bytes_accepted as nat)
        + ", \"bytes_late_dropped\": "@
        + text::decimal(snapshot.curve.bytes_late_dropped as nat)
        + ",\n    \"buckets\": "@
        + buckets
        + "\n  }"@
}

/// The curve is read back.
#[verifier::rlimit(60)]
proof fn lemma_curve_is_read_back(snapshot: ApplicationSnapshot, buckets: Seq<char>, buckets_value: Json)
    requires
        json::reads_as(buckets, buckets_value),
    ensures
        json::reads_as(
            curve_object(snapshot, buckets),
            Json::Object(
                seq![
                    ("bucket_width_nanos"@, Json::Number(snapshot.curve.bucket_width_nanos as int)),
                    ("maximum_buckets"@, Json::Number(snapshot.curve.maximum_buckets as int)),
                    ("events_received"@, Json::Number(snapshot.curve.events_received as int)),
                    ("events_accepted"@, Json::Number(snapshot.curve.events_accepted as int)),
                    ("events_late_dropped"@, Json::Number(snapshot.curve.events_late_dropped as int)),
                    ("bytes_received"@, Json::Number(snapshot.curve.bytes_received as int)),
                    ("bytes_accepted"@, Json::Number(snapshot.curve.bytes_accepted as int)),
                    ("bytes_late_dropped"@, Json::Number(snapshot.curve.bytes_late_dropped as int)),
                    ("buckets"@, buckets_value),
                ],
            ),
        ),
{
    lemma_labels();
    json::lemma_number(snapshot.curve.bucket_width_nanos as nat);
    json::lemma_number(snapshot.curve.maximum_buckets as nat);
    json::lemma_number(snapshot.curve.events_received as nat);
    json::lemma_number(snapshot.curve.events_accepted as nat);
    json::lemma_number(snapshot.curve.events_late_dropped as nat);
    json::lemma_number(snapshot.curve.bytes_received as nat);
    json::lemma_number(snapshot.curve.bytes_accepted as nat);
    json::lemma_number(snapshot.curve.bytes_late_dropped as nat);
    let end9 = "\n  }"@;
    let last9 = Seq::<(Seq<char>, Json)>::empty();
    let end8 = ",\n    \"buckets\": "@ + (buckets + end9);
    let last8 = seq![("buckets"@, buckets_value)] + last9;
    json::lemma_member(",\n    \"buckets\": "@, "buckets"@, buckets, buckets_value, end9, last9);
    let end7 = ", \"bytes_late_dropped\": "@ + (text::decimal(snapshot.curve.bytes_late_dropped as nat) + end8);
    let last7 = seq![("bytes_late_dropped"@, Json::Number(snapshot.curve.bytes_late_dropped as int))] + last8;
    json::lemma_member(", \"bytes_late_dropped\": "@, "bytes_late_dropped"@, text::decimal(snapshot.curve.bytes_late_dropped as nat), Json::Number(snapshot.curve.bytes_late_dropped as int), end8, last8);
    let end6 = ", \"bytes_accepted\": "@ + (text::decimal(snapshot.curve.bytes_accepted as nat) + end7);
    let last6 = seq![("bytes_accepted"@, Json::Number(snapshot.curve.bytes_accepted as int))] + last7;
    json::lemma_member(", \"bytes_accepted\": "@, "bytes_accepted"@, text::decimal(snapshot.curve.bytes_accepted as nat), Json::Number(snapshot.curve.bytes_accepted as int), end7, last7);
    let end5 = ", \"bytes_received\": "@ + (text::decimal(snapshot.curve.bytes_received as nat) + end6);
    let last5 = seq![("bytes_received"@, Json::Number(snapshot.curve.bytes_received as int))] + last6;
    json::lemma_member(", \"bytes_received\": "@, "bytes_received"@, text::decimal(snapshot.curve.bytes_received as nat), Json::Number(snapshot.curve.bytes_received as int), end6, last6);
    let end4 = ", \"events_late_dropped\": "@ + (text::decimal(snapshot.curve.events_late_dropped as nat) + end5);
    let last4 = seq![("events_late_dropped"@, Json::Number(snapshot.curve.events_late_dropped as int))] + last5;
    json::lemma_member(", \"events_late_dropped\": "@, "events_late_dropped"@, text::decimal(snapshot.curve.events_late_dropped as nat), Json::Number(snapshot.curve.events_late_dropped as int), end5, last5);
    let end3 = ", \"events_accepted\": "@ + (text::decimal(snapshot.curve.events_accepted as nat) + end4);
    let last3 = seq![("events_accepted"@, Json::Number(snapshot.curve.events_accepted as int))] + last4;
    json::lemma_member(", \"events_accepted\": "@, "events_accepted"@, text::decimal(snapshot.curve.events_accepted as nat), Json::Number(snapshot.curve.events_accepted as int), end4, last4);
    let end2 = ", \"events_received\": "@ + (text::decimal(snapshot.curve.events_received as nat) + end3);
    let last2 = seq![("events_received"@, Json::Number(snapshot.curve.events_received as int))] + last3;
    json::lemma_member(", \"events_received\": "@, "events_received"@, text::decimal(snapshot.curve.events_received as nat), Json::Number(snapshot.curve.events_received as int), end3, last3);
    let end1 = ", \"maximum_buckets\": "@ + (text::decimal(snapshot.curve.maximum_buckets as nat) + end2);
    let last1 = seq![("maximum_buckets"@, Json::Number(snapshot.curve.maximum_buckets as int))] + last2;
    json::lemma_member(", \"maximum_buckets\": "@, "maximum_buckets"@, text::decimal(snapshot.curve.maximum_buckets as nat), Json::Number(snapshot.curve.maximum_buckets as int), end2, last2);
    json::lemma_object("{\n    \"bucket_width_nanos\": "@, "bucket_width_nanos"@, text::decimal(snapshot.curve.bucket_width_nanos as nat), Json::Number(snapshot.curve.bucket_width_nanos as int), end1, last1);
    assert(curve_object(snapshot, buckets) == "{\n    \"bucket_width_nanos\": "@ + (text::decimal(snapshot.curve.bucket_width_nanos as nat) + end1)) by {
        broadcast use json::lemma_grouping;
    }
    assert(seq![("bucket_width_nanos"@, Json::Number(snapshot.curve.bucket_width_nanos as int))] + last1 =~= seq![
        ("bucket_width_nanos"@, Json::Number(snapshot.curve.bucket_width_nanos as int)),
        ("maximum_buckets"@, Json::Number(snapshot.curve.maximum_buckets as int)),
        ("events_received"@, Json::Number(snapshot.curve.events_received as int)),
        ("events_accepted"@, Json::Number(snapshot.curve.events_accepted as int)),
        ("events_late_dropped"@, Json::Number(snapshot.curve.events_late_dropped as int)),
        ("bytes_received"@, Json::Number(snapshot.curve.bytes_received as int)),
        ("bytes_accepted"@, Json::Number(snapshot.curve.bytes_accepted as int)),
        ("bytes_late_dropped"@, Json::Number(snapshot.curve.bytes_late_dropped as int)),
        ("buckets"@, buckets_value),
    ]);
}

/// The text of the rate of the network.
spec fn rate_object(rate: NetworkRateSnapshot) -> Seq<char> {
    "{\"sampled_at_unix_nanos\":"@
        + text::decimal(rate.sampled_at_unix_nanos as nat)
        + ",\"interval_nanos\":"@
        + text::decimal(rate.interval_nanos as nat)
        + ",\"send_bytes_per_second\":"@
        + text::decimal(rate.send_bytes_per_second as nat)
        + ",\"receive_bytes_per_second\":"@
        + text::decimal(rate.receive_bytes_per_second as nat)
        + "}"@
}

/// The rate of the network is read back.
#[verifier::rlimit(60)]
proof fn lemma_rate_is_read_back(rate: NetworkRateSnapshot)
    ensures
        json::reads_as(
            rate_object(rate),
            Json::Object(
                seq![
                    ("sampled_at_unix_nanos"@, Json::Number(rate.sampled_at_unix_nanos as int)),
                    ("interval_nanos"@, Json::Number(rate.interval_nanos as int)),
                    ("send_bytes_per_second"@, Json::Number(rate.send_bytes_per_second as int)),
                    ("receive_bytes_per_second"@, Json::Number(rate.receive_bytes_per_second as int)),
                ],
            ),
        ),
{
    lemma_labels();
    json::lemma_number(rate.sampled_at_unix_nanos as nat);
    json::lemma_number(rate.interval_nanos as nat);
    json::lemma_number(rate.send_bytes_per_second as nat);
    json::lemma_number(rate.receive_bytes_per_second as nat);
    let end4 = "}"@;
    let last4 = Seq::<(Seq<char>, Json)>::empty();
    let end3 = ",\"receive_bytes_per_second\":"@ + (text::decimal(rate.receive_bytes_per_second as nat) + end4);
    let last3 = seq![("receive_bytes_per_second"@, Json::Number(rate.receive_bytes_per_second as int))] + last4;
    json::lemma_member(",\"receive_bytes_per_second\":"@, "receive_bytes_per_second"@, text::decimal(rate.receive_bytes_per_second as nat), Json::Number(rate.receive_bytes_per_second as int), end4, last4);
    let end2 = ",\"send_bytes_per_second\":"@ + (text::decimal(rate.send_bytes_per_second as nat) + end3);
    let last2 = seq![("send_bytes_per_second"@, Json::Number(rate.send_bytes_per_second as int))] + last3;
    json::lemma_member(",\"send_bytes_per_second\":"@, "send_bytes_per_second"@, text::decimal(rate.send_bytes_per_second as nat), Json::Number(rate.send_bytes_per_second as int), end3, last3);
    let end1 = ",\"interval_nanos\":"@ + (text::decimal(rate.interval_nanos as nat) + end2);
    let last1 = seq![("interval_nanos"@, Json::Number(rate.interval_nanos as int))] + last2;
    json::lemma_member(",\"interval_nanos\":"@, "interval_nanos"@, text::decimal(rate.interval_nanos as nat), Json::Number(rate.interval_nanos as int), end2, last2);
    json::lemma_object("{\"sampled_at_unix_nanos\":"@, "sampled_at_unix_nanos"@, text::decimal(rate.sampled_at_unix_nanos as nat), Json::Number(rate.sampled_at_unix_nanos as int), end1, last1);
    assert(rate_object(rate) == "{\"sampled_at_unix_nanos\":"@ + (text::decimal(rate.sampled_at_unix_nanos as nat) + end1)) by {
        broadcast use json::lemma_grouping;
    }
    assert(seq![("sampled_at_unix_nanos"@, Json::Number(rate.sampled_at_unix_nanos as int))] + last1 =~= seq![
        ("sampled_at_unix_nanos"@, Json::Number(rate.sampled_at_unix_nanos as int)),
        ("interval_nanos"@, Json::Number(rate.interval_nanos as int)),
        ("send_bytes_per_second"@, Json::Number(rate.send_bytes_per_second as int)),
        ("receive_bytes_per_second"@, Json::Number(rate.receive_bytes_per_second as int)),
    ]);
}

/// The text of the system.
spec fn system_object(captured: u64, processes: Seq<char>, connections: Seq<char>) -> Seq<char> {
    "{\"captured_at_unix_nanos\":"@
        + text::decimal(captured as nat)
        + ",\"processes\":"@
        + processes
        + ",\"connections\":"@
        + connections
        + "}"@
}

/// The system is read back.
#[verifier::rlimit(60)]
proof fn lemma_system_is_read_back(captured: u64, processes: Seq<char>, connections: Seq<char>, processes_value: Json, connections_value: Json)
    requires
        json::reads_as(processes, processes_value),
        json::reads_as(connections, connections_value),
    ensures
        json::reads_as(
            system_object(captured, processes, connections),
            Json::Object(
                seq![
                    ("captured_at_unix_nanos"@, Json::Number(captured as int)),
                    ("processes"@, processes_value),
                    ("connections"@, connections_value),
                ],
            ),
        ),
{
    lemma_labels();
    json::lemma_number(captured as nat);
    let end3 = "}"@;
    let last3 = Seq::<(Seq<char>, Json)>::empty();
    let end2 = ",\"connections\":"@ + (connections + end3);
    let last2 = seq![("connections"@, connections_value)] + last3;
    json::lemma_member(",\"connections\":"@, "connections"@, connections, connections_value, end3, last3);
    let end1 = ",\"processes\":"@ + (processes + end2);
    let last1 = seq![("processes"@, processes_value)] + last2;
    json::lemma_member(",\"processes\":"@, "processes"@, processes, processes_value, end2, last2);
    json::lemma_object("{\"captured_at_unix_nanos\":"@, "captured_at_unix_nanos"@, text::decimal(captured as nat), Json::Number(captured as int), end1, last1);
    assert(system_object(captured, processes, connections) == "{\"captured_at_unix_nanos\":"@ + (text::decimal(captured as nat) + end1)) by {
        broadcast use json::lemma_grouping;
    }
    assert(seq![("captured_at_unix_nanos"@, Json::Number(captured as int))] + last1 =~= seq![
        ("captured_at_unix_nanos"@, Json::Number(captured as int)),
        ("processes"@, processes_value),
        ("connections"@, connections_value),
    ]);
}

/// The text of a snapshot and its parts.
spec fn whole_text(
    snapshot: ApplicationSnapshot,
    events: Seq<char>,
    curve: Seq<char>,
    network_rate: Seq<char>,
    recent_60_seconds: Seq<char>,
    process_traffic: Seq<char>,
    flows: Seq<char>,
    system: Seq<char>,
) -> Seq<char> {
    "{\n  \"running\": "@
        + truth_text(snapshot.running)
        + ",\n  \"capture_status\": "@
        + quoting::json_string(status_name(snapshot.capture_status))
        + ",\n  \"capture_restriction\": "@
        + quoting::json_string(restriction_name(snapshot.capture_status))
        + ",\n  \"events\": "@
        + events
        + ",\n  \"curve\": "@
        + curve
        + ",\n  \"network_rate\": "@
        + network_rate
        + ",\n  \"recent_60_seconds\": "@
        + recent_60_seconds
        + ",\n  \"process_traffic\": "@
        + process_traffic
        + ",\n  \"flows\": "@
        + flows
        + ",\n  \"system\": "@
        + system
        + "\n}"@
}

/// A snapshot and its parts are read as the members that they are.
#[verifier::rlimit(60)]
proof fn lemma_whole_is_read_back(
    snapshot: ApplicationSnapshot,
    events: Seq<char>,
    curve: Seq<char>,
    network_rate: Seq<char>,
    recent_60_seconds: Seq<char>,
    process_traffic: Seq<char>,
    flows: Seq<char>,
    system: Seq<char>,
    events_value: Json,
    curve_value: Json,
    network_rate_value: Json,
    recent_60_seconds_value: Json,
    process_traffic_value: Json,
    flows_value: Json,
    system_value: Json,
)
    requires
        json::reads_as(events, events_value),
        json::reads_as(curve, curve_value),
        json::reads_as(network_rate, network_rate_value),
        json::reads_as(recent_60_seconds, recent_60_seconds_value),
        json::reads_as(process_traffic, process_traffic_value),
        json::reads_as(flows, flows_value),
        json::reads_as(system, system_value),
    ensures
        json::reads_as(
            whole_text(snapshot, events, curve, network_rate, recent_60_seconds, process_traffic, flows, system),
            Json::Object(
                seq![
                    ("running"@, Json::Truth(snapshot.running)),
                    ("capture_status"@, Json::Text(status_name(snapshot.capture_status))),
                    ("capture_restriction"@, Json::Text(restriction_name(snapshot.capture_status))),
                    ("events"@, events_value),
                    ("curve"@, curve_value),
                    ("network_rate"@, network_rate_value),
                    ("recent_60_seconds"@, recent_60_seconds_value),
                    ("process_traffic"@, process_traffic_value),
                    ("flows"@, flows_value),
                    ("system"@, system_value),
                ],
            ),
        ),
{
    lemma_labels();
    json::lemma_truth();
    json::lemma_text(status_name(snapshot.capture_status));
    json::lemma_text(restriction_name(snapshot.capture_status));
    let end10 = "\n}"@;
    let last10 = Seq::<(Seq<char>, Json)>::empty();
    let end9 = ",\n  \"system\": "@ + (system + end10);
    let last9 = seq![("system"@, system_value)] + last10;
    json::lemma_member(",\n  \"system\": "@, "system"@, system, system_value, end10, last10);
    let end8 = ",\n  \"flows\": "@ + (flows + end9);
    let last8 = seq![("flows"@, flows_value)] + last9;
    json::lemma_member(",\n  \"flows\": "@, "flows"@, flows, flows_value, end9, last9);
    let end7 = ",\n  \"process_traffic\": "@ + (process_traffic + end8);
    let last7 = seq![("process_traffic"@, process_traffic_value)] + last8;
    json::lemma_member(",\n  \"process_traffic\": "@, "process_traffic"@, process_traffic, process_traffic_value, end8, last8);
    let end6 = ",\n  \"recent_60_seconds\": "@ + (recent_60_seconds + end7);
    let last6 = seq![("recent_60_seconds"@, recent_60_seconds_value)] + last7;
    json::lemma_member(",\n  \"recent_60_seconds\": "@, "recent_60_seconds"@, recent_60_seconds, recent_60_seconds_value, end7, last7);
    let end5 = ",\n  \"network_rate\": "@ + (network_rate + end6);
    let last5 = seq![("network_rate"@, network_rate_value)] + last6;
    json::lemma_member(",\n  \"network_rate\": "@, "network_rate"@, network_rate, network_rate_value, end6, last6);
    let end4 = ",\n  \"curve\": "@ + (curve + end5);
    let last4 = seq![("curve"@, curve_value)] + last5;
    json::lemma_member(",\n  \"curve\": "@, "curve"@, curve, curve_value, end5, last5);
    let end3 = ",\n  \"events\": "@ + (events + end4);
    let last3 = seq![("events"@, events_value)] + last4;
    json::lemma_member(",\n  \"events\": "@, "events"@, events, events_value, end4, last4);
    let end2 = ",\n  \"capture_restriction\": "@ + (quoting::json_string(restriction_name(snapshot.capture_status)) + end3);
    let last2 = seq![("capture_restriction"@, Json::Text(restriction_name(snapshot.capture_status)))] + last3;
    json::lemma_member(",\n  \"capture_restriction\": "@, "capture_restriction"@, quoting::json_string(restriction_name(snapshot.capture_status)), Json::Text(restriction_name(snapshot.capture_status)), end3, last3);
    let end1 = ",\n  \"capture_status\": "@ + (quoting::json_string(status_name(snapshot.capture_status)) + end2);
    let last1 = seq![("capture_status"@, Json::Text(status_name(snapshot.capture_status)))] + last2;
    json::lemma_member(",\n  \"capture_status\": "@, "capture_status"@, quoting::json_string(status_name(snapshot.capture_status)), Json::Text(status_name(snapshot.capture_status)), end2, last2);
    json::lemma_object("{\n  \"running\": "@, "running"@, truth_text(snapshot.running), Json::Truth(snapshot.running), end1, last1);
    assert(whole_text(snapshot, events, curve, network_rate, recent_60_seconds, process_traffic, flows, system) == "{\n  \"running\": "@ + (truth_text(snapshot.running) + end1)) by {
        broadcast use json::lemma_grouping;
    }
    assert(seq![("running"@, Json::Truth(snapshot.running))] + last1 =~= seq![
        ("running"@, Json::Truth(snapshot.running)),
        ("capture_status"@, Json::Text(status_name(snapshot.capture_status))),
        ("capture_restriction"@, Json::Text(restriction_name(snapshot.capture_status))),
        ("events"@, events_value),
        ("curve"@, curve_value),
        ("network_rate"@, network_rate_value),
        ("recent_60_seconds"@, recent_60_seconds_value),
        ("process_traffic"@, process_traffic_value),
        ("flows"@, flows_value),
        ("system"@, system_value),
    ]);
}

/// The buckets of a snapshot are read back.
proof fn lemma_buckets_are_read_back(items: Seq<TrafficBucket>)
    ensures
        json::reads_as(
            "["@ + (listed(items.map_values(|bucket: TrafficBucket| bucket_json(bucket))) + "]"@),
            Json::List(items.map_values(|bucket: TrafficBucket| bucket_value(bucket))),
        ),
{
    let words = items.map_values(|bucket: TrafficBucket| bucket_json(bucket));
    let values = items.map_values(|bucket: TrafficBucket| bucket_value(bucket));
    assert forall|i: int| 0 <= i < words.len() implies json::reads_as(
        #[trigger] words[i],
        values[i],
    ) by {
        lemma_bucket_is_read_back(items[i]);
        reveal(bucket_value);
    }
    reveal_strlit("[");
    reveal_strlit("");
    reveal_strlit("]");
    json::lemma_list("["@, words, values, ""@);
    assert(""@ + seq![']'] =~= "]"@);
}

/// The traffic of a snapshot are read back.
proof fn lemma_traffic_are_read_back(items: Seq<ProcessTrafficSnapshot>)
    ensures
        json::reads_as(
            "["@ + (listed(items.map_values(|process: ProcessTrafficSnapshot| traffic_json(process))) + "]"@),
            Json::List(items.map_values(|process: ProcessTrafficSnapshot| traffic_value(process))),
        ),
{
    let words = items.map_values(|process: ProcessTrafficSnapshot| traffic_json(process));
    let values = items.map_values(|process: ProcessTrafficSnapshot| traffic_value(process));
    assert forall|i: int| 0 <= i < words.len() implies json::reads_as(
        #[trigger] words[i],
        values[i],
    ) by {
        lemma_traffic_is_read_back(items[i]);
        reveal(traffic_value);
    }
    reveal_strlit("[");
    reveal_strlit("");
    reveal_strlit("]");
    json::lemma_list("["@, words, values, ""@);
    assert(""@ + seq![']'] =~= "]"@);
}

/// The flows of a snapshot are read back.
proof fn lemma_flows_are_read_back(items: Seq<FlowSnapshot>)
    ensures
        json::reads_as(
            "["@ + (listed(items.map_values(|flow: FlowSnapshot| flow_json(flow))) + "]"@),
            Json::List(items.map_values(|flow: FlowSnapshot| flow_value(flow))),
        ),
{
    let words = items.map_values(|flow: FlowSnapshot| flow_json(flow));
    let values = items.map_values(|flow: FlowSnapshot| flow_value(flow));
    assert forall|i: int| 0 <= i < words.len() implies json::reads_as(
        #[trigger] words[i],
        values[i],
    ) by {
        lemma_flow_is_read_back(items[i]);
        reveal(flow_value);
    }
    reveal_strlit("[");
    reveal_strlit("");
    reveal_strlit("]");
    json::lemma_list("["@, words, values, ""@);
    assert(""@ + seq![']'] =~= "]"@);
}

/// The processes of a snapshot are read back.
proof fn lemma_processes_are_read_back(items: Seq<ProcessSnapshot>)
    ensures
        json::reads_as(
            "["@ + (listed(items.map_values(|process: ProcessSnapshot| process_json(process))) + "]"@),
            Json::List(items.map_values(|process: ProcessSnapshot| process_value(process))),
        ),
{
    let words = items.map_values(|process: ProcessSnapshot| process_json(process));
    let values = items.map_values(|process: ProcessSnapshot| process_value(process));
    assert forall|i: int| 0 <= i < words.len() implies json::reads_as(
        #[trigger] words[i],
        values[i],
    ) by {
        lemma_process_is_read_back(items[i]);
        reveal(process_value);
    }
    reveal_strlit("[");
    reveal_strlit("");
    reveal_strlit("]");
    json::lemma_list("["@, words, values, ""@);
    assert(""@ + seq![']'] =~= "]"@);
}

/// The connections of a snapshot are read back.
proof fn lemma_connections_are_read_back(items: Seq<ConnectionSnapshot>, details: Seq<ConnectionDetailSnapshot>)
    ensures
        json::reads_as(
            "["@ + (listed(items.map_values(|connection: ConnectionSnapshot| connection_json(connection, details))) + "]"@),
            Json::List(items.map_values(|connection: ConnectionSnapshot| connection_value(connection, details))),
        ),
{
    let words = items.map_values(|connection: ConnectionSnapshot| connection_json(connection, details));
    let values = items.map_values(|connection: ConnectionSnapshot| connection_value(connection, details));
    assert forall|i: int| 0 <= i < words.len() implies json::reads_as(
        #[trigger] words[i],
        values[i],
    ) by {
        lemma_connection_is_read_back(items[i], details);
        reveal(connection_value);
    }
    reveal_strlit("[");
    reveal_strlit("");
    reveal_strlit("]");
    json::lemma_list("["@, words, values, ""@);
    assert(""@ + seq![']'] =~= "]"@);
}

/// The text of the processes and connections of the system.
#[verifier::rlimit(60)]
proof fn lemma_system_text(system: SystemView, details: Seq<ConnectionDetailSnapshot>)
    ensures
        system_json(system, details) == system_object(
            system.captured_at,
            "["@ + (listed(
                sorted_processes(system.processes).map_values(
                    |process: ProcessSnapshot| process_json(process),
                ),
            ) + "]"@),
            "["@ + (listed(
                sorted_connections(system.connections).map_values(
                    |connection: ConnectionSnapshot| connection_json(connection, details),
                ),
            ) + "]"@),
        ),
{
    lemma_pieces();
    let processes = listed(
        sorted_processes(system.processes).map_values(
            |process: ProcessSnapshot| process_json(process),
        ),
    );
    let connections = listed(
        sorted_connections(system.connections).map_values(
            |connection: ConnectionSnapshot| connection_json(connection, details),
        ),
    );
    assert(system_json(system, details) == system_object(
        system.captured_at,
        "["@ + (processes + "]"@),
        "["@ + (connections + "]"@),
    )) by {
        broadcast use json::lemma_grouping;
    }
}

/// The text of the system, where it is known.
spec fn known_system(snapshot: ApplicationSnapshot) -> Seq<char> {
    match snapshot.system {
        Some(system) => system_json(system@, snapshot.connection_details@),
        None => "null"@,
    }
}

/// The JSON of a snapshot is the text of its parts.
#[verifier::rlimit(60)]
proof fn lemma_snapshot_text(
    snapshot: ApplicationSnapshot,
    buckets: Seq<char>,
    recent: Seq<char>,
    traffic: Seq<char>,
    flows: Seq<char>,
)
    requires
        buckets == listed(snapshot.curve.buckets@.map_values(|bucket: TrafficBucket| bucket_json(bucket))),
        recent == listed(
            snapshot.recent_60_seconds.buckets@.map_values(
                |bucket: TrafficBucket| bucket_json(bucket),
            ),
        ),
        traffic == listed(
            snapshot.process_traffic@.map_values(
                |process: ProcessTrafficSnapshot| traffic_json(process),
            ),
        ),
        flows == listed(sorted_flows(snapshot.flows@).map_values(|flow: FlowSnapshot| flow_json(flow))),
    ensures
        snapshot_json(snapshot) == whole_text(
            snapshot,
            events_object(snapshot),
            curve_object(snapshot, "["@ + (buckets + "]"@)),
            rate_object(snapshot.network_rate),
            "["@ + (recent + "]"@),
            "["@ + (traffic + "]"@),
            "["@ + (flows + "]"@),
            known_system(snapshot),
        ) + "\n"@,
{
    lemma_pieces();
    let system = known_system(snapshot);
    lemma_counts_text(snapshot);
    lemma_rate_text(snapshot.network_rate);
    assert(snapshot_json(snapshot) == whole_text(
        snapshot,
        events_object(snapshot),
        curve_object(snapshot, "["@ + (buckets + "]"@)),
        rate_object(snapshot.network_rate),
        "["@ + (recent + "]"@),
        "["@ + (traffic + "]"@),
        "["@ + (flows + "]"@),
        system,
    ) + "\n"@) by {
        broadcast use json::lemma_grouping;
    }
}

/// The text of the curve up to its buckets.
spec fn curve_head(snapshot: ApplicationSnapshot) -> Seq<char> {
    "{\n    \"bucket_width_nanos\": "@
        + text::decimal(snapshot.curve.bucket_width_nanos as nat)
        + ", \"maximum_buckets\": "@
        + text::decimal(snapshot.curve.maximum_buckets as nat)
        + ", \"events_received\": "@
        + text::decimal(snapshot.curve.events_received as nat)
        + ", \"events_accepted\": "@
        + text::decimal(snapshot.curve.events_accepted as nat)
        + ", \"events_late_dropped\": "@
        + text::decimal(snapshot.curve.events_late_dropped as nat)
        + ", \"bytes_received\": "@
        + text::decimal(snapshot.curve.bytes_received as nat)
        + ", \"bytes_accepted\": "@
        + text::decimal(snapshot.curve.bytes_accepted as nat)
        + ", \"bytes_late_dropped\": "@
        + text::decimal(snapshot.curve.bytes_late_dropped as nat)
        + ",\n    \"buckets\": "@
}

/// The counts of events and the head of the curve are the text of them.
#[verifier::rlimit(60)]
proof fn lemma_counts_text(snapshot: ApplicationSnapshot)
    ensures
        counts_json(snapshot) == ",\n  \"events\": "@ + events_object(snapshot)
            + ",\n  \"curve\": "@ + curve_head(snapshot) + "["@,
        forall|buckets: Seq<char>|
            #![trigger curve_object(snapshot, buckets)]
            curve_object(snapshot, buckets) == curve_head(snapshot) + buckets + "\n  }"@,
{
    lemma_pieces();
    assert(counts_json(snapshot) == ",\n  \"events\": "@ + events_object(snapshot)
        + ",\n  \"curve\": "@ + curve_head(snapshot) + "["@) by {
        broadcast use json::lemma_grouping;
    }
}

/// The rate of the network closes the list before it and opens the one behind it.
#[verifier::rlimit(60)]
proof fn lemma_rate_text(rate: NetworkRateSnapshot)
    ensures
        rate_json(rate) == "]"@ + "\n  }"@ + ",\n  \"network_rate\": "@ + rate_object(rate)
            + ",\n  \"recent_60_seconds\": "@ + "["@,
{
    lemma_pieces();
    assert(rate_json(rate) == "]"@ + "\n  }"@ + ",\n  \"network_rate\": "@ + rate_object(rate)
        + ",\n  \"recent_60_seconds\": "@ + "["@) by {
        broadcast use json::lemma_grouping;
    }
}

/// The system is read back where it is known.
#[verifier::rlimit(60)]
proof fn lemma_known_system_is_read_back(snapshot: ApplicationSnapshot)
    ensures
        json::reads_as(known_system(snapshot), system_value(snapshot)),
{
    reveal(system_value);
    json::lemma_null();
    if let Some(system) = snapshot.system {
        let details = snapshot.connection_details@;
        lemma_system_text(system@, details);
        lemma_processes_are_read_back(sorted_processes(system.processes@));
        lemma_connections_are_read_back(sorted_connections(system.connections@), details);
        lemma_system_is_read_back(
            system.captured_at_unix_nanos,
            "["@ + (listed(
                sorted_processes(system.processes@).map_values(
                    |process: ProcessSnapshot| process_json(process),
                ),
            ) + "]"@),
            "["@ + (listed(
                sorted_connections(system.connections@).map_values(
                    |connection: ConnectionSnapshot| connection_json(connection, details),
                ),
            ) + "]"@),
            Json::List(
                sorted_processes(system.processes@).map_values(
                    |process: ProcessSnapshot| process_value(process),
                ),
            ),
            Json::List(
                sorted_connections(system.connections@).map_values(
                    |connection: ConnectionSnapshot| connection_value(connection, details),
                ),
            ),
        );
    }
}

/// The curve of a snapshot is read back.
#[verifier::rlimit(60)]
proof fn lemma_known_curve_is_read_back(snapshot: ApplicationSnapshot)
    ensures
        json::reads_as(
            curve_object(
                snapshot,
                "["@ + (listed(
                    snapshot.curve.buckets@.map_values(
                        |bucket: TrafficBucket| bucket_json(bucket),
                    ),
                ) + "]"@),
            ),
            curve_value(snapshot),
        ),
{
    reveal(curve_value);
    lemma_buckets_are_read_back(snapshot.curve.buckets@);
    lemma_curve_is_read_back(
        snapshot,
        "["@ + (listed(
            snapshot.curve.buckets@.map_values(|bucket: TrafficBucket| bucket_json(bucket)),
        ) + "]"@),
        Json::List(
            snapshot.curve.buckets@.map_values(|bucket: TrafficBucket| bucket_value(bucket)),
        ),
    );
}

/// The JSON of a snapshot, read by a reader of the format, is the snapshot: each part under its
/// name, every bucket, process, flow and connection in its place.
#[verifier::rlimit(60)]
pub proof fn law_snapshot_json_is_read_back(snapshot: ApplicationSnapshot)
    ensures
        json::read(snapshot_json(snapshot)) == Some(
            Json::Object(
                seq![
                    ("running"@, Json::Truth(snapshot.running)),
                    ("capture_status"@, Json::Text(status_name(snapshot.capture_status))),
                    ("capture_restriction"@, Json::Text(restriction_name(snapshot.capture_status))),
                    (
                        "events"@,
                        events_value(snapshot),
                    ),
                    (
                        "curve"@,
                        curve_value(snapshot),
                    ),
                    (
                        "network_rate"@,
                        rate_value(snapshot.network_rate),
                    ),
                    (
                        "recent_60_seconds"@,
                        Json::List(
                            snapshot.recent_60_seconds.buckets@.map_values(
                                |bucket: TrafficBucket| bucket_value(bucket),
                            ),
                        ),
                    ),
                    (
                        "process_traffic"@,
                        Json::List(
                            snapshot.process_traffic@.map_values(
                                |process: ProcessTrafficSnapshot| traffic_value(process),
                            ),
                        ),
                    ),
                    (
                        "flows"@,
                        Json::List(
                            sorted_flows(snapshot.flows@).map_values(
                                |flow: FlowSnapshot| flow_value(flow),
                            ),
                        ),
                    ),
                    (
                        "system"@,
                        system_value(snapshot),
                    ),
                ],
            ),
        ),
{
    let buckets = listed(snapshot.curve.buckets@.map_values(|bucket: TrafficBucket| bucket_json(bucket)));
    let recent = listed(
        snapshot.recent_60_seconds.buckets@.map_values(
            |bucket: TrafficBucket| bucket_json(bucket),
        ),
    );
    let traffic = listed(
        snapshot.process_traffic@.map_values(
            |process: ProcessTrafficSnapshot| traffic_json(process),
        ),
    );
    let flows = listed(sorted_flows(snapshot.flows@).map_values(|flow: FlowSnapshot| flow_json(flow)));
    lemma_events_are_read_back(snapshot);
    lemma_known_curve_is_read_back(snapshot);
    lemma_rate_is_read_back(snapshot.network_rate);
    lemma_buckets_are_read_back(snapshot.recent_60_seconds.buckets@);
    lemma_traffic_are_read_back(snapshot.process_traffic@);
    lemma_flows_are_read_back(sorted_flows(snapshot.flows@));
    lemma_known_system_is_read_back(snapshot);
    reveal(events_value);
    reveal(rate_value);
    lemma_snapshot_text(snapshot, buckets, recent, traffic, flows);
    lemma_whole_is_read_back(
        snapshot,
        events_object(snapshot),
        curve_object(snapshot, "["@ + (buckets + "]"@)),
        rate_object(snapshot.network_rate),
        "["@ + (recent + "]"@),
        "["@ + (traffic + "]"@),
        "["@ + (flows + "]"@),
        known_system(snapshot),
        events_value(snapshot),
        curve_value(snapshot),
        rate_value(snapshot.network_rate),
        Json::List(
                            snapshot.recent_60_seconds.buckets@.map_values(
                                |bucket: TrafficBucket| bucket_value(bucket),
                            ),
                        ),
        Json::List(
                            snapshot.process_traffic@.map_values(
                                |process: ProcessTrafficSnapshot| traffic_value(process),
                            ),
                        ),
        Json::List(
                            sorted_flows(snapshot.flows@).map_values(
                                |flow: FlowSnapshot| flow_value(flow),
                            ),
                        ),
        system_value(snapshot),
    );
    json::lemma_read(
        whole_text(
        snapshot,
        events_object(snapshot),
        curve_object(snapshot, "["@ + (buckets + "]"@)),
        rate_object(snapshot.network_rate),
        "["@ + (recent + "]"@),
        "["@ + (traffic + "]"@),
        "["@ + (flows + "]"@),
        known_system(snapshot),
        ),
        Json::Object(
            seq![
                ("running"@, Json::Truth(snapshot.running)),
                ("capture_status"@, Json::Text(status_name(snapshot.capture_status))),
                ("capture_restriction"@, Json::Text(restriction_name(snapshot.capture_status))),
                ("events"@, events_value(snapshot)),
                ("curve"@, curve_value(snapshot)),
                ("network_rate"@, rate_value(snapshot.network_rate)),
                ("recent_60_seconds"@, Json::List(
                            snapshot.recent_60_seconds.buckets@.map_values(
                                |bucket: TrafficBucket| bucket_value(bucket),
                            ),
                        )),
                ("process_traffic"@, Json::List(
                            snapshot.process_traffic@.map_values(
                                |process: ProcessTrafficSnapshot| traffic_value(process),
                            ),
                        )),
                ("flows"@, Json::List(
                            sorted_flows(snapshot.flows@).map_values(
                                |flow: FlowSnapshot| flow_value(flow),
                            ),
                        )),
                ("system"@, system_value(snapshot)),
            ],
        ),
    );
}

/// The parts of a snapshot's JSON, member by member.
pub proof fn law_parts_of_snapshot_json(
    snapshot: ApplicationSnapshot,
    bucket: TrafficBucket,
    row: ProcessTrafficSnapshot,
    flow: FlowSnapshot,
    process: ProcessSnapshot,
    connection: ConnectionSnapshot,
    details: Seq<ConnectionDetailSnapshot>,
    rate: NetworkRateSnapshot,
)
    ensures
        bucket_value(bucket) == Json::Object(
            seq![
                ("start_unix_nanos"@, Json::Number(bucket.start_unix_nanos as int)),
                ("send_bytes"@, Json::Number(bucket.send_bytes as int)),
                ("receive_bytes"@, Json::Number(bucket.receive_bytes as int)),
            ],
        ),
        traffic_value(row) == Json::Object(
            seq![
                ("pid"@, Json::Number(row.pid as int)),
                ("process_started_at_unix_nanos"@, Json::Number(started_at(row.process_key) as int)),
                ("name"@, json::text_or_null(text::optional(row.name))),
                ("image_path"@, json::text_or_null(text::optional(row.image_path))),
                ("icon_status"@, Json::Text(icon_name(row.icon))),
                ("send_bytes_total"@, Json::Number(row.send_bytes_total as int)),
                ("receive_bytes_total"@, Json::Number(row.receive_bytes_total as int)),
                ("send_bytes_per_second"@, Json::Number(row.send_bytes_per_second as int)),
                ("receive_bytes_per_second"@, Json::Number(row.receive_bytes_per_second as int)),
                ("connection_count"@, Json::Number(row.connection_count as int)),
                ("last_timestamp_unix_nanos"@, Json::Number(row.last_timestamp_unix_nanos as int)),
            ],
        ),
        flow_value(flow) == Json::Object(
            seq![
                ("pid"@, Json::Number(flow.key.pid as int)),
                ("process_started_at_unix_nanos"@, Json::Number(started_at(flow.process_key) as int)),
                ("protocol"@, Json::Text(protocol_name(flow.key.protocol))),
                ("direction"@, Json::Text(direction_name(flow.key.direction))),
                ("source"@, Json::Text(address::socket_text(flow.key.source))),
                ("destination"@, Json::Text(address::socket_text(flow.key.destination))),
                ("events"@, Json::Number(flow.events as int)),
                ("bytes"@, Json::Number(flow.bytes as int)),
                ("first_timestamp_unix_nanos"@, Json::Number(flow.first_timestamp_unix_nanos as int)),
                ("last_timestamp_unix_nanos"@, Json::Number(flow.last_timestamp_unix_nanos as int)),
            ],
        ),
        process_value(process) == Json::Object(
            seq![
                ("pid"@, Json::Number(process.key.pid as int)),
                ("started_at_unix_nanos"@, Json::Number(process.key.started_at_unix_nanos as int)),
                ("name"@, Json::Text(process.name@)),
                ("image_path"@, json::text_or_null(text::optional(process.image_path))),
                ("icon_status"@, Json::Text(icon_name(process.icon))),
            ],
        ),
        connection_value(connection, details) == Json::Object(
            seq![
                ("pid"@, Json::Number(connection.pid as int)),
                ("process_started_at_unix_nanos"@, Json::Number(started_at(connection.process_key) as int)),
                ("protocol"@, Json::Text(protocol_name(connection.protocol))),
                ("local"@, Json::Text(address::socket_text(connection.local))),
                ("remote"@, json::text_or_null(remote_text(connection.remote))),
                ("tcp_state"@, json::text_or_null(state_text(connection.tcp_state))),
                ("process_name"@, json::text_or_null(detail_name(details, connection))),
                ("process_image_path"@, json::text_or_null(detail_path(details, connection))),
            ],
        ),
        events_value(snapshot) == Json::Object(
            seq![
                ("received"@, Json::Number(snapshot.events_received as int)),
                ("accepted"@, Json::Number(snapshot.events_accepted as int)),
                ("processed"@, Json::Number(snapshot.events_processed as int)),
                ("dropped_full"@, Json::Number(snapshot.events_dropped_full as int)),
                ("dropped_stopped"@, Json::Number(snapshot.events_dropped_stopped as int)),
            ],
        ),
        curve_value(snapshot) == Json::Object(
            seq![
                ("bucket_width_nanos"@, Json::Number(snapshot.curve.bucket_width_nanos as int)),
                ("maximum_buckets"@, Json::Number(snapshot.curve.maximum_buckets as int)),
                ("events_received"@, Json::Number(snapshot.curve.events_received as int)),
                ("events_accepted"@, Json::Number(snapshot.curve.events_accepted as int)),
                ("events_late_dropped"@, Json::Number(snapshot.curve.events_late_dropped as int)),
                ("bytes_received"@, Json::Number(snapshot.curve.bytes_received as int)),
                ("bytes_accepted"@, Json::Number(snapshot.curve.bytes_accepted as int)),
                ("bytes_late_dropped"@, Json::Number(snapshot.curve.bytes_late_dropped as int)),
                ("buckets"@, Json::List(
                    snapshot.curve.buckets@.map_values(
                        |bucket: TrafficBucket| bucket_value(bucket),
                    ),
                )),
            ],
        ),
        rate_value(rate) == Json::Object(
            seq![
                ("sampled_at_unix_nanos"@, Json::Number(rate.sampled_at_unix_nanos as int)),
                ("interval_nanos"@, Json::Number(rate.interval_nanos as int)),
                ("send_bytes_per_second"@, Json::Number(rate.send_bytes_per_second as int)),
                ("receive_bytes_per_second"@, Json::Number(rate.receive_bytes_per_second as int)),
            ],
        ),
        system_value(snapshot) == (match snapshot.system {
            Some(system) => Json::Object(
                seq![
                    ("captured_at_unix_nanos"@, Json::Number(system.captured_at_unix_nanos as int)),
                    (
                        "processes"@,
                        Json::List(
                            sorted_processes(system.processes@).map_values(
                                |process: ProcessSnapshot| process_value(process),
                            ),
                        ),
                    ),
                    (
                        "connections"@,
                        Json::List(
                            sorted_connections(system.connections@).map_values(
                                |connection: ConnectionSnapshot|
                                    connection_value(connection, snapshot.connection_details@),
                            ),
                        ),
                    ),
                ],
            ),
            None => Json::Null,
        }),
{
    reveal(bucket_value);
    reveal(traffic_value);
    reveal(flow_value);
    reveal(process_value);
    reveal(connection_value);
    reveal(events_value);
    reveal(curve_value);
    reveal(rate_value);
    reveal(system_value);
}

/// A row of quoted fields is read as the fields.
proof fn lemma_quoted_row(fields: Seq<Seq<char>>)
    requires
        fields.len() > 0,
    ensures
        table::is_row(quoting::csv_row(fields), fields),
{
    let words = fields.map_values(|field: Seq<char>| quoting::csv_field(field));
    assert forall|i: int| 0 <= i < words.len() implies table::is_field(
        #[trigger] words[i],
        fields[i],
    ) by {
        table::lemma_quoted_field(fields[i]);
    }
    table::lemma_row(words, fields);
}

/// The names of the columns are read back.
#[verifier::rlimit(60)]
proof fn lemma_heading_is_read_back()
    ensures
        table::is_row(
            csv_heading(),
            seq![
                "record_type"@,
                "pid"@,
                "process_started_at_unix_nanos"@,
                "protocol"@,
                "direction"@,
                "local"@,
                "remote"@,
                "state"@,
                "name"@,
                "image_path"@,
                "start_unix_nanos"@,
                "send_bytes"@,
                "receive_bytes"@,
                "events"@,
                "bytes"@,
            ],
        ),
{
    assert(table::is_field("record_type"@, "record_type"@)) by {
        reveal_strlit("record_type");
        table::lemma_bare_field("record_type"@);
    }
    assert(table::is_field("pid"@, "pid"@)) by {
        reveal_strlit("pid");
        table::lemma_bare_field("pid"@);
    }
    assert(table::is_field("process_started_at_unix_nanos"@, "process_started_at_unix_nanos"@)) by {
        reveal_strlit("process_started_at_unix_nanos");
        table::lemma_bare_field("process_started_at_unix_nanos"@);
    }
    assert(table::is_field("protocol"@, "protocol"@)) by {
        reveal_strlit("protocol");
        table::lemma_bare_field("protocol"@);
    }
    assert(table::is_field("direction"@, "direction"@)) by {
        reveal_strlit("direction");
        table::lemma_bare_field("direction"@);
    }
    assert(table::is_field("local"@, "local"@)) by {
        reveal_strlit("local");
        table::lemma_bare_field("local"@);
    }
    assert(table::is_field("remote"@, "remote"@)) by {
        reveal_strlit("remote");
        table::lemma_bare_field("remote"@);
    }
    assert(table::is_field("state"@, "state"@)) by {
        reveal_strlit("state");
        table::lemma_bare_field("state"@);
    }
    assert(table::is_field("name"@, "name"@)) by {
        reveal_strlit("name");
        table::lemma_bare_field("name"@);
    }
    assert(table::is_field("image_path"@, "image_path"@)) by {
        reveal_strlit("image_path");
        table::lemma_bare_field("image_path"@);
    }
    assert(table::is_field("start_unix_nanos"@, "start_unix_nanos"@)) by {
        reveal_strlit("start_unix_nanos");
        table::lemma_bare_field("start_unix_nanos"@);
    }
    assert(table::is_field("send_bytes"@, "send_bytes"@)) by {
        reveal_strlit("send_bytes");
        table::lemma_bare_field("send_bytes"@);
    }
    assert(table::is_field("receive_bytes"@, "receive_bytes"@)) by {
        reveal_strlit("receive_bytes");
        table::lemma_bare_field("receive_bytes"@);
    }
    assert(table::is_field("events"@, "events"@)) by {
        reveal_strlit("events");
        table::lemma_bare_field("events"@);
    }
    assert(table::is_field("bytes"@, "bytes"@)) by {
        reveal_strlit("bytes");
        table::lemma_bare_field("bytes"@);
    }
    let row15 = "bytes"@ + "\r\n"@;
    let fields15 = seq!["bytes"@];
    table::lemma_last_cell("bytes"@, "bytes"@);
    let row14 = "events"@ + (","@ + row15);
    let fields14 = seq!["events"@] + fields15;
    table::lemma_cell("events"@, "events"@, row15, fields15);
    let row13 = "receive_bytes"@ + (","@ + row14);
    let fields13 = seq!["receive_bytes"@] + fields14;
    table::lemma_cell("receive_bytes"@, "receive_bytes"@, row14, fields14);
    let row12 = "send_bytes"@ + (","@ + row13);
    let fields12 = seq!["send_bytes"@] + fields13;
    table::lemma_cell("send_bytes"@, "send_bytes"@, row13, fields13);
    let row11 = "start_unix_nanos"@ + (","@ + row12);
    let fields11 = seq!["start_unix_nanos"@] + fields12;
    table::lemma_cell("start_unix_nanos"@, "start_unix_nanos"@, row12, fields12);
    let row10 = "image_path"@ + (","@ + row11);
    let fields10 = seq!["image_path"@] + fields11;
    table::lemma_cell("image_path"@, "image_path"@, row11, fields11);
    let row9 = "name"@ + (","@ + row10);
    let fields9 = seq!["name"@] + fields10;
    table::lemma_cell("name"@, "name"@, row10, fields10);
    let row8 = "state"@ + (","@ + row9);
    let fields8 = seq!["state"@] + fields9;
    table::lemma_cell("state"@, "state"@, row9, fields9);
    let row7 = "remote"@ + (","@ + row8);
    let fields7 = seq!["remote"@] + fields8;
    table::lemma_cell("remote"@, "remote"@, row8, fields8);
    let row6 = "local"@ + (","@ + row7);
    let fields6 = seq!["local"@] + fields7;
    table::lemma_cell("local"@, "local"@, row7, fields7);
    let row5 = "direction"@ + (","@ + row6);
    let fields5 = seq!["direction"@] + fields6;
    table::lemma_cell("direction"@, "direction"@, row6, fields6);
    let row4 = "protocol"@ + (","@ + row5);
    let fields4 = seq!["protocol"@] + fields5;
    table::lemma_cell("protocol"@, "protocol"@, row5, fields5);
    let row3 = "process_started_at_unix_nanos"@ + (","@ + row4);
    let fields3 = seq!["process_started_at_unix_nanos"@] + fields4;
    table::lemma_cell("process_started_at_unix_nanos"@, "process_started_at_unix_nanos"@, row4, fields4);
    let row2 = "pid"@ + (","@ + row3);
    let fields2 = seq!["pid"@] + fields3;
    table::lemma_cell("pid"@, "pid"@, row3, fields3);
    let row1 = "record_type"@ + (","@ + row2);
    let fields1 = seq!["record_type"@] + fields2;
    table::lemma_cell("record_type"@, "record_type"@, row2, fields2);
    assert(csv_heading() == row1) by {
        reveal_strlit("record_type,pid,process_started_at_unix_nanos,protocol,direction,local,remote,state,name,image_path,start_unix_nanos,send_bytes,receive_bytes,events,bytes\r\n");
        reveal_strlit("record_type");
        reveal_strlit("pid");
        reveal_strlit("process_started_at_unix_nanos");
        reveal_strlit("protocol");
        reveal_strlit("direction");
        reveal_strlit("local");
        reveal_strlit("remote");
        reveal_strlit("state");
        reveal_strlit("name");
        reveal_strlit("image_path");
        reveal_strlit("start_unix_nanos");
        reveal_strlit("send_bytes");
        reveal_strlit("receive_bytes");
        reveal_strlit("events");
        reveal_strlit("bytes");
        reveal_strlit(",");
        reveal_strlit("\r\n");
        assert(csv_heading() =~= row1);
    }
    assert(fields1 =~= seq!["record_type"@, "pid"@, "process_started_at_unix_nanos"@, "protocol"@, "direction"@, "local"@, "remote"@, "state"@, "name"@, "image_path"@, "start_unix_nanos"@, "send_bytes"@, "receive_bytes"@, "events"@, "bytes"@]);
}

proof fn lemma_flow_rows_are_read_back(items: Seq<FlowSnapshot>)
    ensures
        table::is_table(
            text::flat(items.map_values(|item: FlowSnapshot| quoting::csv_row(flow_fields(item)))),
            items.map_values(|item: FlowSnapshot| flow_fields(item)),
        ),
{
    let parts = items.map_values(|item: FlowSnapshot| quoting::csv_row(flow_fields(item)));
    let rows = items.map_values(|item: FlowSnapshot| flow_fields(item));
    assert forall|i: int| 0 <= i < parts.len() implies table::is_row(
        #[trigger] parts[i],
        rows[i],
    ) by {
        lemma_quoted_row(rows[i]);
    }
    table::lemma_rows(parts, rows);
}

proof fn lemma_curve_rows_are_read_back(items: Seq<TrafficBucket>)
    ensures
        table::is_table(
            text::flat(items.map_values(|item: TrafficBucket| quoting::csv_row(curve_fields(item)))),
            items.map_values(|item: TrafficBucket| curve_fields(item)),
        ),
{
    let parts = items.map_values(|item: TrafficBucket| quoting::csv_row(curve_fields(item)));
    let rows = items.map_values(|item: TrafficBucket| curve_fields(item));
    assert forall|i: int| 0 <= i < parts.len() implies table::is_row(
        #[trigger] parts[i],
        rows[i],
    ) by {
        lemma_quoted_row(rows[i]);
    }
    table::lemma_rows(parts, rows);
}

proof fn lemma_recent_rows_are_read_back(items: Seq<TrafficBucket>)
    ensures
        table::is_table(
            text::flat(items.map_values(|item: TrafficBucket| quoting::csv_row(recent_fields(item)))),
            items.map_values(|item: TrafficBucket| recent_fields(item)),
        ),
{
    let parts = items.map_values(|item: TrafficBucket| quoting::csv_row(recent_fields(item)));
    let rows = items.map_values(|item: TrafficBucket| recent_fields(item));
    assert forall|i: int| 0 <= i < parts.len() implies table::is_row(
        #[trigger] parts[i],
        rows[i],
    ) by {
        lemma_quoted_row(rows[i]);
    }
    table::lemma_rows(parts, rows);
}

proof fn lemma_traffic_rows_are_read_back(items: Seq<ProcessTrafficSnapshot>)
    ensures
        table::is_table(
            text::flat(items.map_values(|item: ProcessTrafficSnapshot| quoting::csv_row(traffic_fields(item)))),
            items.map_values(|item: ProcessTrafficSnapshot| traffic_fields(item)),
        ),
{
    let parts = items.map_values(|item: ProcessTrafficSnapshot| quoting::csv_row(traffic_fields(item)));
    let rows = items.map_values(|item: ProcessTrafficSnapshot| traffic_fields(item));
    assert forall|i: int| 0 <= i < parts.len() implies table::is_row(
        #[trigger] parts[i],
        rows[i],
    ) by {
        lemma_quoted_row(rows[i]);
    }
    table::lemma_rows(parts, rows);
}

proof fn lemma_process_rows_are_read_back(items: Seq<ProcessSnapshot>)
    ensures
        table::is_table(
            text::flat(items.map_values(|item: ProcessSnapshot| quoting::csv_row(process_fields(item)))),
            items.map_values(|item: ProcessSnapshot| process_fields(item)),
        ),
{
    let parts = items.map_values(|item: ProcessSnapshot| quoting::csv_row(process_fields(item)));
    let rows = items.map_values(|item: ProcessSnapshot| process_fields(item));
    assert forall|i: int| 0 <= i < parts.len() implies table::is_row(
        #[trigger] parts[i],
        rows[i],
    ) by {
        lemma_quoted_row(rows[i]);
    }
    table::lemma_rows(parts, rows);
}

proof fn lemma_connection_rows_are_read_back(items: Seq<ConnectionSnapshot>, details: Seq<ConnectionDetailSnapshot>)
    ensures
        table::is_table(
            text::flat(items.map_values(|item: ConnectionSnapshot| quoting::csv_row(connection_fields(item, details)))),
            items.map_values(|item: ConnectionSnapshot| connection_fields(item, details)),
        ),
{
    let parts = items.map_values(|item: ConnectionSnapshot| quoting::csv_row(connection_fields(item, details)));
    let rows = items.map_values(|item: ConnectionSnapshot| connection_fields(item, details));
    assert forall|i: int| 0 <= i < parts.len() implies table::is_row(
        #[trigger] parts[i],
        rows[i],
    ) by {
        lemma_quoted_row(rows[i]);
    }
    table::lemma_rows(parts, rows);
}

/// The rows of the system, where it is known.
pub open spec fn system_table(snapshot: ApplicationSnapshot) -> Seq<Seq<Seq<char>>> {
    match snapshot.system {
        Some(system) => sorted_processes(system.processes@).map_values(
            |item: ProcessSnapshot| process_fields(item),
        ) + sorted_connections(system.connections@).map_values(
            |item: ConnectionSnapshot| connection_fields(item, snapshot.connection_details@),
        ),
        None => Seq::empty(),
    }
}

proof fn lemma_system_rows_are_read_back(snapshot: ApplicationSnapshot)
    ensures
        table::is_table(
            (match snapshot.system {
                Some(system) => system_rows(system@, snapshot.connection_details@),
                None => Seq::empty(),
            }),
            system_table(snapshot),
        ),
{
    match snapshot.system {
        Some(system) => {
            let details = snapshot.connection_details@;
            let processes = sorted_processes(system.processes@);
            let connections = sorted_connections(system.connections@);
            lemma_process_rows_are_read_back(processes);
            lemma_connection_rows_are_read_back(connections, details);
            table::lemma_two_tables(
                text::flat(
                    processes.map_values(
                        |item: ProcessSnapshot| quoting::csv_row(process_fields(item)),
                    ),
                ),
                processes.map_values(|item: ProcessSnapshot| process_fields(item)),
                text::flat(
                    connections.map_values(
                        |item: ConnectionSnapshot|
                            quoting::csv_row(connection_fields(item, details)),
                    ),
                ),
                connections.map_values(
                    |item: ConnectionSnapshot| connection_fields(item, details),
                ),
            );
        },
        None => {
            table::lemma_no_rows();
        },
    }
}

/// The CSV of a snapshot, read by a reader of the format, is a row of the names of the columns and a
/// row each of the flows, the buckets of the curve, the rate, the recent buckets, the traffic of
/// processes, and the processes and connections of the system.
#[verifier::rlimit(60)]
pub proof fn law_snapshot_csv_is_read_back(snapshot: ApplicationSnapshot)
    ensures
        table::read_table(snapshot_csv(snapshot)) == Some(
            seq![seq![
                "record_type"@,
                "pid"@,
                "process_started_at_unix_nanos"@,
                "protocol"@,
                "direction"@,
                "local"@,
                "remote"@,
                "state"@,
                "name"@,
                "image_path"@,
                "start_unix_nanos"@,
                "send_bytes"@,
                "receive_bytes"@,
                "events"@,
                "bytes"@,
            ]] + sorted_flows(snapshot.flows@).map_values(|item: FlowSnapshot| flow_fields(item))
                + snapshot.curve.buckets@.map_values(|item: TrafficBucket| curve_fields(item))
                + seq![rate_fields(snapshot.network_rate)]
                + snapshot.recent_60_seconds.buckets@.map_values(
                |item: TrafficBucket| recent_fields(item),
            ) + snapshot.process_traffic@.map_values(
                |item: ProcessTrafficSnapshot| traffic_fields(item),
            ) + system_table(snapshot),
        ),
{
    let heading = seq![seq![
        "record_type"@,
        "pid"@,
        "process_started_at_unix_nanos"@,
        "protocol"@,
        "direction"@,
        "local"@,
        "remote"@,
        "state"@,
        "name"@,
        "image_path"@,
        "start_unix_nanos"@,
        "send_bytes"@,
        "receive_bytes"@,
        "events"@,
        "bytes"@,
    ]];
    let flows = sorted_flows(snapshot.flows@);
    let flow_rows = flows.map_values(|item: FlowSnapshot| flow_fields(item));
    let curve_rows = snapshot.curve.buckets@.map_values(|item: TrafficBucket| curve_fields(item));
    let rate_rows = seq![rate_fields(snapshot.network_rate)];
    let recent_rows = snapshot.recent_60_seconds.buckets@.map_values(
        |item: TrafficBucket| recent_fields(item),
    );
    let traffic_rows = snapshot.process_traffic@.map_values(
        |item: ProcessTrafficSnapshot| traffic_fields(item),
    );
    let flow_text = text::flat(
        flows.map_values(|item: FlowSnapshot| quoting::csv_row(flow_fields(item))),
    );
    let curve_text = text::flat(
        snapshot.curve.buckets@.map_values(
            |item: TrafficBucket| quoting::csv_row(curve_fields(item)),
        ),
    );
    let rate_text = quoting::csv_row(rate_fields(snapshot.network_rate));
    let recent_text = text::flat(
        snapshot.recent_60_seconds.buckets@.map_values(
            |item: TrafficBucket| quoting::csv_row(recent_fields(item)),
        ),
    );
    let traffic_text = text::flat(
        snapshot.process_traffic@.map_values(
            |item: ProcessTrafficSnapshot| quoting::csv_row(traffic_fields(item)),
        ),
    );
    let system_text = match snapshot.system {
        Some(system) => system_rows(system@, snapshot.connection_details@),
        None => Seq::empty(),
    };
    lemma_heading_is_read_back();
    table::lemma_one_row(csv_heading(), heading[0]);
    lemma_flow_rows_are_read_back(flows);
    lemma_curve_rows_are_read_back(snapshot.curve.buckets@);
    lemma_quoted_row(rate_fields(snapshot.network_rate));
    table::lemma_one_row(rate_text, rate_fields(snapshot.network_rate));
    lemma_recent_rows_are_read_back(snapshot.recent_60_seconds.buckets@);
    lemma_traffic_rows_are_read_back(snapshot.process_traffic@);
    lemma_system_rows_are_read_back(snapshot);
    lemma_seven_tables(
        csv_heading(),
        flow_text,
        curve_text,
        rate_text,
        recent_text,
        traffic_text,
        system_text,
        heading,
        flow_rows,
        curve_rows,
        rate_rows,
        recent_rows,
        traffic_rows,
        system_table(snapshot),
    );
}

proof fn lemma_seven_tables(
    a: Seq<char>,
    b: Seq<char>,
    c: Seq<char>,
    d: Seq<char>,
    e: Seq<char>,
    f: Seq<char>,
    g: Seq<char>,
    rows_a: Seq<Seq<Seq<char>>>,
    rows_b: Seq<Seq<Seq<char>>>,
    rows_c: Seq<Seq<Seq<char>>>,
    rows_d: Seq<Seq<Seq<char>>>,
    rows_e: Seq<Seq<Seq<char>>>,
    rows_f: Seq<Seq<Seq<char>>>,
    rows_g: Seq<Seq<Seq<char>>>,
)
    requires
        table::is_table(a, rows_a),
        table::is_table(b, rows_b),
        table::is_table(c, rows_c),
        table::is_table(d, rows_d),
        table::is_table(e, rows_e),
        table::is_table(f, rows_f),
        table::is_table(g, rows_g),
    ensures
        table::read_table(a + b + c + d + e + f + g) == Some(
            rows_a + rows_b + rows_c + rows_d + rows_e + rows_f + rows_g,
        ),
{
    table::lemma_two_tables(a, rows_a, b, rows_b);
    table::lemma_two_tables(a + b, rows_a + rows_b, c, rows_c);
    table::lemma_two_tables(a + b + c, rows_a + rows_b + rows_c, d, rows_d);
    table::lemma_two_tables(a + b + c + d, rows_a + rows_b + rows_c + rows_d, e, rows_e);
    table::lemma_two_tables(
        a + b + c + d + e,
        rows_a + rows_b + rows_c + rows_d + rows_e,
        f,
        rows_f,
    );
    table::lemma_two_tables(
        a + b + c + d + e + f,
        rows_a + rows_b + rows_c + rows_d + rows_e + rows_f,
        g,
        rows_g,
    );
    table::lemma_read(
        a + b + c + d + e + f + g,
        rows_a + rows_b + rows_c + rows_d + rows_e + rows_f + rows_g,
    );
}

/// What stands in the columns of each kind of row. The columns are: the kind of row, the process's
/// number, its start, protocol, direction, local and remote end, state, name, image, time, bytes
/// sent, bytes received, events and bytes.
pub proof fn law_columns_of_rows(
    flow: FlowSnapshot,
    bucket: TrafficBucket,
    rate: NetworkRateSnapshot,
    row: ProcessTrafficSnapshot,
    process: ProcessSnapshot,
    connection: ConnectionSnapshot,
    details: Seq<ConnectionDetailSnapshot>,
)
    ensures
        flow_fields(flow).len() == 15,
        flow_fields(flow)[0] == "flow"@,
        flow_fields(flow)[1] == text::decimal(flow.key.pid as nat),
        flow_fields(flow)[2] == text::decimal(started_at(flow.process_key) as nat),
        flow_fields(flow)[3] == protocol_name(flow.key.protocol),
        flow_fields(flow)[4] == direction_name(flow.key.direction),
        flow_fields(flow)[5] == address::socket_text(flow.key.source),
        flow_fields(flow)[6] == address::socket_text(flow.key.destination),
        flow_fields(flow)[7] == ""@,
        flow_fields(flow)[8] == ""@,
        flow_fields(flow)[9] == ""@,
        flow_fields(flow)[10] == ""@,
        flow_fields(flow)[11] == ""@,
        flow_fields(flow)[12] == ""@,
        flow_fields(flow)[13] == text::decimal(flow.events as nat),
        flow_fields(flow)[14] == text::decimal(flow.bytes as nat),
        curve_fields(bucket).len() == 15,
        curve_fields(bucket)[0] == "curve"@,
        curve_fields(bucket)[1] == ""@,
        curve_fields(bucket)[2] == ""@,
        curve_fields(bucket)[3] == ""@,
        curve_fields(bucket)[4] == ""@,
        curve_fields(bucket)[5] == ""@,
        curve_fields(bucket)[6] == ""@,
        curve_fields(bucket)[7] == ""@,
        curve_fields(bucket)[8] == ""@,
        curve_fields(bucket)[9] == ""@,
        curve_fields(bucket)[10] == text::decimal(bucket.start_unix_nanos as nat),
        curve_fields(bucket)[11] == text::decimal(bucket.send_bytes as nat),
        curve_fields(bucket)[12] == text::decimal(bucket.receive_bytes as nat),
        curve_fields(bucket)[13] == ""@,
        curve_fields(bucket)[14] == ""@,
        rate_fields(rate).len() == 15,
        rate_fields(rate)[0] == "network_rate"@,
        rate_fields(rate)[1] == ""@,
        rate_fields(rate)[2] == ""@,
        rate_fields(rate)[3] == ""@,
        rate_fields(rate)[4] == ""@,
        rate_fields(rate)[5] == ""@,
        rate_fields(rate)[6] == ""@,
        rate_fields(rate)[7] == ""@,
        rate_fields(rate)[8] == ""@,
        rate_fields(rate)[9] == ""@,
        rate_fields(rate)[10] == text::decimal(rate.sampled_at_unix_nanos as nat),
        rate_fields(rate)[11] == text::decimal(rate.send_bytes_per_second as nat),
        rate_fields(rate)[12] == text::decimal(rate.receive_bytes_per_second as nat),
        rate_fields(rate)[13] == ""@,
        rate_fields(rate)[14] == text::decimal(rate.interval_nanos as nat),
        recent_fields(bucket).len() == 15,
        recent_fields(bucket)[0] == "recent_curve"@,
        recent_fields(bucket)[1] == ""@,
        recent_fields(bucket)[2] == ""@,
        recent_fields(bucket)[3] == ""@,
        recent_fields(bucket)[4] == ""@,
        recent_fields(bucket)[5] == ""@,
        recent_fields(bucket)[6] == ""@,
        recent_fields(bucket)[7] == ""@,
        recent_fields(bucket)[8] == ""@,
        recent_fields(bucket)[9] == ""@,
        recent_fields(bucket)[10] == text::decimal(bucket.start_unix_nanos as nat),
        recent_fields(bucket)[11] == text::decimal(bucket.send_bytes as nat),
        recent_fields(bucket)[12] == text::decimal(bucket.receive_bytes as nat),
        recent_fields(bucket)[13] == ""@,
        recent_fields(bucket)[14] == ""@,
        traffic_fields(row).len() == 15,
        traffic_fields(row)[0] == "process_traffic"@,
        traffic_fields(row)[1] == text::decimal(row.pid as nat),
        traffic_fields(row)[2] == text::decimal(started_at(row.process_key) as nat),
        traffic_fields(row)[3] == ""@,
        traffic_fields(row)[4] == ""@,
        traffic_fields(row)[5] == ""@,
        traffic_fields(row)[6] == ""@,
        traffic_fields(row)[7] == icon_name(row.icon),
        traffic_fields(row)[8] == text::text_or_none(text::optional(row.name)),
        traffic_fields(row)[9] == text::text_or_none(text::optional(row.image_path)),
        traffic_fields(row)[10] == text::decimal(row.last_timestamp_unix_nanos as nat),
        traffic_fields(row)[11] == text::decimal(row.send_bytes_per_second as nat),
        traffic_fields(row)[12] == text::decimal(row.receive_bytes_per_second as nat),
        traffic_fields(row)[13] == text::decimal(row.send_bytes_total as nat),
        traffic_fields(row)[14] == text::decimal(row.receive_bytes_total as nat),
        process_fields(process).len() == 15,
        process_fields(process)[0] == "process"@,
        process_fields(process)[1] == text::decimal(process.key.pid as nat),
        process_fields(process)[2] == text::decimal(process.key.started_at_unix_nanos as nat),
        process_fields(process)[3] == ""@,
        process_fields(process)[4] == ""@,
        process_fields(process)[5] == ""@,
        process_fields(process)[6] == ""@,
        process_fields(process)[7] == icon_name(process.icon),
        process_fields(process)[8] == process.name@,
        process_fields(process)[9] == text::text_or_none(text::optional(process.image_path)),
        process_fields(process)[10] == ""@,
        process_fields(process)[11] == ""@,
        process_fields(process)[12] == ""@,
        process_fields(process)[13] == ""@,
        process_fields(process)[14] == ""@,
        connection_fields(connection, details).len() == 15,
        connection_fields(connection, details)[0] == "connection"@,
        connection_fields(connection, details)[1] == text::decimal(connection.pid as nat),
        connection_fields(connection, details)[2] == text::decimal(started_at(connection.process_key) as nat),
        connection_fields(connection, details)[3] == protocol_name(connection.protocol),
        connection_fields(connection, details)[4] == ""@,
        connection_fields(connection, details)[5] == address::socket_text(connection.local),
        connection_fields(connection, details)[6] == text::text_or_none(remote_text(connection.remote)),
        connection_fields(connection, details)[7] == text::text_or_none(state_text(connection.tcp_state)),
        connection_fields(connection, details)[8] == text::text_or_none(detail_name(details, connection)),
        connection_fields(connection, details)[9] == text::text_or_none(detail_path(details, connection)),
        connection_fields(connection, details)[10] == ""@,
        connection_fields(connection, details)[11] == ""@,
        connection_fields(connection, details)[12] == ""@,
        connection_fields(connection, details)[13] == ""@,
        connection_fields(connection, details)[14] == ""@,
{
}

/// The words that stand for what is not a number or a text.
pub proof fn law_words_of_values(n: u32)
    ensures
        truth_text(true) == "true"@,
        truth_text(false) == "false"@,
        protocol_name(TransportProtocol::Tcp) == "tcp"@,
        protocol_name(TransportProtocol::Udp) == "udp"@,
        direction_name(TrafficDirection::Send) == "send"@,
        direction_name(TrafficDirection::Receive) == "receive"@,
        tcp_state_name(TcpConnectionState::Closed) == "Closed"@,
        tcp_state_name(TcpConnectionState::Listen) == "Listen"@,
        tcp_state_name(TcpConnectionState::SynSent) == "SynSent"@,
        tcp_state_name(TcpConnectionState::SynReceived) == "SynReceived"@,
        tcp_state_name(TcpConnectionState::Established) == "Established"@,
        tcp_state_name(TcpConnectionState::FinWait1) == "FinWait1"@,
        tcp_state_name(TcpConnectionState::FinWait2) == "FinWait2"@,
        tcp_state_name(TcpConnectionState::CloseWait) == "CloseWait"@,
        tcp_state_name(TcpConnectionState::Closing) == "Closing"@,
        tcp_state_name(TcpConnectionState::LastAck) == "LastAck"@,
        tcp_state_name(TcpConnectionState::TimeWait) == "TimeWait"@,
        tcp_state_name(TcpConnectionState::DeleteTcb) == "DeleteTcb"@,
        tcp_state_name(TcpConnectionState::Unknown(n)) == "Unknown("@ + text::decimal(n as nat)
            + ")"@,
        icon_name(ProcessIconState::NotLoaded) == "not_loaded"@,
        icon_name(ProcessIconState::Unavailable) == "unavailable"@,
        forall|icon: ProcessIconState|
            icon is Available ==> #[trigger] icon_name(icon) == "available"@,
        status_name(CaptureStatus::Available) == "available"@,
        restriction_name(CaptureStatus::Available) == "none"@,
        forall|restriction: CaptureRestriction| #[trigger]
            status_name(CaptureStatus::Restricted(restriction)) == "restricted"@,
        restriction_name(CaptureStatus::Restricted(CaptureRestriction::PermissionRequired))
            == "permission_required"@,
        restriction_name(CaptureStatus::Restricted(CaptureRestriction::SessionAlreadyExists))
            == "session_already_exists"@,
{
}

/// A row shows when its process started, and zero where that is not known.
pub proof fn law_starts_are_shown(key: ProcessKey)
    ensures
        started_at(Some(key)) == key.started_at_unix_nanos,
        started_at(None) == 0,
{
}

/// The name and image of a connection's process are those of its first detail.
pub proof fn law_details_name_connections(
    details: Seq<ConnectionDetailSnapshot>,
    connection: ConnectionSnapshot,
    i: int,
)
    requires
        0 <= i < details.len(),
        details[i].connection@ == connection@,
        forall|j: int| 0 <= j < i ==> (#[trigger] details[j]).connection@ != connection@,
    ensures
        detail_name(details, connection) == text::optional(details[i].process_name),
        detail_path(details, connection) == text::optional(details[i].process_image_path),
    decreases i,
{
    if i > 0 {
        assert(details[0].connection@ != connection@);
        let others = details.drop_first();
        assert forall|j: int| 0 <= j < i - 1 implies (#[trigger] others[j]).connection@
            != connection@ by {
            assert(details[j + 1].connection@ != connection@);
        }
        law_details_name_connections(others, connection, i - 1);
    }
}

/// A connection without a detail has no name and no image.
pub proof fn law_connections_without_detail(
    details: Seq<ConnectionDetailSnapshot>,
    connection: ConnectionSnapshot,
)
    requires
        forall|j: int| 0 <= j < details.len() ==> (#[trigger] details[j]).connection@
            != connection@,
    ensures
        detail_name(details, connection) is None,
        detail_path(details, connection) is None,
    decreases details.len(),
{
    if details.len() > 0 {
        assert(details[0].connection@ != connection@);
        let others = details.drop_first();
        assert forall|j: int| 0 <= j < others.len() implies (#[trigger] others[j]).connection@
            != connection@ by {
            assert(details[j + 1].connection@ != connection@);
        }
        law_connections_without_detail(others, connection);
    }
}

} // verus!
