//! The lines that the capture tool prints.
use crate::address;

use crate::cleanup::CleanupResult;
use crate::etw;
use crate::etw::{
    EtwProbeSummary, EtwSessionStatistics, Ipv4Aggregate, Ipv6Aggregate, NetworkProtocol,
};
use crate::export;
use crate::model::{
    ConnectionSnapshot, FlowSnapshot, ProcessKey, ProcessSnapshot, SystemSnapshot,
    TcpConnectionState, TrafficBucket, TransportProtocol,
};
use crate::options::ExportFormat;
use crate::snapshot::ApplicationSnapshot;
use crate::text;
use vstd::prelude::*;

verus! {

/// What the `Debug` form of a string is: the text between quotation marks, with escapes.
pub uninterp spec fn debug_text(s: Seq<char>) -> Seq<char>;

/// The `Debug` form of `str`, through `format!`, is a function of the text alone.
#[verifier::external_body]
fn debug_form(s: &str) -> (text: String)
    ensures
        text@ == debug_text(s@),
{
    format!("{s:?}")
}

/// How an optional text is shown whose own form is `shown`.
pub open spec fn optional_shown(shown: Option<Seq<char>>) -> Seq<char> {
    match shown {
        Some(text) => "Some("@ + text + ")"@,
        None => "None"@,
    }
}

/// How an optional text is shown whose own form is `shown`.
pub fn show_optional(shown: &Option<String>) -> (text: String)
    ensures
        text@ == optional_shown(text::optional(*shown)),
{
    match shown {
        Some(inner) => {
            let mut text = "Some(".to_owned();
            text.append(inner.as_str());
            text.append(")");
            text
        },
        None => "None".to_owned(),
    }
}

/// The `Debug` form of a text that may be there.
pub open spec fn debug_of(text: Option<String>) -> Option<Seq<char>> {
    match text {
        Some(text) => Some(debug_text(text@)),
        None => None,
    }
}

fn debug_optional(text: &Option<String>) -> (shown: String)
    ensures
        shown@ == optional_shown(debug_of(*text)),
{
    match text {
        Some(text) => show_optional(&Some(debug_form(text.as_str()))),
        None => show_optional(&None),
    }
}

/// The word for a transport.
pub open spec fn transport_text(protocol: TransportProtocol) -> Seq<char> {
    match protocol {
        TransportProtocol::Tcp => "TCP"@,
        TransportProtocol::Udp => "UDP"@,
    }
}

fn transport_word(protocol: TransportProtocol) -> (text: &'static str)
    ensures
        text@ == transport_text(protocol),
{
    match protocol {
        TransportProtocol::Tcp => "TCP",
        TransportProtocol::Udp => "UDP",
    }
}

/// The word for a provider.
pub open spec fn provider_text(protocol: NetworkProtocol) -> Seq<char> {
    match protocol {
        NetworkProtocol::Tcp => "TCP"@,
        NetworkProtocol::Udp => "UDP"@,
    }
}

fn provider_word(protocol: NetworkProtocol) -> (text: &'static str)
    ensures
        text@ == provider_text(protocol),
{
    match protocol {
        NetworkProtocol::Tcp => "TCP",
        NetworkProtocol::Udp => "UDP",
    }
}

/// When a process started, or zero where that is not known.
fn start_of(key: Option<ProcessKey>) -> (at: u64)
    ensures
        at == export::started_at(key),
{
    match key {
        Some(key) => key.started_at_unix_nanos,
        None => 0,
    }
}

/// The line of a flow.
pub open spec fn flow_line_text(flow: FlowSnapshot) -> Seq<char> {
    "APP_FLOW pid="@ + text::decimal(flow.key.pid as nat) + " protocol="@
        + transport_text(flow.key.protocol) + " direction="@
        + export::direction_name(flow.key.direction) + " source="@
        + address::socket_text(flow.key.source) + " destination="@
        + address::socket_text(flow.key.destination) + " events="@
        + text::decimal(flow.events as nat) + " bytes="@ + text::decimal(flow.bytes as nat)
        + " first_timestamp_unix_nanos="@ + text::decimal(flow.first_timestamp_unix_nanos as nat)
        + " last_timestamp_unix_nanos="@ + text::decimal(flow.last_timestamp_unix_nanos as nat)
        + " process_started_at_unix_nanos="@
        + text::decimal(export::started_at(flow.process_key) as nat)
}

/// The line of a flow.
pub fn flow_line(flow: &FlowSnapshot) -> (text: String)
    ensures
        text@ == flow_line_text(*flow),
{
    let mut text = "APP_FLOW pid=".to_owned();
    text::put_number(&mut text, flow.key.pid as u64);
    text.append(" protocol=");
    text.append(transport_word(flow.key.protocol));
    text.append(" direction=");
    text.append(export::direction(flow.key.direction));
    text.append(" source=");
    text.append(flow.key.source.text().as_str());
    text.append(" destination=");
    text.append(flow.key.destination.text().as_str());
    text.append(" events=");
    text::put_number(&mut text, flow.events as u64);
    text.append(" bytes=");
    text::put_number(&mut text, flow.bytes as u64);
    text.append(" first_timestamp_unix_nanos=");
    text::put_number(&mut text, flow.first_timestamp_unix_nanos as u64);
    text.append(" last_timestamp_unix_nanos=");
    text::put_number(&mut text, flow.last_timestamp_unix_nanos as u64);
    text.append(" process_started_at_unix_nanos=");
    text.append(text::decimal_text(start_of(flow.process_key)).as_str());
    text
}

/// The line of a stretch of the curve.
pub open spec fn bucket_line_text(bucket: TrafficBucket) -> Seq<char> {
    "APP_CURVE_BUCKET start_unix_nanos="@ + text::decimal(bucket.start_unix_nanos as nat)
        + " send_bytes="@ + text::decimal(bucket.send_bytes as nat) + " receive_bytes="@
        + text::decimal(bucket.receive_bytes as nat)
}

/// The line of a stretch of the curve.
pub fn bucket_line(bucket: &TrafficBucket) -> (text: String)
    ensures
        text@ == bucket_line_text(*bucket),
{
    let mut text = "APP_CURVE_BUCKET start_unix_nanos=".to_owned();
    text::put_number(&mut text, bucket.start_unix_nanos as u64);
    text.append(" send_bytes=");
    text::put_number(&mut text, bucket.send_bytes as u64);
    text.append(" receive_bytes=");
    text::put_number(&mut text, bucket.receive_bytes as u64);
    text
}

/// How many processes and connections a snapshot knows of.
pub open spec fn system_counts(system: Option<SystemSnapshot>) -> (nat, nat) {
    match system {
        Some(system) => (system.processes@.len(), system.connections@.len()),
        None => (0, 0),
    }
}

fn count_system(system: &Option<SystemSnapshot>) -> (counts: (usize, usize))
    ensures
        counts.0 == system_counts(*system).0,
        counts.1 == system_counts(*system).1,
{
    match system {
        Some(system) => (system.processes.len(), system.connections.len()),
        None => (0, 0),
    }
}

/// A count, or the word for one that is not known.
pub open spec fn known_count(count: Option<u32>) -> Seq<char> {
    match count {
        Some(n) => text::decimal(n as nat),
        None => "unavailable"@,
    }
}

fn show_count(count: Option<u32>) -> (text: String)
    ensures
        text@ == known_count(count),
{
    match count {
        Some(n) => text::decimal_text(n as u64),
        None => "unavailable".to_owned(),
    }
}

/// What a trace lost: events, buffers read live and buffers of the log.
pub struct Losses {
    pub events: Option<u32>,
    pub real_time_buffers: Option<u32>,
    pub log_buffers: Option<u32>,
}

/// What a trace lost, as far as its statistics are there.
pub open spec fn losses_of(statistics: Option<EtwSessionStatistics>) -> Losses {
    match statistics {
        Some(statistics) => Losses {
            events: Some(statistics.events_lost),
            real_time_buffers: Some(statistics.real_time_buffers_lost),
            log_buffers: Some(statistics.log_buffers_lost),
        },
        None => Losses { events: None, real_time_buffers: None, log_buffers: None },
    }
}

fn count_losses(statistics: &Option<EtwSessionStatistics>) -> (losses: Losses)
    ensures
        losses == losses_of(*statistics),
{
    match statistics {
        Some(statistics) => Losses {
            events: Some(statistics.events_lost),
            real_time_buffers: Some(statistics.real_time_buffers_lost),
            log_buffers: Some(statistics.log_buffers_lost),
        },
        None => Losses { events: None, real_time_buffers: None, log_buffers: None },
    }
}

/// A number that may need more than sixty-four bits, as text.
fn wide_text(n: u128) -> (text: String)
    ensures
        text@ == text::decimal(n as nat),
{
    let mut text = String::new();
    text::put_wide_number(&mut text, n);
    text
}

/// The line of a whole snapshot.
pub open spec fn runtime_line_text(
    snapshot: ApplicationSnapshot,
    statistics: Option<EtwSessionStatistics>,
) -> Seq<char> {
    "APP_RUNTIME_SNAPSHOT running="@ + export::truth_text(snapshot.running) + " events_received="@
        + text::decimal(snapshot.events_received as nat) + " events_accepted="@
        + text::decimal(snapshot.events_accepted as nat) + " events_dropped_full="@
        + text::decimal(snapshot.events_dropped_full as nat) + " events_dropped_stopped="@
        + text::decimal(snapshot.events_dropped_stopped as nat) + " events_processed="@
        + text::decimal(snapshot.events_processed as nat) + " queue_capacity="@
        + text::decimal(snapshot.queue_capacity as nat) + " queue_depth="@
        + text::decimal(snapshot.queue_depth as nat) + " queue_peak="@
        + text::decimal(snapshot.queue_peak as nat) + " snapshot_interval_millis="@
        + text::decimal(snapshot.snapshot_interval_millis as nat) + " flow_idle_timeout_millis="@
        + text::decimal(snapshot.flow_idle_timeout_millis as nat) + " maximum_flows="@
        + text::decimal(snapshot.maximum_flows as nat) + " flow_keys="@
        + text::decimal(snapshot.flows@.len()) + " etw_events_lost="@
        + known_count(losses_of(statistics).events) + " etw_real_time_buffers_lost="@
        + known_count(losses_of(statistics).real_time_buffers) + " etw_log_buffers_lost="@
        + known_count(losses_of(statistics).log_buffers) + " capture_status="@
        + export::status_name(snapshot.capture_status) + " capture_restriction="@
        + export::restriction_name(snapshot.capture_status) + " process_count="@
        + text::decimal(system_counts(snapshot.system).0) + " connection_count="@
        + text::decimal(system_counts(snapshot.system).1) + " curve_bucket_width_nanos="@
        + text::decimal(snapshot.curve.bucket_width_nanos as nat) + " curve_maximum_buckets="@
        + text::decimal(snapshot.curve.maximum_buckets as nat) + " curve_buckets="@
        + text::decimal(snapshot.curve.buckets@.len()) + " curve_events_received="@
        + text::decimal(snapshot.curve.events_received as nat) + " curve_events_accepted="@
        + text::decimal(snapshot.curve.events_accepted as nat) + " curve_events_late_dropped="@
        + text::decimal(snapshot.curve.events_late_dropped as nat) + " curve_bytes_received="@
        + text::decimal(snapshot.curve.bytes_received as nat) + " curve_bytes_accepted="@
        + text::decimal(snapshot.curve.bytes_accepted as nat) + " curve_bytes_late_dropped="@
        + text::decimal(snapshot.curve.bytes_late_dropped as nat)
}

/// The line of a whole snapshot.
pub fn runtime_line(
    snapshot: &ApplicationSnapshot,
    statistics: &Option<EtwSessionStatistics>,
) -> (text: String)
    ensures
        text@ == runtime_line_text(*snapshot, *statistics),
{
    let losses = count_losses(statistics);
    let mut text = "APP_RUNTIME_SNAPSHOT running=".to_owned();
    text.append(export::truth(snapshot.running));
    text.append(" events_received=");
    text::put_number(&mut text, snapshot.events_received as u64);
    text.append(" events_accepted=");
    text::put_number(&mut text, snapshot.events_accepted as u64);
    text.append(" events_dropped_full=");
    text::put_number(&mut text, snapshot.events_dropped_full as u64);
    text.append(" events_dropped_stopped=");
    text::put_number(&mut text, snapshot.events_dropped_stopped as u64);
    text.append(" events_processed=");
    text::put_number(&mut text, snapshot.events_processed as u64);
    text.append(" queue_capacity=");
    text::put_number(&mut text, snapshot.queue_capacity as u64);
    text.append(" queue_depth=");
    text::put_number(&mut text, snapshot.queue_depth as u64);
    text.append(" queue_peak=");
    text::put_number(&mut text, snapshot.queue_peak as u64);
    text.append(" snapshot_interval_millis=");
    text.append(wide_text(snapshot.snapshot_interval_millis).as_str());
    text.append(" flow_idle_timeout_millis=");
    text.append(wide_text(snapshot.flow_idle_timeout_millis).as_str());
    text.append(" maximum_flows=");
    text::put_number(&mut text, snapshot.maximum_flows as u64);
    text.append(" flow_keys=");
    text.append(text::decimal_text(snapshot.flows.len() as u64).as_str());
    text.append(" etw_events_lost=");
    text.append(show_count(losses.events).as_str());
    text.append(" etw_real_time_buffers_lost=");
    text.append(show_count(losses.real_time_buffers).as_str());
    text.append(" etw_log_buffers_lost=");
    text.append(show_count(losses.log_buffers).as_str());
    text.append(" capture_status=");
    text.append(export::capture_labels(snapshot.capture_status).0);
    text.append(" capture_restriction=");
    text.append(export::capture_labels(snapshot.capture_status).1);
    text.append(" process_count=");
    text.append(text::decimal_text(count_system(&snapshot.system).0 as u64).as_str());
    text.append(" connection_count=");
    text.append(text::decimal_text(count_system(&snapshot.system).1 as u64).as_str());
    text.append(" curve_bucket_width_nanos=");
    text::put_number(&mut text, snapshot.curve.bucket_width_nanos as u64);
    text.append(" curve_maximum_buckets=");
    text::put_number(&mut text, snapshot.curve.maximum_buckets as u64);
    text.append(" curve_buckets=");
    text.append(text::decimal_text(snapshot.curve.buckets.len() as u64).as_str());
    text.append(" curve_events_received=");
    text::put_number(&mut text, snapshot.curve.events_received as u64);
    text.append(" curve_events_accepted=");
    text::put_number(&mut text, snapshot.curve.events_accepted as u64);
    text.append(" curve_events_late_dropped=");
    text::put_number(&mut text, snapshot.curve.events_late_dropped as u64);
    text.append(" curve_bytes_received=");
    text::put_number(&mut text, snapshot.curve.bytes_received as u64);
    text.append(" curve_bytes_accepted=");
    text::put_number(&mut text, snapshot.curve.bytes_accepted as u64);
    text.append(" curve_bytes_late_dropped=");
    text::put_number(&mut text, snapshot.curve.bytes_late_dropped as u64);
    text
}

/// The line of a sample of a running application.
pub open spec fn sample_line_text(snapshot: ApplicationSnapshot) -> Seq<char> {
    "APP_RUNTIME_SAMPLE running="@ + export::truth_text(snapshot.running) + " events_received="@
        + text::decimal(snapshot.events_received as nat) + " events_accepted="@
        + text::decimal(snapshot.events_accepted as nat) + " events_dropped_full="@
        + text::decimal(snapshot.events_dropped_full as nat) + " events_dropped_stopped="@
        + text::decimal(snapshot.events_dropped_stopped as nat) + " events_processed="@
        + text::decimal(snapshot.events_processed as nat) + " queue_depth="@
        + text::decimal(snapshot.queue_depth as nat) + " queue_peak="@
        + text::decimal(snapshot.queue_peak as nat) + " flow_keys="@
        + text::decimal(snapshot.flows@.len()) + " capture_status="@
        + export::status_name(snapshot.capture_status) + " capture_restriction="@
        + export::restriction_name(snapshot.capture_status) + " process_count="@
        + text::decimal(system_counts(snapshot.system).0) + " connection_count="@
        + text::decimal(system_counts(snapshot.system).1) + " curve_buckets="@
        + text::decimal(snapshot.curve.buckets@.len()) + " curve_bytes_accepted="@
        + text::decimal(snapshot.curve.bytes_accepted as nat) + " curve_bytes_late_dropped="@
        + text::decimal(snapshot.curve.bytes_late_dropped as nat)
}

/// The line of a sample of a running application.
pub fn sample_line(snapshot: &ApplicationSnapshot) -> (text: String)
    ensures
        text@ == sample_line_text(*snapshot),
{
    let mut text = "APP_RUNTIME_SAMPLE running=".to_owned();
    text.append(export::truth(snapshot.running));
    text.append(" events_received=");
    text::put_number(&mut text, snapshot.events_received as u64);
    text.append(" events_accepted=");
    text::put_number(&mut text, snapshot.events_accepted as u64);
    text.append(" events_dropped_full=");
    text::put_number(&mut text, snapshot.events_dropped_full as u64);
    text.append(" events_dropped_stopped=");
    text::put_number(&mut text, snapshot.events_dropped_stopped as u64);
    text.append(" events_processed=");
    text::put_number(&mut text, snapshot.events_processed as u64);
    text.append(" queue_depth=");
    text::put_number(&mut text, snapshot.queue_depth as u64);
    text.append(" queue_peak=");
    text::put_number(&mut text, snapshot.queue_peak as u64);
    text.append(" flow_keys=");
    text.append(text::decimal_text(snapshot.flows.len() as u64).as_str());
    text.append(" capture_status=");
    text.append(export::capture_labels(snapshot.capture_status).0);
    text.append(" capture_restriction=");
    text.append(export::capture_labels(snapshot.capture_status).1);
    text.append(" process_count=");
    text.append(text::decimal_text(count_system(&snapshot.system).0 as u64).as_str());
    text.append(" connection_count=");
    text.append(text::decimal_text(count_system(&snapshot.system).1 as u64).as_str());
    text.append(" curve_buckets=");
    text.append(text::decimal_text(snapshot.curve.buckets.len() as u64).as_str());
    text.append(" curve_bytes_accepted=");
    text::put_number(&mut text, snapshot.curve.bytes_accepted as u64);
    text.append(" curve_bytes_late_dropped=");
    text::put_number(&mut text, snapshot.curve.bytes_late_dropped as u64);
    text
}

/// How many connections have an owner whose start is known.
pub open spec fn associated(connections: Seq<ConnectionSnapshot>) -> nat
    decreases connections.len(),
{
    if connections.len() == 0 {
        0
    } else {
        associated(connections.drop_last()) + (if connections.last().process_key is Some {
            1nat
        } else {
            0
        })
    }
}

/// How many connections have an owner whose name is known.
pub open spec fn named(connections: Seq<ConnectionSnapshot>) -> nat
    decreases connections.len(),
{
    if connections.len() == 0 {
        0
    } else {
        named(connections.drop_last()) + (if connections.last().owner_name is Some {
            1nat
        } else {
            0
        })
    }
}

fn count_owners(connections: &Vec<ConnectionSnapshot>) -> (counts: (usize, usize))
    ensures
        counts.0 == associated(connections@),
        counts.1 == named(connections@),
{
    let mut with_start: usize = 0;
    let mut with_name: usize = 0;
    assert(connections@.take(0) =~= Seq::<ConnectionSnapshot>::empty());
    for i in 0..connections.len()
        invariant
            with_start == associated(connections@.take(i as int)),
            with_name == named(connections@.take(i as int)),
            with_start <= i,
            with_name <= i,
    {
        assert(connections@.take(i + 1).drop_last() =~= connections@.take(i as int));
        if connections[i].process_key.is_some() {
            with_start += 1;
        }
        if connections[i].owner_name.is_some() {
            with_name += 1;
        }
    }
    assert(connections@.take(connections@.len() as int) =~= connections@);
    (with_start, with_name)
}

/// The line of the system's tables.
pub open spec fn system_line_text(snapshot: SystemSnapshot) -> Seq<char> {
    "SYSTEM_SNAPSHOT captured_at_unix_nanos="@
        + text::decimal(snapshot.captured_at_unix_nanos as nat) + " processes="@
        + text::decimal(snapshot.processes@.len()) + " connections="@
        + text::decimal(snapshot.connections@.len()) + " associated="@
        + text::decimal(associated(snapshot.connections@)) + " named="@
        + text::decimal(named(snapshot.connections@))
}

/// The line of the system's tables.
pub fn system_line(snapshot: &SystemSnapshot) -> (text: String)
    ensures
        text@ == system_line_text(*snapshot),
{
    let owners = count_owners(&snapshot.connections);
    let mut text = "SYSTEM_SNAPSHOT captured_at_unix_nanos=".to_owned();
    text::put_number(&mut text, snapshot.captured_at_unix_nanos as u64);
    text.append(" processes=");
    text.append(text::decimal_text(snapshot.processes.len() as u64).as_str());
    text.append(" connections=");
    text.append(text::decimal_text(snapshot.connections.len() as u64).as_str());
    text.append(" associated=");
    text.append(text::decimal_text(owners.0 as u64).as_str());
    text.append(" named=");
    text.append(text::decimal_text(owners.1 as u64).as_str());
    text
}

/// The line of a process whose name and path are shown as given.
pub open spec fn process_line_text(
    key: ProcessKey,
    name: Seq<char>,
    image_path: Seq<char>,
) -> Seq<char> {
    "SYSTEM_PROCESS pid="@ + text::decimal(key.pid as nat) + " started_at_unix_nanos="@
        + text::decimal(key.started_at_unix_nanos as nat) + " name="@ + name + " image_path="@
        + image_path
}

/// The line of a process whose name and path are shown as given.
pub fn process_line_with(key: ProcessKey, name: &str, image_path: &str) -> (text: String)
    ensures
        text@ == process_line_text(key, name@, image_path@),
{
    let mut text = "SYSTEM_PROCESS pid=".to_owned();
    text::put_number(&mut text, key.pid as u64);
    text.append(" started_at_unix_nanos=");
    text::put_number(&mut text, key.started_at_unix_nanos as u64);
    text.append(" name=");
    text.append(name);
    text.append(" image_path=");
    text.append(image_path);
    text
}

/// The line of a process.
pub fn process_line(process: &ProcessSnapshot) -> (text: String)
    ensures
        text@ == process_line_text(
            process.key,
            debug_text(process.name@),
            optional_shown(debug_of(process.image_path)),
        ),
{
    process_line_with(
        process.key,
        debug_form(process.name.as_str()).as_str(),
        debug_optional(&process.image_path).as_str(),
    )
}

/// An endpoint that may be there.
pub open spec fn remote_text(remote: Option<crate::address::SocketAddr>) -> Seq<char> {
    match remote {
        Some(remote) => address::socket_text(remote),
        None => "none"@,
    }
}

/// The state of a connection that may have one.
pub open spec fn state_shown(state: Option<TcpConnectionState>) -> Seq<char> {
    match state {
        Some(state) => export::tcp_state_name(state),
        None => "none"@,
    }
}

fn show_remote(remote: Option<crate::address::SocketAddr>) -> (text: String)
    ensures
        text@ == remote_text(remote),
{
    match remote {
        Some(remote) => remote.text(),
        None => "none".to_owned(),
    }
}

fn show_state(state: Option<TcpConnectionState>) -> (text: String)
    ensures
        text@ == state_shown(state),
{
    match state {
        Some(state) => export::tcp_state(state),
        None => "none".to_owned(),
    }
}

/// The line of a connection whose owner is shown as given.
pub open spec fn connection_line_text(
    connection: ConnectionSnapshot,
    owner: Seq<char>,
) -> Seq<char> {
    "SYSTEM_CONNECTION protocol="@ + transport_text(connection.protocol) + " local="@
        + address::socket_text(connection.local) + " remote="@ + remote_text(connection.remote)
        + " tcp_state="@ + state_shown(connection.tcp_state) + " pid="@
        + text::decimal(connection.pid as nat) + " process_started_at_unix_nanos="@
        + text::decimal(export::started_at(connection.process_key) as nat) + " owner_name="@
        + owner
}

/// The line of a connection whose owner is shown as given.
pub fn connection_line_with(connection: &ConnectionSnapshot, owner: &str) -> (text: String)
    ensures
        text@ == connection_line_text(*connection, owner@),
{
    let mut text = "SYSTEM_CONNECTION protocol=".to_owned();
    text.append(transport_word(connection.protocol));
    text.append(" local=");
    text.append(connection.local.text().as_str());
    text.append(" remote=");
    text.append(show_remote(connection.remote).as_str());
    text.append(" tcp_state=");
    text.append(show_state(connection.tcp_state).as_str());
    text.append(" pid=");
    text::put_number(&mut text, connection.pid as u64);
    text.append(" process_started_at_unix_nanos=");
    text.append(text::decimal_text(start_of(connection.process_key)).as_str());
    text.append(" owner_name=");
    text.append(owner);
    text
}

/// The line of a connection.
pub fn connection_line(connection: &ConnectionSnapshot) -> (text: String)
    ensures
        text@ == connection_line_text(
            *connection,
            optional_shown(debug_of(connection.owner_name)),
        ),
{
    connection_line_with(connection, debug_optional(&connection.owner_name).as_str())
}

/// The line of a version 4 flow that was watched.
pub open spec fn ipv4_line_text(aggregate: Ipv4Aggregate) -> Seq<char> {
    "ETW_"@ + provider_text(aggregate.protocol) + "_IPV4_AGGREGATE pid="@
        + text::decimal(aggregate.pid as nat) + " direction="@
        + etw::direction_text(aggregate.direction) + " source="@
        + address::ip_text(aggregate.source_address) + ":"@
        + text::decimal(aggregate.source_port as nat) + " destination="@
        + address::ip_text(aggregate.destination_address) + ":"@
        + text::decimal(aggregate.destination_port as nat) + " events="@
        + text::decimal(aggregate.events as nat) + " bytes="@
        + text::decimal(aggregate.bytes as nat)
}

/// The line of a version 4 flow that was watched.
pub fn ipv4_line(aggregate: &Ipv4Aggregate) -> (text: String)
    ensures
        text@ == ipv4_line_text(*aggregate),
{
    let mut text = "ETW_".to_owned();
    text.append(provider_word(aggregate.protocol));
    text.append("_IPV4_AGGREGATE pid=");
    text::put_number(&mut text, aggregate.pid as u64);
    text.append(" direction=");
    text.append(etw::direction_word(aggregate.direction));
    text.append(" source=");
    text.append(aggregate.source_address.text().as_str());
    text.append(":");
    text::put_number(&mut text, aggregate.source_port as u64);
    text.append(" destination=");
    text.append(aggregate.destination_address.text().as_str());
    text.append(":");
    text::put_number(&mut text, aggregate.destination_port as u64);
    text.append(" events=");
    text::put_number(&mut text, aggregate.events as u64);
    text.append(" bytes=");
    text::put_number(&mut text, aggregate.bytes as u64);
    text
}

/// The line of a version 6 flow that was watched.
pub open spec fn ipv6_line_text(aggregate: Ipv6Aggregate) -> Seq<char> {
    "ETW_"@ + provider_text(aggregate.protocol) + "_IPV6_AGGREGATE pid="@
        + text::decimal(aggregate.pid as nat) + " direction="@
        + etw::direction_text(aggregate.direction) + " source=["@
        + address::ip_text(aggregate.source_address) + "]:"@
        + text::decimal(aggregate.source_port as nat) + " destination=["@
        + address::ip_text(aggregate.destination_address) + "]:"@
        + text::decimal(aggregate.destination_port as nat) + " events="@
        + text::decimal(aggregate.events as nat) + " bytes="@
        + text::decimal(aggregate.bytes as nat)
}

/// The line of a version 6 flow that was watched.
pub fn ipv6_line(aggregate: &Ipv6Aggregate) -> (text: String)
    ensures
        text@ == ipv6_line_text(*aggregate),
{
    let mut text = "ETW_".to_owned();
    text.append(provider_word(aggregate.protocol));
    text.append("_IPV6_AGGREGATE pid=");
    text::put_number(&mut text, aggregate.pid as u64);
    text.append(" direction=");
    text.append(etw::direction_word(aggregate.direction));
    text.append(" source=[");
    text.append(aggregate.source_address.text().as_str());
    text.append("]:");
    text::put_number(&mut text, aggregate.source_port as u64);
    text.append(" destination=[");
    text.append(aggregate.destination_address.text().as_str());
    text.append("]:");
    text::put_number(&mut text, aggregate.destination_port as u64);
    text.append(" events=");
    text::put_number(&mut text, aggregate.events as u64);
    text.append(" bytes=");
    text::put_number(&mut text, aggregate.bytes as u64);
    text
}

/// The line of what a probe counted.
pub open spec fn summary_line_text(summary: EtwProbeSummary) -> Seq<char> {
    "ETW_PROBE_SUMMARY events_observed="@ + text::decimal(summary.events_observed as nat)
        + " schemas_resolved="@ + text::decimal(summary.schemas_resolved as nat)
        + " schema_errors="@ + text::decimal(summary.schema_errors as nat)
        + " tcp_ipv4_payloads_parsed="@ + text::decimal(summary.tcp_ipv4_payloads_parsed as nat)
        + " tcp_ipv4_payload_errors="@ + text::decimal(summary.tcp_ipv4_payload_errors as nat)
        + " tcp_send_ipv4_parsed="@ + text::decimal(summary.tcp_send_ipv4_parsed as nat)
        + " tcp_recv_ipv4_parsed="@ + text::decimal(summary.tcp_recv_ipv4_parsed as nat)
        + " udp_ipv4_payloads_parsed="@ + text::decimal(summary.udp_ipv4_payloads_parsed as nat)
        + " udp_ipv4_payload_errors="@ + text::decimal(summary.udp_ipv4_payload_errors as nat)
        + " udp_send_ipv4_parsed="@ + text::decimal(summary.udp_send_ipv4_parsed as nat)
        + " udp_recv_ipv4_parsed="@ + text::decimal(summary.udp_recv_ipv4_parsed as nat)
        + " tcp_ipv6_payloads_parsed="@ + text::decimal(summary.tcp_ipv6_payloads_parsed as nat)
        + " tcp_ipv6_payload_errors="@ + text::decimal(summary.tcp_ipv6_payload_errors as nat)
        + " tcp_send_ipv6_parsed="@ + text::decimal(summary.tcp_send_ipv6_parsed as nat)
        + " tcp_recv_ipv6_parsed="@ + text::decimal(summary.tcp_recv_ipv6_parsed as nat)
        + " udp_ipv6_payloads_parsed="@ + text::decimal(summary.udp_ipv6_payloads_parsed as nat)
        + " udp_ipv6_payload_errors="@ + text::decimal(summary.udp_ipv6_payload_errors as nat)
        + " udp_send_ipv6_parsed="@ + text::decimal(summary.udp_send_ipv6_parsed as nat)
        + " udp_recv_ipv6_parsed="@ + text::decimal(summary.udp_recv_ipv6_parsed as nat)
}

/// The line of what a probe counted.
pub fn summary_line(summary: &EtwProbeSummary) -> (text: String)
    ensures
        text@ == summary_line_text(*summary),
{
    let mut text = "ETW_PROBE_SUMMARY events_observed=".to_owned();
    text::put_number(&mut text, summary.events_observed as u64);
    text.append(" schemas_resolved=");
    text::put_number(&mut text, summary.schemas_resolved as u64);
    text.append(" schema_errors=");
    text::put_number(&mut text, summary.schema_errors as u64);
    text.append(" tcp_ipv4_payloads_parsed=");
    text::put_number(&mut text, summary.tcp_ipv4_payloads_parsed as u64);
    text.append(" tcp_ipv4_payload_errors=");
    text::put_number(&mut text, summary.tcp_ipv4_payload_errors as u64);
    text.append(" tcp_send_ipv4_parsed=");
    text::put_number(&mut text, summary.tcp_send_ipv4_parsed as u64);
    text.append(" tcp_recv_ipv4_parsed=");
    text::put_number(&mut text, summary.tcp_recv_ipv4_parsed as u64);
    text.append(" udp_ipv4_payloads_parsed=");
    text::put_number(&mut text, summary.udp_ipv4_payloads_parsed as u64);
    text.append(" udp_ipv4_payload_errors=");
    text::put_number(&mut text, summary.udp_ipv4_payload_errors as u64);
    text.append(" udp_send_ipv4_parsed=");
    text::put_number(&mut text, summary.udp_send_ipv4_parsed as u64);
    text.append(" udp_recv_ipv4_parsed=");
    text::put_number(&mut text, summary.udp_recv_ipv4_parsed as u64);
    text.append(" tcp_ipv6_payloads_parsed=");
    text::put_number(&mut text, summary.tcp_ipv6_payloads_parsed as u64);
    text.append(" tcp_ipv6_payload_errors=");
    text::put_number(&mut text, summary.tcp_ipv6_payload_errors as u64);
    text.append(" tcp_send_ipv6_parsed=");
    text::put_number(&mut text, summary.tcp_send_ipv6_parsed as u64);
    text.append(" tcp_recv_ipv6_parsed=");
    text::put_number(&mut text, summary.tcp_recv_ipv6_parsed as u64);
    text.append(" udp_ipv6_payloads_parsed=");
    text::put_number(&mut text, summary.udp_ipv6_payloads_parsed as u64);
    text.append(" udp_ipv6_payload_errors=");
    text::put_number(&mut text, summary.udp_ipv6_payload_errors as u64);
    text.append(" udp_send_ipv6_parsed=");
    text::put_number(&mut text, summary.udp_send_ipv6_parsed as u64);
    text.append(" udp_recv_ipv6_parsed=");
    text::put_number(&mut text, summary.udp_recv_ipv6_parsed as u64);
    text
}

/// The line of why a probe stopped.
pub fn stop_line(summary: &EtwProbeSummary) -> (text: String)
    ensures
        text@ == "ETW_PROBE_STOP stop_reason="@ + (if summary.interrupted {
            "console_ctrl_c"@
        } else {
            "duration_elapsed"@
        }),
{
    let mut text = "ETW_PROBE_STOP stop_reason=".to_owned();
    text.append(
        if summary.interrupted {
            "console_ctrl_c"
        } else {
            "duration_elapsed"
        },
    );
    text
}

/// The line of a trace's buffers and losses.
pub open spec fn statistics_line_text(summary: EtwProbeSummary) -> Seq<char> {
    "ETW_RUNTIME_STATS buffer_size_kb="@
        + text::decimal(summary.session_statistics.buffer_size_kb as nat) + " minimum_buffers="@
        + text::decimal(summary.session_statistics.minimum_buffers as nat) + " maximum_buffers="@
        + text::decimal(summary.session_statistics.maximum_buffers as nat) + " active_buffers="@
        + text::decimal(summary.session_statistics.active_buffers as nat) + " free_buffers="@
        + text::decimal(summary.session_statistics.free_buffers as nat) + " buffers_written="@
        + text::decimal(summary.session_statistics.buffers_written as nat) + " events_lost="@
        + text::decimal(summary.session_statistics.events_lost as nat)
        + " real_time_buffers_lost="@
        + text::decimal(summary.session_statistics.real_time_buffers_lost as nat)
        + " log_buffers_lost="@
        + text::decimal(summary.session_statistics.log_buffers_lost as nat)
        + " application_queue_capacity="@
        + text::decimal(summary.session_statistics.application_queue_capacity as nat)
        + " application_queue_peak="@
        + text::decimal(summary.session_statistics.application_queue_peak as nat)
        + " application_events_dropped="@
        + text::decimal(summary.session_statistics.application_events_dropped as nat)
        + " aggregate_keys="@
        + text::decimal(summary.ipv4_aggregates@.len() + summary.ipv6_aggregates@.len())
}

/// The line of a trace's buffers and losses.
pub fn statistics_line(summary: &EtwProbeSummary) -> (text: String)
    ensures
        text@ == statistics_line_text(*summary),
{
    let mut aggregates = String::new();
    text::put_wide_number(
        &mut aggregates,
        summary.ipv4_aggregates.len() as u128 + summary.ipv6_aggregates.len() as u128,
    );
    let mut text = "ETW_RUNTIME_STATS buffer_size_kb=".to_owned();
    text::put_number(&mut text, summary.session_statistics.buffer_size_kb as u64);
    text.append(" minimum_buffers=");
    text::put_number(&mut text, summary.session_statistics.minimum_buffers as u64);
    text.append(" maximum_buffers=");
    text::put_number(&mut text, summary.session_statistics.maximum_buffers as u64);
    text.append(" active_buffers=");
    text::put_number(&mut text, summary.session_statistics.active_buffers as u64);
    text.append(" free_buffers=");
    text::put_number(&mut text, summary.session_statistics.free_buffers as u64);
    text.append(" buffers_written=");
    text::put_number(&mut text, summary.session_statistics.buffers_written as u64);
    text.append(" events_lost=");
    text::put_number(&mut text, summary.session_statistics.events_lost as u64);
    text.append(" real_time_buffers_lost=");
    text::put_number(&mut text, summary.session_statistics.real_time_buffers_lost as u64);
    text.append(" log_buffers_lost=");
    text::put_number(&mut text, summary.session_statistics.log_buffers_lost as u64);
    text.append(" application_queue_capacity=");
    text::put_number(&mut text, summary.session_statistics.application_queue_capacity as u64);
    text.append(" application_queue_peak=");
    text::put_number(&mut text, summary.session_statistics.application_queue_peak as u64);
    text.append(" application_events_dropped=");
    text::put_number(&mut text, summary.session_statistics.application_events_dropped as u64);
    text.append(" aggregate_keys=");
    text.append(aggregates.as_str());
    text
}

/// The line of a written export.
pub open spec fn exported_line_text(
    format: ExportFormat,
    bytes: usize,
    output: Seq<char>,
) -> Seq<char> {
    "SNAPSHOT_EXPORTED format="@ + (if format is Json { "json"@ } else { "csv"@ }) + " bytes="@
        + text::decimal(bytes as nat) + " output="@ + output
}

/// The line of a written export.
pub fn exported_line(format: ExportFormat, bytes: usize, output: &str) -> (text: String)
    ensures
        text@ == exported_line_text(format, bytes, output@),
{
    let mut text = "SNAPSHOT_EXPORTED format=".to_owned();
    text.append(match format { ExportFormat::Json => "json", ExportFormat::Csv => "csv" });
    text.append(" bytes=");
    text::put_number(&mut text, bytes as u64);
    text.append(" output=");
    text.append(output);
    text
}

/// The line of a cleanup that ended well.
pub open spec fn cleanup_line_text(result: CleanupResult, session: Seq<char>) -> Seq<char> {
    match result {
        CleanupResult::Stopped => "ETW Session stopped and absence verified: "@ + session,
        CleanupResult::StoppedAfterMoreData =>
            "ETW stop returned ERROR_MORE_DATA; follow-up query confirmed absence: "@ + session,
        CleanupResult::AlreadyAbsent => "ETW Session became absent before stop: "@ + session,
    }
}

/// The line of a cleanup that ended well.
pub fn cleanup_line(result: CleanupResult, session: &str) -> (text: String)
    ensures
        text@ == cleanup_line_text(result, session@),
{
    let mut text = match result {
        CleanupResult::Stopped => "ETW Session stopped and absence verified: ".to_owned(),
        CleanupResult::StoppedAfterMoreData =>
            "ETW stop returned ERROR_MORE_DATA; follow-up query confirmed absence: ".to_owned(),
        CleanupResult::AlreadyAbsent => "ETW Session became absent before stop: ".to_owned(),
    };
    text.append(session);
    text
}

/// A connection counts as associated where its process is known, and as named where its owner's name
/// is.
pub proof fn law_connections_are_counted_by_what_is_known(
    connections: Seq<ConnectionSnapshot>,
    more: ConnectionSnapshot,
)
    ensures
        associated(Seq::empty()) == 0,
        named(Seq::empty()) == 0,
        associated(connections.push(more)) == associated(connections) + (if more.process_key
            is Some {
            1int
        } else {
            0
        }),
        named(connections.push(more)) == named(connections) + (if more.owner_name is Some {
            1int
        } else {
            0
        }),
{
    assert(connections.push(more).drop_last() =~= connections);
}

} // verus!
