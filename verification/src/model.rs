//! Events, flows, processes and connections.
use crate::address::SocketAddr;
use crate::ordered::OrderedKey;
use crate::text;
use std::sync::Arc;
use vstd::prelude::*;

verus! {

/// Transport protocol of a network event.
#[derive(Debug, Clone, Copy, PartialEq, Eq, PartialOrd, Ord, Hash, Structural)]
pub enum TransportProtocol {
    Tcp,
    Udp,
}

/// Direction of traffic as the collector reports it.
#[derive(Debug, Clone, Copy, PartialEq, Eq, PartialOrd, Ord, Hash, Structural)]
pub enum TrafficDirection {
    Send,
    Receive,
}

/// One network event on its way from collection to aggregation.
#[derive(Debug, Clone, Copy, PartialEq, Eq, Structural)]
pub struct NetworkEvent {
    pub timestamp_unix_nanos: u64,
    pub pid: u32,
    pub protocol: TransportProtocol,
    pub direction: TrafficDirection,
    pub source: SocketAddr,
    pub destination: SocketAddr,
    pub bytes: u64,
}

/// Key under which events are aggregated.
#[derive(Debug, Clone, Copy, PartialEq, Eq, PartialOrd, Ord, Hash, Structural)]
pub struct FlowKey {
    pub pid: u32,
    pub protocol: TransportProtocol,
    pub direction: TrafficDirection,
    pub source: SocketAddr,
    pub destination: SocketAddr,
}

/// The key of an event's flow.
pub open spec fn key_of(event: NetworkEvent) -> FlowKey {
    FlowKey {
        pid: event.pid,
        protocol: event.protocol,
        direction: event.direction,
        source: event.source,
        destination: event.destination,
    }
}

impl From<&NetworkEvent> for FlowKey {
    fn from(event: &NetworkEvent) -> (key: FlowKey) {
        FlowKey {
            pid: event.pid,
            protocol: event.protocol,
            direction: event.direction,
            source: event.source,
            destination: event.destination,
        }
    }
}

impl vstd::std_specs::convert::FromSpecImpl<&NetworkEvent> for FlowKey {
    open spec fn obeys_from_spec() -> bool {
        true
    }

    open spec fn from_spec(event: &NetworkEvent) -> FlowKey {
        key_of(*event)
    }
}

/// What a flow has carried so far.
#[derive(Debug, Clone, Copy, PartialEq, Eq, Structural)]
pub struct FlowSnapshot {
    pub key: FlowKey,
    pub process_key: Option<ProcessKey>,
    pub events: u64,
    pub bytes: u64,
    pub first_timestamp_unix_nanos: u64,
    pub last_timestamp_unix_nanos: u64,
}

/// Process identity that stays distinct when the system reuses a process number.
#[derive(Debug, Clone, Copy, PartialEq, Eq, PartialOrd, Ord, Hash, Structural)]
pub struct ProcessKey {
    pub pid: u32,
    pub started_at_unix_nanos: u64,
}

impl View for ProcessKey {
    type V = ProcessKey;

    open spec fn view(&self) -> ProcessKey {
        *self
    }
}

/// Process keys are ordered by number, then by start time.
impl OrderedKey for ProcessKey {
    open spec fn before(a: ProcessKey, b: ProcessKey) -> bool {
        a.pid < b.pid || (a.pid == b.pid && a.started_at_unix_nanos < b.started_at_unix_nanos)
    }

    proof fn lemma_irreflexive(a: ProcessKey) {
    }

    proof fn lemma_transitive(a: ProcessKey, b: ProcessKey, c: ProcessKey) {
    }

    proof fn lemma_total(a: ProcessKey, b: ProcessKey) {
    }

    fn precedes(&self, other: &Self) -> (r: bool) {
        self.pid < other.pid || (self.pid == other.pid && self.started_at_unix_nanos
            < other.started_at_unix_nanos)
    }
}

/// Process metadata at one point in time.
#[derive(Debug, PartialEq, Eq)]
pub struct ProcessSnapshot {
    pub key: ProcessKey,
    pub name: String,
    pub image_path: Option<String>,
    pub icon: ProcessIconState,
}

/// The picture of a process: `width * height` pixels of four bytes.
#[derive(Debug, Clone, PartialEq, Eq)]
pub struct ProcessIcon {
    pub width: u32,
    pub height: u32,
    pub rgba: Arc<Vec<u8>>,
}

#[derive(Debug, PartialEq, Eq)]
pub enum ProcessIconState {
    NotLoaded,
    Unavailable,
    Available(ProcessIcon),
}

/// `Arc::clone` makes another handle to the same bytes.
#[verifier::external_body]
fn share(pixels: &Arc<Vec<u8>>) -> (shared: Arc<Vec<u8>>)
    ensures
        shared == *pixels,
{
    Arc::clone(pixels)
}

impl Clone for ProcessIconState {
    fn clone(&self) -> (copy: Self)
        ensures
            copy == *self,
    {
        match self {
            ProcessIconState::NotLoaded => ProcessIconState::NotLoaded,
            ProcessIconState::Unavailable => ProcessIconState::Unavailable,
            ProcessIconState::Available(icon) => ProcessIconState::Available(
                ProcessIcon { width: icon.width, height: icon.height, rgba: share(&icon.rgba) },
            ),
        }
    }
}

impl Clone for ProcessSnapshot {
    fn clone(&self) -> (copy: Self)
        ensures
            copy == *self,
    {
        ProcessSnapshot {
            key: self.key,
            name: self.name.clone(),
            image_path: text::copy_optional(&self.image_path),
            icon: self.icon.clone(),
        }
    }
}

impl Clone for ConnectionSnapshot {
    fn clone(&self) -> (copy: Self)
        ensures
            copy == *self,
    {
        ConnectionSnapshot {
            protocol: self.protocol,
            local: self.local,
            remote: self.remote,
            tcp_state: self.tcp_state,
            pid: self.pid,
            process_key: self.process_key,
            owner_name: text::copy_optional(&self.owner_name),
        }
    }
}

/// A connection as a value.
#[verifier::ext_equal]
pub struct ConnectionView {
    pub protocol: TransportProtocol,
    pub local: SocketAddr,
    pub remote: Option<SocketAddr>,
    pub tcp_state: Option<TcpConnectionState>,
    pub pid: u32,
    pub process_key: Option<ProcessKey>,
    pub owner_name: Option<Seq<char>>,
}

impl View for ConnectionSnapshot {
    type V = ConnectionView;

    open spec fn view(&self) -> ConnectionView {
        ConnectionView {
            protocol: self.protocol,
            local: self.local,
            remote: self.remote,
            tcp_state: self.tcp_state,
            pid: self.pid,
            process_key: self.process_key,
            owner_name: text::optional(self.owner_name),
        }
    }
}

impl ConnectionSnapshot {
    /// Whether another connection is the same in every respect.
    pub fn same_as(&self, other: &ConnectionSnapshot) -> (r: bool)
        ensures
            r == (self@ == other@),
    {
        self.protocol == other.protocol && self.local == other.local && self.remote == other.remote
            && self.tcp_state == other.tcp_state && self.pid == other.pid && self.process_key
            == other.process_key && text::same_optional(&self.owner_name, &other.owner_name)
    }
}

/// A system snapshot as a value.
#[verifier::ext_equal]
pub struct SystemView {
    pub captured_at: u64,
    pub names: Seq<(u32, String)>,
    pub processes: Seq<ProcessSnapshot>,
    pub connections: Seq<ConnectionSnapshot>,
}

impl View for SystemSnapshot {
    type V = SystemView;

    open spec fn view(&self) -> SystemView {
        SystemView {
            captured_at: self.captured_at_unix_nanos,
            names: self.process_names@,
            processes: self.processes@,
            connections: self.connections@,
        }
    }
}

impl Clone for SystemSnapshot {
    fn clone(&self) -> (copy: Self)
        ensures
            copy@ == self@,
    {
        let mut process_names: Vec<(u32, String)> = Vec::new();
        for i in 0..self.process_names.len()
            invariant
                process_names@ == self.process_names@.take(i as int),
        {
            process_names.push((self.process_names[i].0, self.process_names[i].1.clone()));
        }
        let mut processes: Vec<ProcessSnapshot> = Vec::new();
        for i in 0..self.processes.len()
            invariant
                processes@ == self.processes@.take(i as int),
        {
            processes.push(self.processes[i].clone());
        }
        let mut connections: Vec<ConnectionSnapshot> = Vec::new();
        for i in 0..self.connections.len()
            invariant
                connections@ == self.connections@.take(i as int),
        {
            connections.push(self.connections[i].clone());
        }
        SystemSnapshot {
            captured_at_unix_nanos: self.captured_at_unix_nanos,
            process_names,
            processes,
            connections,
        }
    }
}

/// State of a TCP connection in the platform's table.
#[derive(Debug, Clone, Copy, PartialEq, Eq, PartialOrd, Ord, Hash, Structural)]
pub enum TcpConnectionState {
    Closed,
    Listen,
    SynSent,
    SynReceived,
    Established,
    FinWait1,
    FinWait2,
    CloseWait,
    Closing,
    LastAck,
    TimeWait,
    DeleteTcb,
    Unknown(u32),
}

/// Ownership of a TCP or UDP endpoint.
#[derive(Debug, PartialEq, Eq)]
pub struct ConnectionSnapshot {
    pub protocol: TransportProtocol,
    pub local: SocketAddr,
    pub remote: Option<SocketAddr>,
    pub tcp_state: Option<TcpConnectionState>,
    pub pid: u32,
    pub process_key: Option<ProcessKey>,
    /// Name from the same process enumeration, also of processes whose start time could not be
    /// read.
    pub owner_name: Option<String>,
}

/// Processes and connections at one point in time.
#[derive(Debug, PartialEq, Eq)]
pub struct SystemSnapshot {
    pub captured_at_unix_nanos: u64,
    /// Numbers and names from the same process enumeration, also of processes whose start time
    /// could not be read.
    pub process_names: Vec<(u32, String)>,
    pub processes: Vec<ProcessSnapshot>,
    pub connections: Vec<ConnectionSnapshot>,
}

/// Upload and download in one stretch of time of fixed width.
#[derive(Debug, Clone, Copy, PartialEq, Eq, Structural)]
pub struct TrafficBucket {
    pub start_unix_nanos: u64,
    pub send_bytes: u64,
    pub receive_bytes: u64,
}

/// Traffic of one process: what it has carried in all and its rate at the sample time.
#[derive(Debug, Clone, Copy, PartialEq, Eq, Structural)]
pub struct ProcessTrafficCounters {
    pub pid: u32,
    pub send_bytes_total: u64,
    pub receive_bytes_total: u64,
    pub send_bytes_per_second: u64,
    pub receive_bytes_per_second: u64,
    pub last_timestamp_unix_nanos: u64,
}

/// The sum of two counters, held at the largest value that a counter can have.
pub open spec fn saturated(n: int) -> u64 {
    if n > u64::MAX {
        u64::MAX
    } else {
        n as u64
    }
}

/// The product of two counters, held at the largest value that a counter can have.
pub fn saturating_product(a: u64, b: u64) -> (n: u64)
    ensures
        n == saturated(a * b),
{
    proof {
        vstd::arithmetic::mul::lemma_mul_nonnegative(a as int, b as int);
    }
    match a.checked_mul(b) {
        Some(n) => n,
        None => u64::MAX,
    }
}

/// Where the stretch of time of a given width that holds a timestamp starts.
pub open spec fn bucket_start(timestamp: u64, width: u64) -> u64 {
    (timestamp / width * width) as u64
}

/// Where the stretch of time of a given width that holds a timestamp starts.
pub fn start_of_bucket(timestamp: u64, width: u64) -> (start: u64)
    requires
        width > 0,
    ensures
        start == bucket_start(timestamp, width),
        start <= timestamp < start + width,
        start % width == 0,
{
    proof {
        vstd::arithmetic::div_mod::lemma_fundamental_div_mod(timestamp as int, width as int);
        vstd::arithmetic::div_mod::lemma_mod_bound(timestamp as int, width as int);
        vstd::arithmetic::div_mod::lemma_mod_multiples_basic(
            timestamp as int / width as int,
            width as int,
        );
        vstd::arithmetic::mul::lemma_mul_is_commutative(
            timestamp as int / width as int,
            width as int,
        );
    }
    timestamp / width * width
}

/// The protocol's place in the order of keys.
pub open spec fn protocol_rank(protocol: TransportProtocol) -> int {
    match protocol {
        TransportProtocol::Tcp => 0,
        TransportProtocol::Udp => 1,
    }
}

/// The direction's place in the order of keys.
pub open spec fn direction_rank(direction: TrafficDirection) -> int {
    match direction {
        TrafficDirection::Send => 0,
        TrafficDirection::Receive => 1,
    }
}

impl View for FlowKey {
    type V = FlowKey;

    open spec fn view(&self) -> FlowKey {
        *self
    }
}

/// Process number, protocol and direction in one number that orders as they do.
pub open spec fn flow_rank(key: FlowKey) -> int {
    key.pid * 4 + protocol_rank(key.protocol) * 2 + direction_rank(key.direction)
}

/// Flow keys are ordered by process number, protocol, direction, source and destination.
impl OrderedKey for FlowKey {
    open spec fn before(a: FlowKey, b: FlowKey) -> bool {
        flow_rank(a) < flow_rank(b) || (flow_rank(a) == flow_rank(b) && (SocketAddr::before(
            a.source,
            b.source,
        ) || (a.source == b.source && SocketAddr::before(a.destination, b.destination))))
    }

    proof fn lemma_irreflexive(a: FlowKey) {
    }

    proof fn lemma_transitive(a: FlowKey, b: FlowKey, c: FlowKey) {
    }

    proof fn lemma_total(a: FlowKey, b: FlowKey) {
    }

    fn precedes(&self, other: &Self) -> (r: bool) {
        let mine: u64 = rank(self);
        let theirs: u64 = rank(other);
        if mine != theirs {
            mine < theirs
        } else if self.source == other.source {
            self.destination.precedes(&other.destination)
        } else {
            self.source.precedes(&other.source)
        }
    }
}

fn rank(key: &FlowKey) -> (n: u64)
    ensures
        n == flow_rank(*key),
{
    let protocol: u64 = match key.protocol {
        TransportProtocol::Tcp => 0,
        TransportProtocol::Udp => 2,
    };
    let direction: u64 = match key.direction {
        TrafficDirection::Send => 0,
        TrafficDirection::Receive => 1,
    };
    key.pid as u64 * 4 + protocol + direction
}

/// A counter holds a number as it is, up to the largest that it can have.
pub proof fn law_counters_hold_at_their_largest(n: int)
    requires
        n >= 0,
    ensures
        n <= 0xffff_ffff_ffff_ffff ==> saturated(n) == n,
        n > 0xffff_ffff_ffff_ffff ==> saturated(n) == 0xffff_ffff_ffff_ffffu64,
{
}

/// A stretch of time holds the timestamp that it is looked up by, and starts on a multiple of its
/// width.
pub proof fn law_stretch_holds_its_timestamp(timestamp: u64, width: u64)
    requires
        width > 0,
    ensures
        bucket_start(timestamp, width) <= timestamp < bucket_start(timestamp, width) + width,
        bucket_start(timestamp, width) as int % width as int == 0,
        bucket_start(timestamp, width) == (timestamp as int / width as int) * width as int,
{
    vstd::arithmetic::div_mod::lemma_fundamental_div_mod(timestamp as int, width as int);
    vstd::arithmetic::div_mod::lemma_mod_bound(timestamp as int, width as int);
    vstd::arithmetic::div_mod::lemma_mod_multiples_basic(
        timestamp as int / width as int,
        width as int,
    );
    vstd::arithmetic::mul::lemma_mul_is_commutative(timestamp as int / width as int, width as int);
}

/// An event belongs to the flow of its process, protocol, direction and endpoints.
pub proof fn law_event_belongs_to_its_flow(event: NetworkEvent)
    ensures
        key_of(event).pid == event.pid,
        key_of(event).protocol == event.protocol,
        key_of(event).direction == event.direction,
        key_of(event).source == event.source,
        key_of(event).destination == event.destination,
{
}

/// Flow keys are ordered by process number first, then by protocol with TCP before UDP, then by
/// direction with sending before receiving, then by source and destination.
pub proof fn law_flow_keys_are_ordered(a: FlowKey, b: FlowKey)
    ensures
        a.pid < b.pid ==> FlowKey::before(a, b),
        a.pid == b.pid && a.protocol == TransportProtocol::Tcp && b.protocol
            == TransportProtocol::Udp ==> FlowKey::before(a, b),
        a.pid == b.pid && a.protocol == b.protocol && a.direction == TrafficDirection::Send
            && b.direction == TrafficDirection::Receive ==> FlowKey::before(a, b),
        a.pid == b.pid && a.protocol == b.protocol && a.direction == b.direction
            && SocketAddr::before(a.source, b.source) ==> FlowKey::before(a, b),
        a.pid == b.pid && a.protocol == b.protocol && a.direction == b.direction && a.source
            == b.source && SocketAddr::before(a.destination, b.destination) ==> FlowKey::before(
            a,
            b,
        ),
{
}

} // verus!
