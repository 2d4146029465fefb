//! Reading kernel network events: counting them, forwarding them and telling failures apart.
use crate::address;
use crate::address::{IpAddr, SocketAddr};
use crate::model;
use crate::model::{FlowKey, NetworkEvent, TrafficDirection, TransportProtocol};
use crate::ordered;
use crate::ordered::SortedMap;
use crate::text;
use vstd::prelude::*;

verus! {

/// The operation code of a version 4 send.
pub const SEND_IPV4_OPCODE: u8 = 10;

/// The operation code of a version 4 receive.
pub const RECV_IPV4_OPCODE: u8 = 11;

/// The operation code of a version 6 send.
pub const SEND_IPV6_OPCODE: u8 = 26;

/// The operation code of a version 6 receive.
pub const RECV_IPV6_OPCODE: u8 = 27;

/// The layout of the events that are read.
pub const NETWORK_EVENT_VERSION: u8 = 2;

/// How many events of any kind are printed.
pub const MAX_PRINTED_EVENTS: usize = 32;

/// How many payloads, or payload failures, of one provider and family are printed.
pub const MAX_PRINTED_PAYLOADS: usize = 64;

/// The access failure as the system's wide result codes spell it.
pub const HRESULT_ACCESS_DENIED: u32 = 0x8007_0005;

/// The provider that an event came from.
#[derive(Debug, Clone, Copy, PartialEq, Eq, PartialOrd, Ord, Hash, Structural)]
pub enum NetworkProtocol {
    /// The TCP/IP kernel provider.
    Tcp,
    /// The UDP/IP kernel provider.
    Udp,
}

/// The way an event's bytes went.
#[derive(Debug, Clone, Copy, PartialEq, Eq, PartialOrd, Ord, Hash, Structural)]
pub enum NetworkDirection {
    /// The process sent.
    Send,
    /// The process received.
    Receive,
}

/// The address family of an event.
#[derive(Debug, Clone, Copy, PartialEq, Eq, Structural)]
pub enum AddressFamily {
    V4,
    V6,
}

/// What the application calls a provider.
pub open spec fn transport(protocol: NetworkProtocol) -> TransportProtocol {
    match protocol {
        NetworkProtocol::Tcp => TransportProtocol::Tcp,
        NetworkProtocol::Udp => TransportProtocol::Udp,
    }
}

/// What the application calls a direction.
pub open spec fn traffic(direction: NetworkDirection) -> TrafficDirection {
    match direction {
        NetworkDirection::Send => TrafficDirection::Send,
        NetworkDirection::Receive => TrafficDirection::Receive,
    }
}

fn to_transport(protocol: NetworkProtocol) -> (r: TransportProtocol)
    ensures
        r == transport(protocol),
{
    match protocol {
        NetworkProtocol::Tcp => TransportProtocol::Tcp,
        NetworkProtocol::Udp => TransportProtocol::Udp,
    }
}

fn to_traffic(direction: NetworkDirection) -> (r: TrafficDirection)
    ensures
        r == traffic(direction),
{
    match direction {
        NetworkDirection::Send => TrafficDirection::Send,
        NetworkDirection::Receive => TrafficDirection::Receive,
    }
}

fn from_transport(protocol: TransportProtocol) -> (r: NetworkProtocol)
    ensures
        transport(r) == protocol,
{
    match protocol {
        TransportProtocol::Tcp => NetworkProtocol::Tcp,
        TransportProtocol::Udp => NetworkProtocol::Udp,
    }
}

fn from_traffic(direction: TrafficDirection) -> (r: NetworkDirection)
    ensures
        traffic(r) == direction,
{
    match direction {
        TrafficDirection::Send => NetworkDirection::Send,
        TrafficDirection::Receive => NetworkDirection::Receive,
    }
}

/// Traffic of one version 4 flow that touches a watched port.
#[derive(Debug, Clone, Copy, PartialEq, Eq, Structural)]
pub struct Ipv4Aggregate {
    pub protocol: NetworkProtocol,
    pub pid: u32,
    pub direction: NetworkDirection,
    pub source_address: IpAddr,
    pub source_port: u16,
    pub destination_address: IpAddr,
    pub destination_port: u16,
    pub events: u64,
    pub bytes: u64,
}

/// Traffic of one version 6 flow that touches a watched port.
#[derive(Debug, Clone, Copy, PartialEq, Eq, Structural)]
pub struct Ipv6Aggregate {
    pub protocol: NetworkProtocol,
    pub pid: u32,
    pub direction: NetworkDirection,
    pub source_address: IpAddr,
    pub source_port: u16,
    pub destination_address: IpAddr,
    pub destination_port: u16,
    pub events: u64,
    pub bytes: u64,
}

/// The number made of two bytes in the other order.
pub open spec fn swapped(raw: u16) -> u16 {
    (raw % 256 * 256 + raw / 256) as u16
}

/// A port read from a payload, whose bytes stand most significant first, on a machine that reads
/// numbers least significant byte first.
pub fn normalize_port(raw_port: u16) -> (port: u16)
    ensures
        port == swapped(raw_port),
{
    raw_port % 256 * 256 + raw_port / 256
}

/// Swapping the bytes of a port twice gives the port back.
pub proof fn law_port_order_is_an_involution(port: u16)
    ensures
        swapped(swapped(port)) == port,
{
}

/// The payload of a network event. The ports stand as the payload holds them.
#[derive(Debug, Clone, Copy, PartialEq, Eq, Structural)]
pub struct RawPayload {
    pub pid: u32,
    pub size: u32,
    pub destination_address: IpAddr,
    pub source_address: IpAddr,
    pub destination_port: u16,
    pub source_port: u16,
}

/// The payload of a network event, with its ports as numbers.
#[derive(Debug, Clone, Copy, PartialEq, Eq, Structural)]
pub struct NetworkPayload {
    pub pid: u32,
    pub size: u32,
    pub destination_address: IpAddr,
    pub source_address: IpAddr,
    pub destination_port: u16,
    pub source_port: u16,
}

/// A payload with its ports read.
pub open spec fn payload_of(raw: RawPayload) -> NetworkPayload {
    NetworkPayload {
        pid: raw.pid,
        size: raw.size,
        destination_address: raw.destination_address,
        source_address: raw.source_address,
        destination_port: swapped(raw.destination_port),
        source_port: swapped(raw.source_port),
    }
}

impl NetworkPayload {
    /// Reads the ports of a payload.
    pub fn from_raw(raw: RawPayload) -> (payload: NetworkPayload)
        ensures
            payload == payload_of(raw),
    {
        NetworkPayload {
            pid: raw.pid,
            size: raw.size,
            destination_address: raw.destination_address,
            source_address: raw.source_address,
            destination_port: normalize_port(raw.destination_port),
            source_port: normalize_port(raw.source_port),
        }
    }
}

/// The direction of an event of a family, where it is one that is read.
pub open spec fn direction_of(family: AddressFamily, version: u8, opcode: u8) -> Option<
    NetworkDirection,
> {
    let (send, receive) = match family {
        AddressFamily::V4 => (SEND_IPV4_OPCODE, RECV_IPV4_OPCODE),
        AddressFamily::V6 => (SEND_IPV6_OPCODE, RECV_IPV6_OPCODE),
    };
    if version != NETWORK_EVENT_VERSION {
        None
    } else if opcode == send {
        Some(NetworkDirection::Send)
    } else if opcode == receive {
        Some(NetworkDirection::Receive)
    } else {
        None
    }
}

/// The direction of an event of a family; none where the event is not read.
pub fn eligible_direction(family: AddressFamily, version: u8, opcode: u8) -> (direction: Option<
    NetworkDirection,
>)
    ensures
        direction == direction_of(family, version, opcode),
{
    let (send, receive): (u8, u8) = match family {
        AddressFamily::V4 => (SEND_IPV4_OPCODE, RECV_IPV4_OPCODE),
        AddressFamily::V6 => (SEND_IPV6_OPCODE, RECV_IPV6_OPCODE),
    };
    if version != NETWORK_EVENT_VERSION {
        None
    } else if opcode == send {
        Some(NetworkDirection::Send)
    } else if opcode == receive {
        Some(NetworkDirection::Receive)
    } else {
        None
    }
}

/// No event is read as one of both families.
pub proof fn law_event_has_one_family(version: u8, opcode: u8)
    ensures
        direction_of(AddressFamily::V4, version, opcode) is None || direction_of(
            AddressFamily::V6,
            version,
            opcode,
        ) is None,
{
}

/// What has been counted of one provider's events of one family.
#[derive(Debug, Clone, Copy, PartialEq, Eq, Structural)]
pub struct FamilyCounts {
    pub parsed: usize,
    pub reported: usize,
    pub payload_errors: usize,
    pub sends: usize,
    pub receives: usize,
}

/// The number after another; past the largest comes zero.
pub open spec fn next(n: usize) -> usize {
    if n == usize::MAX {
        0
    } else {
        (n + 1) as usize
    }
}

fn after(n: usize) -> (m: usize)
    ensures
        m == next(n),
{
    if n == usize::MAX {
        0
    } else {
        n + 1
    }
}

/// What a probe has counted.
#[verifier::ext_equal]
pub struct ProbeView {
    pub events_observed: usize,
    pub schemas_resolved: usize,
    pub schema_errors: usize,
    pub tcp_ipv4: FamilyCounts,
    pub tcp_ipv6: FamilyCounts,
    pub udp_ipv4: FamilyCounts,
    pub udp_ipv6: FamilyCounts,
    pub aggregates: Map<FlowKey, (u64, u64)>,
    pub fixture_ports: Seq<u16>,
    pub print_samples: bool,
}

/// What a running probe has counted, and which ports it watches.
pub struct ProbeState {
    pub events_observed: usize,
    pub schemas_resolved: usize,
    pub schema_errors: usize,
    pub tcp_ipv4: FamilyCounts,
    pub tcp_ipv6: FamilyCounts,
    pub udp_ipv4: FamilyCounts,
    pub udp_ipv6: FamilyCounts,
    pub aggregates: SortedMap<FlowKey, (u64, u64)>,
    pub fixture_ports: Vec<u16>,
    pub print_samples: bool,
}

impl View for ProbeState {
    type V = ProbeView;

    open spec fn view(&self) -> ProbeView {
        ProbeView {
            events_observed: self.events_observed,
            schemas_resolved: self.schemas_resolved,
            schema_errors: self.schema_errors,
            tcp_ipv4: self.tcp_ipv4,
            tcp_ipv6: self.tcp_ipv6,
            udp_ipv4: self.udp_ipv4,
            udp_ipv6: self.udp_ipv6,
            aggregates: self.aggregates@,
            fixture_ports: self.fixture_ports@,
            print_samples: self.print_samples,
        }
    }
}

/// The counts of one provider and family.
pub open spec fn counts_of(
    state: ProbeView,
    protocol: NetworkProtocol,
    family: AddressFamily,
) -> FamilyCounts {
    match (protocol, family) {
        (NetworkProtocol::Tcp, AddressFamily::V4) => state.tcp_ipv4,
        (NetworkProtocol::Tcp, AddressFamily::V6) => state.tcp_ipv6,
        (NetworkProtocol::Udp, AddressFamily::V4) => state.udp_ipv4,
        (NetworkProtocol::Udp, AddressFamily::V6) => state.udp_ipv6,
    }
}

/// A state with other counts for one provider and family.
pub open spec fn with_counts(
    state: ProbeView,
    protocol: NetworkProtocol,
    family: AddressFamily,
    counts: FamilyCounts,
) -> ProbeView {
    match (protocol, family) {
        (NetworkProtocol::Tcp, AddressFamily::V4) => ProbeView { tcp_ipv4: counts, ..state },
        (NetworkProtocol::Tcp, AddressFamily::V6) => ProbeView { tcp_ipv6: counts, ..state },
        (NetworkProtocol::Udp, AddressFamily::V4) => ProbeView { udp_ipv4: counts, ..state },
        (NetworkProtocol::Udp, AddressFamily::V6) => ProbeView { udp_ipv6: counts, ..state },
    }
}

/// Counts before anything was seen.
pub open spec fn no_counts() -> FamilyCounts {
    FamilyCounts { parsed: 0, reported: 0, payload_errors: 0, sends: 0, receives: 0 }
}

/// Whether a payload is one that is watched: one end has a watched port, or no port is named.
pub open spec fn watched(ports: Seq<u16>, payload: NetworkPayload) -> bool {
    ports.len() == 0 || ports.contains(payload.source_port) || ports.contains(
        payload.destination_port,
    )
}

/// The event that a payload tells of.
pub open spec fn event_of(
    payload: NetworkPayload,
    protocol: NetworkProtocol,
    direction: NetworkDirection,
    now: u64,
) -> NetworkEvent {
    NetworkEvent {
        timestamp_unix_nanos: now,
        pid: payload.pid,
        protocol: transport(protocol),
        direction: traffic(direction),
        source: address::endpoint(payload.source_address, payload.source_port),
        destination: address::endpoint(payload.destination_address, payload.destination_port),
        bytes: payload.size as u64,
    }
}

/// The event that a payload tells of, seen at `now`.
pub fn normalized_event(
    payload: &NetworkPayload,
    protocol: NetworkProtocol,
    direction: NetworkDirection,
    now: u64,
) -> (event: NetworkEvent)
    ensures
        event == event_of(*payload, protocol, direction, now),
{
    NetworkEvent {
        timestamp_unix_nanos: now,
        pid: payload.pid,
        protocol: to_transport(protocol),
        direction: to_traffic(direction),
        source: SocketAddr::new(payload.source_address, payload.source_port),
        destination: SocketAddr::new(payload.destination_address, payload.destination_port),
        bytes: payload.size as u64,
    }
}

/// Counts with one more payload.
pub open spec fn with_payload(
    counts: FamilyCounts,
    direction: NetworkDirection,
    watched: bool,
) -> FamilyCounts {
    FamilyCounts {
        parsed: next(counts.parsed),
        sends: if direction is Send {
            next(counts.sends)
        } else {
            counts.sends
        },
        receives: if direction is Receive {
            next(counts.receives)
        } else {
            counts.receives
        },
        reported: if watched {
            next(counts.reported)
        } else {
            counts.reported
        },
        ..counts
    }
}

/// Aggregates with one more payload.
pub open spec fn with_flow(
    aggregates: Map<FlowKey, (u64, u64)>,
    key: FlowKey,
    size: u32,
) -> Map<FlowKey, (u64, u64)> {
    let (events, bytes): (u64, u64) = if aggregates.dom().contains(key) {
        aggregates[key]
    } else {
        (0u64, 0u64)
    };
    aggregates.insert(key, (model::saturated(events + 1), model::saturated(bytes + size)))
}

/// A state after a payload was read.
pub open spec fn after_payload(
    state: ProbeView,
    protocol: NetworkProtocol,
    family: AddressFamily,
    direction: NetworkDirection,
    payload: NetworkPayload,
) -> ProbeView {
    let watched = watched(state.fixture_ports, payload);
    let counted = with_counts(
        state,
        protocol,
        family,
        with_payload(counts_of(state, protocol, family), direction, watched),
    );
    if watched && state.fixture_ports.len() > 0 {
        ProbeView {
            aggregates: with_flow(
                state.aggregates,
                model::key_of(event_of(payload, protocol, direction, 0)),
                payload.size,
            ),
            ..counted
        }
    } else {
        counted
    }
}

/// The digit of an address family.
pub open spec fn family_text(family: AddressFamily) -> Seq<char> {
    match family {
        AddressFamily::V4 => "4"@,
        AddressFamily::V6 => "6"@,
    }
}

fn family_digit(family: AddressFamily) -> (text: &'static str)
    ensures
        text@ == family_text(family),
{
    match family {
        AddressFamily::V4 => "4",
        AddressFamily::V6 => "6",
    }
}

/// The word for a provider.
pub open spec fn protocol_text(protocol: NetworkProtocol) -> Seq<char> {
    match protocol {
        NetworkProtocol::Tcp => "tcp"@,
        NetworkProtocol::Udp => "udp"@,
    }
}

/// The word for a provider.
pub fn protocol_word(protocol: NetworkProtocol) -> (text: &'static str)
    ensures
        text@ == protocol_text(protocol),
{
    match protocol {
        NetworkProtocol::Tcp => "tcp",
        NetworkProtocol::Udp => "udp",
    }
}

/// The word for a direction.
pub open spec fn direction_text(direction: NetworkDirection) -> Seq<char> {
    match direction {
        NetworkDirection::Send => "send"@,
        NetworkDirection::Receive => "receive"@,
    }
}

/// The word for a direction.
pub fn direction_word(direction: NetworkDirection) -> (text: &'static str)
    ensures
        text@ == direction_text(direction),
{
    match direction {
        NetworkDirection::Send => "send",
        NetworkDirection::Receive => "receive",
    }
}

/// The line that reports a payload.
pub open spec fn payload_line_text(
    family: AddressFamily,
    ordinal: usize,
    protocol: NetworkProtocol,
    direction: NetworkDirection,
    payload: NetworkPayload,
) -> Seq<char> {
    "ETW_IPV"@ + family_text(family) + "_PAYLOAD ordinal="@ + text::decimal(ordinal as nat)
        + " protocol="@ + protocol_text(protocol) + " direction="@ + direction_text(direction)
        + " pid="@ + text::decimal(payload.pid as nat) + " size="@
        + text::decimal(payload.size as nat) + " source="@
        + address::ip_text(payload.source_address) + ":"@
        + text::decimal(payload.source_port as nat) + " destination="@
        + address::ip_text(payload.destination_address) + ":"@
        + text::decimal(payload.destination_port as nat)
}

/// The line that reports a payload.
pub fn payload_line(
    family: AddressFamily,
    ordinal: usize,
    protocol: NetworkProtocol,
    direction: NetworkDirection,
    payload: &NetworkPayload,
) -> (text: String)
    ensures
        text@ == payload_line_text(family, ordinal, protocol, direction, *payload),
{
    let mut text = "ETW_IPV".to_owned();
    text.append(family_digit(family));
    text.append("_PAYLOAD ordinal=");
    text::put_number(&mut text, ordinal as u64);
    text.append(" protocol=");
    text.append(protocol_word(protocol));
    text.append(" direction=");
    text.append(direction_word(direction));
    text.append(" pid=");
    text::put_number(&mut text, payload.pid as u64);
    text.append(" size=");
    text::put_number(&mut text, payload.size as u64);
    text.append(" source=");
    text.append(payload.source_address.text().as_str());
    text.append(":");
    text::put_number(&mut text, payload.source_port as u64);
    text.append(" destination=");
    text.append(payload.destination_address.text().as_str());
    text.append(":");
    text::put_number(&mut text, payload.destination_port as u64);
    text
}

/// The line that reports a payload that could not be read.
pub open spec fn payload_error_line_text(
    family: AddressFamily,
    ordinal: usize,
    opcode: u8,
    version: u8,
    detail: Seq<char>,
) -> Seq<char> {
    "ETW_IPV"@ + family_text(family) + "_PAYLOAD_ERROR ordinal="@ + text::decimal(ordinal as nat)
        + " opcode="@ + text::decimal(opcode as nat) + " version="@
        + text::decimal(version as nat) + " detail="@ + detail
}

/// The line that reports a payload that could not be read.
pub fn payload_error_line(
    family: AddressFamily,
    ordinal: usize,
    opcode: u8,
    version: u8,
    detail: &str,
) -> (text: String)
    ensures
        text@ == payload_error_line_text(family, ordinal, opcode, version, detail@),
{
    let mut text = "ETW_IPV".to_owned();
    text.append(family_digit(family));
    text.append("_PAYLOAD_ERROR ordinal=");
    text::put_number(&mut text, ordinal as u64);
    text.append(" opcode=");
    text::put_number(&mut text, opcode as u64);
    text.append(" version=");
    text::put_number(&mut text, version as u64);
    text.append(" detail=");
    text.append(detail);
    text
}

/// An event as its header shows it.
#[derive(Debug, Clone, Copy, PartialEq, Eq, Structural)]
pub struct EventHeader {
    pub event_id: u16,
    pub opcode: u8,
    pub version: u8,
    pub process_id: u32,
    pub thread_id: u32,
    pub raw_timestamp: i64,
}

/// The line that reports an event.
pub open spec fn event_line_text(
    ordinal: usize,
    provider: Seq<char>,
    task: Seq<char>,
    opcode_name: Seq<char>,
    header: EventHeader,
) -> Seq<char> {
    "ETW_EVENT ordinal="@ + text::decimal(ordinal as nat) + " provider="@ + provider + " task="@
        + task + " opcode_name="@ + opcode_name + " event_id="@
        + text::decimal(header.event_id as nat) + " opcode="@
        + text::decimal(header.opcode as nat) + " version="@
        + text::decimal(header.version as nat) + " header_pid="@
        + text::decimal(header.process_id as nat) + " thread_id="@
        + text::decimal(header.thread_id as nat) + " timestamp_raw="@
        + text::signed_decimal(header.raw_timestamp as int)
}

/// The line that reports an event.
pub fn event_line(
    ordinal: usize,
    provider: &str,
    task: &str,
    opcode_name: &str,
    header: &EventHeader,
) -> (text: String)
    ensures
        text@ == event_line_text(ordinal, provider@, task@, opcode_name@, *header),
{
    let mut text = "ETW_EVENT ordinal=".to_owned();
    text::put_number(&mut text, ordinal as u64);
    text.append(" provider=");
    text.append(provider);
    text.append(" task=");
    text.append(task);
    text.append(" opcode_name=");
    text.append(opcode_name);
    text.append(" event_id=");
    text::put_number(&mut text, header.event_id as u64);
    text.append(" opcode=");
    text::put_number(&mut text, header.opcode as u64);
    text.append(" version=");
    text::put_number(&mut text, header.version as u64);
    text.append(" header_pid=");
    text::put_number(&mut text, header.process_id as u64);
    text.append(" thread_id=");
    text::put_number(&mut text, header.thread_id as u64);
    text.append(" timestamp_raw=");
    text.append(text::signed_decimal_text(header.raw_timestamp).as_str());
    text
}

/// The line that reports an event whose layout is not known.
pub open spec fn schema_error_line_text(
    ordinal: usize,
    header: EventHeader,
    detail: Seq<char>,
) -> Seq<char> {
    "ETW_SCHEMA_ERROR ordinal="@ + text::decimal(ordinal as nat) + " event_id="@
        + text::decimal(header.event_id as nat) + " opcode="@
        + text::decimal(header.opcode as nat) + " version="@
        + text::decimal(header.version as nat) + " detail="@ + detail
}

/// The line that reports an event whose layout is not known.
pub fn schema_error_line(ordinal: usize, header: &EventHeader, detail: &str) -> (text: String)
    ensures
        text@ == schema_error_line_text(ordinal, *header, detail@),
{
    let mut text = "ETW_SCHEMA_ERROR ordinal=".to_owned();
    text::put_number(&mut text, ordinal as u64);
    text.append(" event_id=");
    text::put_number(&mut text, header.event_id as u64);
    text.append(" opcode=");
    text::put_number(&mut text, header.opcode as u64);
    text.append(" version=");
    text::put_number(&mut text, header.version as u64);
    text.append(" detail=");
    text.append(detail);
    text
}

/// What comes of a payload: the event to forward and the line to print.
pub struct PayloadOutcome {
    pub event: Option<NetworkEvent>,
    pub line: Option<String>,
}

impl ProbeState {
    /// The aggregates stand in order.
    pub open spec fn well_formed(&self) -> bool {
        self.aggregates.well_formed()
    }

    /// A probe that has seen nothing.
    pub fn new(fixture_ports: Vec<u16>, print_samples: bool) -> (state: ProbeState)
        ensures
            state.well_formed(),
            state@ == (ProbeView {
                events_observed: 0,
                schemas_resolved: 0,
                schema_errors: 0,
                tcp_ipv4: no_counts(),
                tcp_ipv6: no_counts(),
                udp_ipv4: no_counts(),
                udp_ipv6: no_counts(),
                aggregates: Map::empty(),
                fixture_ports: fixture_ports@,
                print_samples,
            }),
    {
        let none = FamilyCounts { parsed: 0, reported: 0, payload_errors: 0, sends: 0, receives: 0 };
        ProbeState {
            events_observed: 0,
            schemas_resolved: 0,
            schema_errors: 0,
            tcp_ipv4: none,
            tcp_ipv6: none,
            udp_ipv4: none,
            udp_ipv6: none,
            aggregates: SortedMap::new(),
            fixture_ports,
            print_samples,
        }
    }

    /// Counts an event, and gives its place among all.
    pub fn observe(&mut self) -> (ordinal: usize)
        requires
            old(self).well_formed(),
        ensures
            final(self).well_formed(),
            ordinal == next(old(self)@.events_observed),
            final(self)@ == (ProbeView { events_observed: ordinal, ..old(self)@ }),
    {
        self.events_observed = after(self.events_observed);
        self.events_observed
    }

    /// Counts an event whose layout is known, and says whether it is printed.
    pub fn schema_resolved(&mut self, ordinal: usize) -> (printed: bool)
        requires
            old(self).well_formed(),
        ensures
            final(self).well_formed(),
            printed == (old(self)@.print_samples && ordinal <= MAX_PRINTED_EVENTS),
            final(self)@ == (ProbeView {
                schemas_resolved: next(old(self)@.schemas_resolved),
                ..old(self)@
            }),
    {
        self.schemas_resolved = after(self.schemas_resolved);
        self.print_samples && ordinal <= MAX_PRINTED_EVENTS
    }

    /// Counts an event whose layout is not known, and says whether it is printed.
    pub fn schema_failed(&mut self, ordinal: usize) -> (printed: bool)
        requires
            old(self).well_formed(),
        ensures
            final(self).well_formed(),
            printed == (ordinal <= MAX_PRINTED_EVENTS),
            final(self)@ == (ProbeView {
                schema_errors: next(old(self)@.schema_errors),
                ..old(self)@
            }),
    {
        self.schema_errors = after(self.schema_errors);
        ordinal <= MAX_PRINTED_EVENTS
    }

    fn counts(&self, protocol: NetworkProtocol, family: AddressFamily) -> (counts: FamilyCounts)
        ensures
            counts == counts_of(self@, protocol, family),
    {
        match (protocol, family) {
            (NetworkProtocol::Tcp, AddressFamily::V4) => self.tcp_ipv4,
            (NetworkProtocol::Tcp, AddressFamily::V6) => self.tcp_ipv6,
            (NetworkProtocol::Udp, AddressFamily::V4) => self.udp_ipv4,
            (NetworkProtocol::Udp, AddressFamily::V6) => self.udp_ipv6,
        }
    }

    fn set_counts(
        &mut self,
        protocol: NetworkProtocol,
        family: AddressFamily,
        counts: FamilyCounts,
    )
        requires
            old(self).well_formed(),
        ensures
            final(self).well_formed(),
            final(self)@ == with_counts(old(self)@, protocol, family, counts),
    {
        match (protocol, family) {
            (NetworkProtocol::Tcp, AddressFamily::V4) => {
                self.tcp_ipv4 = counts;
            },
            (NetworkProtocol::Tcp, AddressFamily::V6) => {
                self.tcp_ipv6 = counts;
            },
            (NetworkProtocol::Udp, AddressFamily::V4) => {
                self.udp_ipv4 = counts;
            },
            (NetworkProtocol::Udp, AddressFamily::V6) => {
                self.udp_ipv6 = counts;
            },
        }
    }

    fn watches(&self, payload: &NetworkPayload) -> (r: bool)
        ensures
            r == watched(self.fixture_ports@, *payload),
    {
        if self.fixture_ports.len() == 0 {
            return true;
        }
        for i in 0..self.fixture_ports.len()
            invariant
                forall|j: int|
                    0 <= j < i ==> (#[trigger] self.fixture_ports@[j]) != payload.source_port
                        && self.fixture_ports@[j] != payload.destination_port,
        {
            if self.fixture_ports[i] == payload.source_port || self.fixture_ports[i]
                == payload.destination_port {
                assert(self.fixture_ports@.contains(self.fixture_ports@[i as int]));
                return true;
            }
        }
        false
    }

    /// Counts a payload that could not be read, and gives the line to print, if any.
    pub fn payload_failed(
        &mut self,
        protocol: NetworkProtocol,
        family: AddressFamily,
        opcode: u8,
        version: u8,
        detail: &str,
    ) -> (line: Option<String>)
        requires
            old(self).well_formed(),
        ensures
            final(self).well_formed(),
            ({
                let counts = counts_of(old(self)@, protocol, family);
                let ordinal = next(counts.payload_errors);
                &&& final(self)@ == with_counts(
                    old(self)@,
                    protocol,
                    family,
                    FamilyCounts { payload_errors: ordinal, ..counts },
                )
                &&& text::optional(line) == (if ordinal <= MAX_PRINTED_PAYLOADS {
                    Some(payload_error_line_text(family, ordinal, opcode, version, detail@))
                } else {
                    None
                })
            }),
    {
        let counts = self.counts(protocol, family);
        let ordinal: usize = after(counts.payload_errors);
        self.set_counts(protocol, family, FamilyCounts { payload_errors: ordinal, ..counts });
        if ordinal <= MAX_PRINTED_PAYLOADS {
            Some(payload_error_line(family, ordinal, opcode, version, detail))
        } else {
            None
        }
    }

    /// Counts a payload. A watched one is forwarded as an event, and the first of them are printed.
    pub fn payload_parsed(
        &mut self,
        protocol: NetworkProtocol,
        family: AddressFamily,
        direction: NetworkDirection,
        payload: &NetworkPayload,
        now: u64,
    ) -> (outcome: PayloadOutcome)
        requires
            old(self).well_formed(),
        ensures
            final(self).well_formed(),
            final(self)@ == after_payload(old(self)@, protocol, family, direction, *payload),
            outcome.event == (if watched(old(self)@.fixture_ports, *payload) {
                Some(event_of(*payload, protocol, direction, now))
            } else {
                None
            }),
            ({
                let ordinal = next(counts_of(old(self)@, protocol, family).reported);
                text::optional(outcome.line) == (if watched(old(self)@.fixture_ports, *payload)
                    && old(self)@.print_samples && ordinal <= MAX_PRINTED_PAYLOADS {
                    Some(payload_line_text(family, ordinal, protocol, direction, *payload))
                } else {
                    None
                })
            }),
    {
        let watched = self.watches(payload);
        let mut counts = self.counts(protocol, family);
        counts.parsed = after(counts.parsed);
        match direction {
            NetworkDirection::Send => {
                counts.sends = after(counts.sends);
            },
            NetworkDirection::Receive => {
                counts.receives = after(counts.receives);
            },
        }
        if watched {
            counts.reported = after(counts.reported);
        }
        self.set_counts(protocol, family, counts);
        if !watched {
            return PayloadOutcome { event: None, line: None };
        }
        let event = normalized_event(payload, protocol, direction, now);
        if self.fixture_ports.len() > 0 {
            let key = FlowKey::from(&event);
            let sums = self.aggregates.entry(key, (0u64, 0u64));
            sums.0 = sums.0.saturating_add(1);
            sums.1 = sums.1.saturating_add(payload.size as u64);
        }
        let line = if self.print_samples && counts.reported <= MAX_PRINTED_PAYLOADS {
            Some(payload_line(family, counts.reported, protocol, direction, payload))
        } else {
            None
        };
        PayloadOutcome { event: Some(event), line }
    }
}

/// The provider behind a protocol.
pub open spec fn provider(protocol: TransportProtocol) -> NetworkProtocol {
    match protocol {
        TransportProtocol::Tcp => NetworkProtocol::Tcp,
        TransportProtocol::Udp => NetworkProtocol::Udp,
    }
}

/// The provider's word for a direction.
pub open spec fn way(direction: TrafficDirection) -> NetworkDirection {
    match direction {
        TrafficDirection::Send => NetworkDirection::Send,
        TrafficDirection::Receive => NetworkDirection::Receive,
    }
}

/// The flows whose source has an address of version 6, or those whose source has not, in order.
pub open spec fn flows_of_family(aggregates: Map<FlowKey, (u64, u64)>, ipv6: bool) -> Seq<FlowKey> {
    ordered::ordered_list::<FlowKey>(
        Set::new(
            |key: FlowKey| aggregates.dom().contains(key) && (key.source.ip is V6) == ipv6,
        ),
    )
}

/// A flow's sums as they are listed.
pub open spec fn ipv4_aggregate(key: FlowKey, sums: (u64, u64)) -> Ipv4Aggregate {
    Ipv4Aggregate {
        protocol: provider(key.protocol),
        pid: key.pid,
        direction: way(key.direction),
        source_address: key.source.ip,
        source_port: key.source.port,
        destination_address: key.destination.ip,
        destination_port: key.destination.port,
        events: sums.0,
        bytes: sums.1,
    }
}

/// The sums of the version 4 flows, in the order of the flows.
pub open spec fn ipv4_aggregates(aggregates: Map<FlowKey, (u64, u64)>) -> Seq<Ipv4Aggregate> {
    flows_of_family(aggregates, false).map_values(
        |key: FlowKey| ipv4_aggregate(key, aggregates[key]),
    )
}

/// A flow's sums as they are listed.
pub open spec fn ipv6_aggregate(key: FlowKey, sums: (u64, u64)) -> Ipv6Aggregate {
    Ipv6Aggregate {
        protocol: provider(key.protocol),
        pid: key.pid,
        direction: way(key.direction),
        source_address: key.source.ip,
        source_port: key.source.port,
        destination_address: key.destination.ip,
        destination_port: key.destination.port,
        events: sums.0,
        bytes: sums.1,
    }
}

/// The sums of the version 6 flows, in the order of the flows.
pub open spec fn ipv6_aggregates(aggregates: Map<FlowKey, (u64, u64)>) -> Seq<Ipv6Aggregate> {
    flows_of_family(aggregates, true).map_values(
        |key: FlowKey| ipv6_aggregate(key, aggregates[key]),
    )
}

/// Buffers and losses of a trace session.
#[derive(Debug, Clone, Copy, PartialEq, Eq, Structural)]
pub struct EtwSessionStatistics {
    pub buffer_size_kb: u32,
    pub minimum_buffers: u32,
    pub maximum_buffers: u32,
    pub active_buffers: u32,
    pub free_buffers: u32,
    pub events_lost: u32,
    pub buffers_written: u32,
    pub log_buffers_lost: u32,
    pub real_time_buffers_lost: u32,
    /// The callback of a probe is synchronous: it has no queue.
    pub application_queue_capacity: usize,
    pub application_queue_peak: usize,
    pub application_events_dropped: usize,
}

/// Buffers and losses as the system reports them.
#[derive(Debug, Clone, Copy, PartialEq, Eq, Structural)]
pub struct NativeTraceStatistics {
    pub buffer_size_kb: u32,
    pub minimum_buffers: u32,
    pub maximum_buffers: u32,
    pub active_buffers: u32,
    pub free_buffers: u32,
    pub events_lost: u32,
    pub buffers_written: u32,
    pub log_buffers_lost: u32,
    pub real_time_buffers_lost: u32,
}

impl From<NativeTraceStatistics> for EtwSessionStatistics {
    fn from(native: NativeTraceStatistics) -> (statistics: EtwSessionStatistics) {
        EtwSessionStatistics {
            buffer_size_kb: native.buffer_size_kb,
            minimum_buffers: native.minimum_buffers,
            maximum_buffers: native.maximum_buffers,
            active_buffers: native.active_buffers,
            free_buffers: native.free_buffers,
            events_lost: native.events_lost,
            buffers_written: native.buffers_written,
            log_buffers_lost: native.log_buffers_lost,
            real_time_buffers_lost: native.real_time_buffers_lost,
            application_queue_capacity: 0,
            application_queue_peak: 0,
            application_events_dropped: 0,
        }
    }
}

impl vstd::std_specs::convert::FromSpecImpl<NativeTraceStatistics> for EtwSessionStatistics {
    open spec fn obeys_from_spec() -> bool {
        true
    }

    open spec fn from_spec(native: NativeTraceStatistics) -> EtwSessionStatistics {
        EtwSessionStatistics {
            buffer_size_kb: native.buffer_size_kb,
            minimum_buffers: native.minimum_buffers,
            maximum_buffers: native.maximum_buffers,
            active_buffers: native.active_buffers,
            free_buffers: native.free_buffers,
            events_lost: native.events_lost,
            buffers_written: native.buffers_written,
            log_buffers_lost: native.log_buffers_lost,
            real_time_buffers_lost: native.real_time_buffers_lost,
            application_queue_capacity: 0,
            application_queue_peak: 0,
            application_events_dropped: 0,
        }
    }
}

/// What a bounded probe saw.
#[derive(Debug, Clone, PartialEq, Eq)]
pub struct EtwProbeSummary {
    /// Whether the console asked the probe to stop.
    pub interrupted: bool,
    /// Events of any kind.
    pub events_observed: usize,
    /// Events whose layout was known.
    pub schemas_resolved: usize,
    /// Events whose layout was not known.
    pub schema_errors: usize,
    pub tcp_ipv4_payloads_parsed: usize,
    pub tcp_ipv4_payload_errors: usize,
    pub tcp_send_ipv4_parsed: usize,
    pub tcp_recv_ipv4_parsed: usize,
    pub udp_ipv4_payloads_parsed: usize,
    pub udp_ipv4_payload_errors: usize,
    pub udp_send_ipv4_parsed: usize,
    pub udp_recv_ipv4_parsed: usize,
    pub tcp_ipv6_payloads_parsed: usize,
    pub tcp_ipv6_payload_errors: usize,
    pub tcp_send_ipv6_parsed: usize,
    pub tcp_recv_ipv6_parsed: usize,
    pub udp_ipv6_payloads_parsed: usize,
    pub udp_ipv6_payload_errors: usize,
    pub udp_send_ipv6_parsed: usize,
    pub udp_recv_ipv6_parsed: usize,
    /// Version 4 flows that touch a watched port.
    pub ipv4_aggregates: Vec<Ipv4Aggregate>,
    /// Version 6 flows that touch a watched port.
    pub ipv6_aggregates: Vec<Ipv6Aggregate>,
    /// Buffers and losses just before the session was stopped.
    pub session_statistics: EtwSessionStatistics,
}

/// Whether a summary tells what a probe counted.
pub open spec fn summarized(
    summary: EtwProbeSummary,
    state: ProbeView,
    interrupted: bool,
    statistics: EtwSessionStatistics,
) -> bool {
    &&& summary.interrupted == interrupted
    &&& summary.events_observed == state.events_observed
    &&& summary.schemas_resolved == state.schemas_resolved
    &&& summary.schema_errors == state.schema_errors
    &&& summary.tcp_ipv4_payloads_parsed == state.tcp_ipv4.parsed
    &&& summary.tcp_ipv4_payload_errors == state.tcp_ipv4.payload_errors
    &&& summary.tcp_send_ipv4_parsed == state.tcp_ipv4.sends
    &&& summary.tcp_recv_ipv4_parsed == state.tcp_ipv4.receives
    &&& summary.udp_ipv4_payloads_parsed == state.udp_ipv4.parsed
    &&& summary.udp_ipv4_payload_errors == state.udp_ipv4.payload_errors
    &&& summary.udp_send_ipv4_parsed == state.udp_ipv4.sends
    &&& summary.udp_recv_ipv4_parsed == state.udp_ipv4.receives
    &&& summary.tcp_ipv6_payloads_parsed == state.tcp_ipv6.parsed
    &&& summary.tcp_ipv6_payload_errors == state.tcp_ipv6.payload_errors
    &&& summary.tcp_send_ipv6_parsed == state.tcp_ipv6.sends
    &&& summary.tcp_recv_ipv6_parsed == state.tcp_ipv6.receives
    &&& summary.udp_ipv6_payloads_parsed == state.udp_ipv6.parsed
    &&& summary.udp_ipv6_payload_errors == state.udp_ipv6.payload_errors
    &&& summary.udp_send_ipv6_parsed == state.udp_ipv6.sends
    &&& summary.udp_recv_ipv6_parsed == state.udp_ipv6.receives
    &&& summary.ipv4_aggregates@ == ipv4_aggregates(state.aggregates)
    &&& summary.ipv6_aggregates@ == ipv6_aggregates(state.aggregates)
    &&& summary.session_statistics == statistics
}

impl ProbeState {
    /// The flows of one family with their sums, in order.
    fn family(&self, ipv6: bool) -> (flows: Vec<(FlowKey, (u64, u64))>)
        requires
            self.well_formed(),
        ensures
            flows@.len() == flows_of_family(self.aggregates@, ipv6).len(),
            forall|i: int|
                0 <= i < flows@.len() ==> (#[trigger] flows@[i]).0 == flows_of_family(
                    self.aggregates@,
                    ipv6,
                )[i] && flows@[i].1 == self.aggregates@[flows@[i].0],
    {
        let entries = self.aggregates.entries();
        let mut flows: Vec<(FlowKey, (u64, u64))> = Vec::new();
        for i in 0..entries.len()
            invariant
                ordered::increasing(entries@),
                entries@ == self.aggregates.listing(),
                ordered::increasing(flows@),
                forall|j: int|
                    0 <= j < flows@.len() ==> ((#[trigger] flows@[j]).0.source.ip is V6) == ipv6
                        && exists|k: int| 0 <= k < i && #[trigger] entries@[k] == flows@[j],
                forall|k: int|
                    0 <= k < i && ((#[trigger] entries@[k]).0.source.ip is V6) == ipv6
                        ==> exists|j: int|
                        0 <= j < flows@.len() && #[trigger] flows@[j] == entries@[k],
        {
            let version_6 = match entries[i].0.source.ip {
                IpAddr::V4(_) => false,
                IpAddr::V6(_) => true,
            };
            let ghost before = flows@;
            if version_6 == ipv6 {
                flows.push(entries[i]);
                assert(flows@[before.len() as int] == entries@[i as int]);
            }
            assert forall|k: int|
                0 <= k < i + 1 && ((#[trigger] entries@[k]).0.source.ip is V6) == ipv6 implies exists|
                j: int,
            | 0 <= j < flows@.len() && #[trigger] flows@[j] == entries@[k] by {
                if k < i {
                    let j = choose|j: int| 0 <= j < before.len() && #[trigger] before[j] == entries@[k];
                    assert(flows@[j] == entries@[k]);
                } else {
                    assert(flows@[before.len() as int] == entries@[k]);
                }
            }
        }
        proof {
            let all = self.aggregates@;
            let set = Set::new(
                |key: FlowKey| all.dom().contains(key) && (key.source.ip is V6) == ipv6,
            );
            let keys = ordered::keys_of(flows@);
            assert forall|i: int| 0 <= i < flows@.len() implies set.contains(#[trigger] keys[i])
                && flows@[i].1 == all[flows@[i].0] by {
                let k = choose|k: int| 0 <= k < entries@.len() && #[trigger] entries@[k] == flows@[i];
                ordered::lemma_entry_in_map(entries@, k);
            }
            assert forall|key: FlowKey| #[trigger] set.contains(key) implies exists|i: int|
                0 <= i < keys.len() && #[trigger] keys[i] == key by {
                let k = choose|k: int| 0 <= k < entries@.len() && (#[trigger] entries@[k]).0@ == key;
                assert((entries@[k].0.source.ip is V6) == ipv6);
                let j = choose|j: int| 0 <= j < flows@.len() && #[trigger] flows@[j] == entries@[k];
                assert(keys[j] == key);
            }
            assert(ordered::in_order::<FlowKey>(keys, set));
            ordered::lemma_one_order::<FlowKey>(keys, ordered::ordered_list::<FlowKey>(set), set);
            assert forall|i: int| 0 <= i < flows@.len() implies (#[trigger] flows@[i]).0
                == flows_of_family(all, ipv6)[i] && flows@[i].1 == all[flows@[i].0] by {
                assert(keys[i] == flows@[i].0);
            }
        }
        flows
    }

    fn ipv4_list(&self) -> (list: Vec<Ipv4Aggregate>)
        requires
            self.well_formed(),
        ensures
            list@ == ipv4_aggregates(self.aggregates@),
    {
        let flows = self.family(false);
        let mut list: Vec<Ipv4Aggregate> = Vec::new();
        for i in 0..flows.len()
            invariant
                list@.len() == i,
                forall|j: int|
                    0 <= j < i ==> #[trigger] list@[j] == ipv4_aggregate(flows@[j].0, flows@[j].1),
        {
            let (key, sums) = flows[i];
            list.push(
                Ipv4Aggregate {
                    protocol: from_transport(key.protocol),
                    pid: key.pid,
                    direction: from_traffic(key.direction),
                    source_address: key.source.ip,
                    source_port: key.source.port,
                    destination_address: key.destination.ip,
                    destination_port: key.destination.port,
                    events: sums.0,
                    bytes: sums.1,
                },
            );
        }
        assert(list@ =~= ipv4_aggregates(self.aggregates@));
        list
    }

    fn ipv6_list(&self) -> (list: Vec<Ipv6Aggregate>)
        requires
            self.well_formed(),
        ensures
            list@ == ipv6_aggregates(self.aggregates@),
    {
        let flows = self.family(true);
        let mut list: Vec<Ipv6Aggregate> = Vec::new();
        for i in 0..flows.len()
            invariant
                list@.len() == i,
                forall|j: int|
                    0 <= j < i ==> #[trigger] list@[j] == ipv6_aggregate(flows@[j].0, flows@[j].1),
        {
            let (key, sums) = flows[i];
            list.push(
                Ipv6Aggregate {
                    protocol: from_transport(key.protocol),
                    pid: key.pid,
                    direction: from_traffic(key.direction),
                    source_address: key.source.ip,
                    source_port: key.source.port,
                    destination_address: key.destination.ip,
                    destination_port: key.destination.port,
                    events: sums.0,
                    bytes: sums.1,
                },
            );
        }
        assert(list@ =~= ipv6_aggregates(self.aggregates@));
        list
    }

    /// What the probe saw, told when its session has stopped.
    pub fn summary(&self, interrupted: bool, statistics: NativeTraceStatistics) -> (summary:
        EtwProbeSummary)
        requires
            self.well_formed(),
        ensures
            summarized(
                summary,
                self@,
                interrupted,
                <EtwSessionStatistics as vstd::std_specs::convert::FromSpec<
                    NativeTraceStatistics,
                >>::from_spec(statistics),
            ),
    {
        EtwProbeSummary {
            interrupted,
            events_observed: self.events_observed,
            schemas_resolved: self.schemas_resolved,
            schema_errors: self.schema_errors,
            tcp_ipv4_payloads_parsed: self.tcp_ipv4.parsed,
            tcp_ipv4_payload_errors: self.tcp_ipv4.payload_errors,
            tcp_send_ipv4_parsed: self.tcp_ipv4.sends,
            tcp_recv_ipv4_parsed: self.tcp_ipv4.receives,
            udp_ipv4_payloads_parsed: self.udp_ipv4.parsed,
            udp_ipv4_payload_errors: self.udp_ipv4.payload_errors,
            udp_send_ipv4_parsed: self.udp_ipv4.sends,
            udp_recv_ipv4_parsed: self.udp_ipv4.receives,
            tcp_ipv6_payloads_parsed: self.tcp_ipv6.parsed,
            tcp_ipv6_payload_errors: self.tcp_ipv6.payload_errors,
            tcp_send_ipv6_parsed: self.tcp_ipv6.sends,
            tcp_recv_ipv6_parsed: self.tcp_ipv6.receives,
            udp_ipv6_payloads_parsed: self.udp_ipv6.parsed,
            udp_ipv6_payload_errors: self.udp_ipv6.payload_errors,
            udp_send_ipv6_parsed: self.udp_ipv6.sends,
            udp_recv_ipv6_parsed: self.udp_ipv6.receives,
            ipv4_aggregates: self.ipv4_list(),
            ipv6_aggregates: self.ipv6_list(),
            session_statistics: EtwSessionStatistics::from(statistics),
        }
    }
}

/// Whether the counts of a provider and family add up: each payload was a send or a receive, and no
/// more were reported than read.
pub open spec fn balanced(counts: FamilyCounts) -> bool {
    counts.sends + counts.receives == counts.parsed && counts.reported <= counts.parsed
}

/// While the count of payloads has not run over, each payload read is a send or a receive, and no
/// more payloads are reported than read.
pub proof fn law_payloads_are_sends_or_receives(
    counts: FamilyCounts,
    direction: NetworkDirection,
    watched: bool,
)
    requires
        balanced(counts),
        counts.parsed < usize::MAX,
    ensures
        balanced(with_payload(counts, direction, watched)),
        balanced(no_counts()),
{
}

/// A payload that touches no watched port changes no aggregate; where no port is named every
/// payload is forwarded and none is aggregated.
pub proof fn law_only_watched_flows_are_summed(
    state: ProbeView,
    protocol: NetworkProtocol,
    family: AddressFamily,
    direction: NetworkDirection,
    payload: NetworkPayload,
)
    ensures
        state.fixture_ports.len() == 0 ==> watched(state.fixture_ports, payload) && after_payload(
            state,
            protocol,
            family,
            direction,
            payload,
        ).aggregates == state.aggregates,
        !watched(state.fixture_ports, payload) ==> after_payload(
            state,
            protocol,
            family,
            direction,
            payload,
        ).aggregates == state.aggregates,
{
}

/// The category of a probe's failure.
#[derive(Debug, Clone, Copy, PartialEq, Eq, Structural)]
pub enum EtwProbeErrorKind {
    /// The system denied access to kernel events.
    AccessDenied,
    /// A session of the fixed name is there already.
    SessionAlreadyExists,
    /// Any other failure.
    Other,
}

/// Why a trace did not start.
#[derive(Debug, Clone, Copy, PartialEq, Eq, Structural)]
pub enum TraceFailure {
    /// A call of the system failed; its code, where it gave one.
    Io(Option<i32>),
    /// A session of that name exists.
    AlreadyExists,
    /// Anything else.
    Other,
}

/// The category of a failed start.
pub open spec fn failure_kind(failure: TraceFailure) -> EtwProbeErrorKind {
    match failure {
        TraceFailure::Io(Some(code)) => if code == 5 || code as int + 0x1_0000_0000
            == HRESULT_ACCESS_DENIED {
            EtwProbeErrorKind::AccessDenied
        } else {
            EtwProbeErrorKind::Other
        },
        TraceFailure::Io(None) => EtwProbeErrorKind::Other,
        TraceFailure::AlreadyExists => EtwProbeErrorKind::SessionAlreadyExists,
        TraceFailure::Other => EtwProbeErrorKind::Other,
    }
}

/// A probe that did not start or stop.
#[derive(Debug, Clone, PartialEq, Eq)]
pub struct EtwProbeError {
    pub operation: &'static str,
    pub detail: String,
    pub kind: EtwProbeErrorKind,
}

impl EtwProbeError {
    /// A failure of no special category.
    pub fn new(operation: &'static str, detail: String) -> (error: EtwProbeError)
        ensures
            error.operation@ == operation@,
            error.detail@ == detail@,
            error.kind == EtwProbeErrorKind::Other,
    {
        EtwProbeError { operation, detail, kind: EtwProbeErrorKind::Other }
    }

    /// The failure of a trace, with its category.
    pub fn from_trace(operation: &'static str, failure: TraceFailure, detail: String) -> (error:
        EtwProbeError)
        ensures
            error.operation@ == operation@,
            error.detail@ == detail@,
            error.kind == failure_kind(failure),
    {
        let kind = match failure {
            TraceFailure::Io(Some(code)) => {
                if code == 5 || code as i64 + 0x1_0000_0000 == HRESULT_ACCESS_DENIED as i64 {
                    EtwProbeErrorKind::AccessDenied
                } else {
                    EtwProbeErrorKind::Other
                }
            },
            TraceFailure::Io(None) => EtwProbeErrorKind::Other,
            TraceFailure::AlreadyExists => EtwProbeErrorKind::SessionAlreadyExists,
            TraceFailure::Other => EtwProbeErrorKind::Other,
        };
        EtwProbeError { operation, detail, kind }
    }

    /// The category of the failure.
    pub fn kind(&self) -> (kind: EtwProbeErrorKind)
        ensures
            kind == self.kind,
    {
        self.kind
    }

    /// The failure in words.
    pub fn message(&self) -> (text: String)
        ensures
            text@ == "ETW "@ + self.operation@ + " failed: "@ + self.detail@,
    {
        let mut text = "ETW ".to_owned();
        text.append(self.operation);
        text.append(" failed: ");
        text.append(self.detail.as_str());
        text
    }
}

/// The statistics that a query just before the stop must have given.
pub fn require_statistics(query: Result<Option<NativeTraceStatistics>, u32>) -> (r: Result<
    NativeTraceStatistics,
    EtwProbeError,
>)
    ensures
        match (query, r) {
            (Ok(Some(statistics)), Ok(given)) => given == statistics,
            (Ok(None), Err(error)) => error.operation@ == "statistics query"@ && error.detail@
                == "Session disappeared before stop"@ && error.kind is Other,
            (Err(code), Err(error)) => error.operation@ == "statistics query"@ && error.detail@
                == "Win32 error "@ + text::decimal(code as nat) && error.kind is Other,
            _ => false,
        },
{
    match query {
        Ok(Some(statistics)) => Ok(statistics),
        Ok(None) => Err(
            EtwProbeError::new("statistics query", "Session disappeared before stop".to_owned()),
        ),
        Err(code) => {
            let mut detail = "Win32 error ".to_owned();
            text::put_number(&mut detail, code as u64);
            Err(EtwProbeError::new("statistics query", detail))
        },
    }
}

/// The longest a probe sleeps before it looks again whether it is to stop, in nanoseconds.
pub const PROBE_SLEEP_NANOS: u64 = 50_000_000;

/// How long a waiting probe sleeps next; none where it is to stop.
pub fn next_sleep(stop_requested: bool, cancelled: bool, remaining_nanos: u64) -> (sleep: Option<
    u64,
>)
    ensures
        sleep == (if stop_requested || cancelled || remaining_nanos == 0 {
            None
        } else if remaining_nanos < PROBE_SLEEP_NANOS {
            Some(remaining_nanos)
        } else {
            Some(PROBE_SLEEP_NANOS)
        }),
{
    if stop_requested || cancelled || remaining_nanos == 0 {
        None
    } else if remaining_nanos < PROBE_SLEEP_NANOS {
        Some(remaining_nanos)
    } else {
        Some(PROBE_SLEEP_NANOS)
    }
}

/// The events that are read: those of layout 2 whose code is 10 (a send) or 11 (a receive) in
/// version 4, 26 (a send) or 27 (a receive) in version 6, and no others.
pub proof fn law_codes_of_events(version: u8, opcode: u8)
    ensures
        direction_of(AddressFamily::V4, 2, 10) == Some(NetworkDirection::Send),
        direction_of(AddressFamily::V4, 2, 11) == Some(NetworkDirection::Receive),
        direction_of(AddressFamily::V6, 2, 26) == Some(NetworkDirection::Send),
        direction_of(AddressFamily::V6, 2, 27) == Some(NetworkDirection::Receive),
        opcode != 10 && opcode != 11 ==> direction_of(AddressFamily::V4, version, opcode) is None,
        opcode != 26 && opcode != 27 ==> direction_of(AddressFamily::V6, version, opcode) is None,
        version != 2 ==> direction_of(AddressFamily::V4, version, opcode) is None && direction_of(
            AddressFamily::V6,
            version,
            opcode,
        ) is None,
{
}

/// A port whose bytes stand most significant first is 256 times the first byte and the second.
pub proof fn law_ports_stand_most_significant_first(first: u8, second: u8, port: u16, raw: u16)
    requires
        raw == first + 256 * second,
        port == 256 * first + second,
    ensures
        swapped(raw) == port,
{
}

/// The event of a payload carries the process, size and addresses of the payload, with the ports
/// read, in the payload's direction.
pub proof fn law_event_tells_of_its_payload(
    raw: RawPayload,
    protocol: NetworkProtocol,
    direction: NetworkDirection,
    now: u64,
)
    ensures
        ({
            let event = event_of(payload_of(raw), protocol, direction, now);
            &&& event.timestamp_unix_nanos == now
            &&& event.pid == raw.pid
            &&& event.bytes == raw.size
            &&& event.source.ip == raw.source_address
            &&& event.destination.ip == raw.destination_address
            &&& swapped(event.source.port) == raw.source_port
            &&& swapped(event.destination.port) == raw.destination_port
            &&& event.protocol is Tcp == (protocol is Tcp)
            &&& event.direction is Send == (direction is Send)
        }),
{
    law_port_order_is_an_involution(raw.source_port);
    law_port_order_is_an_involution(raw.destination_port);
}

/// A payload with where it came from and where it went.
pub struct SeenPayload {
    pub protocol: NetworkProtocol,
    pub family: AddressFamily,
    pub direction: NetworkDirection,
    pub payload: NetworkPayload,
}

/// A state after a run of payloads.
pub open spec fn after_payloads(state: ProbeView, run: Seq<SeenPayload>) -> ProbeView
    decreases run.len(),
{
    if run.len() == 0 {
        state
    } else {
        let last = run.last();
        after_payload(
            after_payloads(state, run.drop_last()),
            last.protocol,
            last.family,
            last.direction,
            last.payload,
        )
    }
}

/// How many payloads of a run came from a provider and family and went one way.
pub open spec fn seen(
    run: Seq<SeenPayload>,
    protocol: NetworkProtocol,
    family: AddressFamily,
    direction: NetworkDirection,
) -> nat
    decreases run.len(),
{
    if run.len() == 0 {
        0
    } else {
        let last = run.last();
        seen(run.drop_last(), protocol, family, direction) + (if last.protocol == protocol
            && last.family == family && last.direction == direction {
            1nat
        } else {
            0nat
        })
    }
}

/// What the payloads of a run that belong to a flow and touch a watched port add up to: how many
/// they are, and their sizes.
pub open spec fn carried(run: Seq<SeenPayload>, ports: Seq<u16>, key: FlowKey) -> (nat, nat)
    decreases run.len(),
{
    if run.len() == 0 {
        (0, 0)
    } else {
        let last = run.last();
        let (events, bytes) = carried(run.drop_last(), ports, key);
        let touches = ports.contains(last.payload.source_port) || ports.contains(
            last.payload.destination_port,
        );
        if touches && key.pid == last.payload.pid && (key.protocol is Tcp) == (
        last.protocol is Tcp) && (key.direction is Send) == (last.direction is Send) && key.source
            == address::endpoint(last.payload.source_address, last.payload.source_port)
            && key.destination == address::endpoint(
            last.payload.destination_address,
            last.payload.destination_port,
        ) {
            (events + 1, bytes + last.payload.size as nat)
        } else {
            (events, bytes)
        }
    }
}

/// After a run of payloads a probe has counted, of each provider and family, the payloads that were
/// sent and those that were received, and summed the watched flows: a flow is listed where the run
/// has a watched payload of it, with how many they were and what they carried.
pub proof fn law_runs_are_counted(
    state: ProbeView,
    run: Seq<SeenPayload>,
    protocol: NetworkProtocol,
    family: AddressFamily,
    key: FlowKey,
)
    requires
        counts_of(state, protocol, family) == no_counts(),
        state.aggregates == Map::<FlowKey, (u64, u64)>::empty(),
        run.len() <= usize::MAX,
    ensures
        ({
            let after = after_payloads(state, run);
            let counts = counts_of(after, protocol, family);
            let (events, bytes) = carried(run, state.fixture_ports, key);
            &&& counts.sends == seen(run, protocol, family, NetworkDirection::Send)
            &&& counts.receives == seen(run, protocol, family, NetworkDirection::Receive)
            &&& counts.parsed == counts.sends + counts.receives
            &&& counts.payload_errors == 0
            &&& after.fixture_ports == state.fixture_ports
            &&& after.aggregates.dom().contains(key) <==> events > 0
            &&& events == 0 ==> bytes == 0
            &&& events > 0 ==> after.aggregates[key] == (
                model::saturated(events as int),
                model::saturated(bytes as int),
            )
        }),
    decreases run.len(),
{
    if run.len() > 0 {
        law_runs_are_counted(state, run.drop_last(), protocol, family, key);
        lemma_seen_bound(run.drop_last(), protocol, family);
        let last = run.last();
        let told = model::key_of(event_of(last.payload, last.protocol, last.direction, 0));
        if key.pid == last.payload.pid && (key.protocol is Tcp) == (last.protocol is Tcp) && (
        key.direction is Send) == (last.direction is Send) && key.source == address::endpoint(
            last.payload.source_address,
            last.payload.source_port,
        ) && key.destination == address::endpoint(
            last.payload.destination_address,
            last.payload.destination_port,
        ) {
            assert(key == told);
        } else {
            assert(key != told);
        }
    }
}

proof fn lemma_seen_bound(run: Seq<SeenPayload>, protocol: NetworkProtocol, family: AddressFamily)
    ensures
        seen(run, protocol, family, NetworkDirection::Send) + seen(
            run,
            protocol,
            family,
            NetworkDirection::Receive,
        ) <= run.len(),
    decreases run.len(),
{
    if run.len() > 0 {
        lemma_seen_bound(run.drop_last(), protocol, family);
    }
}

/// Counting one provider and family leaves the others as they are.
pub proof fn law_families_are_counted_apart(
    state: ProbeView,
    protocol: NetworkProtocol,
    family: AddressFamily,
    direction: NetworkDirection,
    payload: NetworkPayload,
    other: NetworkProtocol,
    another: AddressFamily,
)
    requires
        other != protocol || another != family,
    ensures
        counts_of(after_payload(state, protocol, family, direction, payload), other, another)
            == counts_of(state, other, another),
        counts_of(state, NetworkProtocol::Tcp, AddressFamily::V4) == state.tcp_ipv4,
        counts_of(state, NetworkProtocol::Tcp, AddressFamily::V6) == state.tcp_ipv6,
        counts_of(state, NetworkProtocol::Udp, AddressFamily::V4) == state.udp_ipv4,
        counts_of(state, NetworkProtocol::Udp, AddressFamily::V6) == state.udp_ipv6,
{
}

/// A failure is a denied access where the system's code is 5, alone or as its wide result code.
pub proof fn law_denied_access_is_told_apart(code: i32)
    ensures
        (failure_kind(TraceFailure::Io(Some(code))) is AccessDenied) == (code == 5 || code
            == -2147024891),
        failure_kind(TraceFailure::AlreadyExists) is SessionAlreadyExists,
        failure_kind(TraceFailure::Io(None)) is Other,
        failure_kind(TraceFailure::Other) is Other,
{
}

} // verus!
