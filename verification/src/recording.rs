//! What is stored of a snapshot while a session is recorded.
use crate::address;
use crate::model;
use crate::model::TransportProtocol;
use crate::ordered;
use crate::ordered::SortedMap;
use crate::risk::{ProcessRiskObservation, RiskLevel, RiskObservation, RiskSignal, Sighting};
use crate::session::{
    AlertKind, AlertRecord, AlertRecordView, EndpointSummary, EndpointView, ProcessSessionSummary,
    ProcessSummaryView, SessionBucket, SessionId,
};
use crate::snapshot::{ApplicationSnapshot, ConnectionDetailSnapshot, ProcessTrafficSnapshot};
use crate::text;
use vstd::prelude::*;

verus! {

/// A risk event that the user is shown, whether or not a session is recorded.
#[derive(Debug, PartialEq, Eq)]
pub struct LiveRiskEvent {
    pub id: u64,
    pub occurred_at_unix_nanos: u64,
    pub level: RiskLevel,
    pub score: u32,
    pub title: String,
    pub detail: String,
    pub process_name: String,
    pub remote_address: Option<String>,
}

impl Clone for LiveRiskEvent {
    fn clone(&self) -> (copy: Self)
        ensures
            copy == *self,
    {
        LiveRiskEvent {
            id: self.id,
            occurred_at_unix_nanos: self.occurred_at_unix_nanos,
            level: self.level,
            score: self.score,
            title: self.title.clone(),
            detail: self.detail.clone(),
            process_name: self.process_name.clone(),
            remote_address: text::copy_optional(&self.remote_address),
        }
    }
}

/// The event of a signal.
pub open spec fn event_of(signal: RiskSignal, id: u64, timestamp: u64) -> LiveRiskEvent {
    LiveRiskEvent {
        id,
        occurred_at_unix_nanos: timestamp,
        level: signal.level,
        score: signal.score,
        title: signal.title,
        detail: signal.detail,
        process_name: signal.process_name,
        remote_address: signal.remote_address,
    }
}

/// The events of signals: they are numbered on from the last number, the largest number being
/// given again once it is reached.
pub open spec fn events_of(signals: Seq<RiskSignal>, last_id: u64, timestamp: u64) -> Seq<
    LiveRiskEvent,
> {
    Seq::new(
        signals.len(),
        |i: int| event_of(signals[i], model::saturated(last_id + i + 1), timestamp),
    )
}

/// The events of signals.
pub fn live_events(signals: &[RiskSignal], last_id: u64, timestamp: u64) -> (r: (
    Vec<LiveRiskEvent>,
    u64,
))
    ensures
        r.0@ == events_of(signals@, last_id, timestamp),
        r.1 == model::saturated(last_id + signals@.len()),
{
    let mut events: Vec<LiveRiskEvent> = Vec::new();
    let mut id: u64 = last_id;
    for i in 0..signals.len()
        invariant
            events@ == events_of(signals@, last_id, timestamp).take(i as int),
            id == model::saturated(last_id + i),
    {
        let signal = &signals[i];
        id = id.saturating_add(1);
        events.push(
            LiveRiskEvent {
                id,
                occurred_at_unix_nanos: timestamp,
                level: signal.level,
                score: signal.score,
                title: signal.title.clone(),
                detail: signal.detail.clone(),
                process_name: signal.process_name.clone(),
                remote_address: text::copy_optional(&signal.remote_address),
            },
        );
    }
    (events, id)
}

/// How many risk events the user is shown.
pub const MAX_LIVE_RISK_EVENTS: usize = 200;

/// The newest events, as many as are shown.
pub open spec fn newest_events(events: Seq<LiveRiskEvent>) -> Seq<LiveRiskEvent> {
    if events.len() > MAX_LIVE_RISK_EVENTS {
        events.skip(events.len() - MAX_LIVE_RISK_EVENTS)
    } else {
        events
    }
}

/// Adds events to those that are shown.
pub fn show_events(shown: &mut Vec<LiveRiskEvent>, events: &[LiveRiskEvent])
    ensures
        final(shown)@ == newest_events(old(shown)@ + events@),
        final(shown)@.len() <= MAX_LIVE_RISK_EVENTS,
{
    let ghost all = shown@ + events@;
    assert(all.take(shown@.len() as int) =~= shown@);
    while shown.len() > MAX_LIVE_RISK_EVENTS
        invariant
            newest_events(shown@) == newest_events(old(shown)@),
        decreases shown@.len(),
    {
        let ghost before = shown@;
        let _ = shown.remove(0);
        assert(newest_events(shown@) =~= newest_events(before));
    }
    for i in 0..events.len()
        invariant
            shown@.len() <= MAX_LIVE_RISK_EVENTS,
            all == old(shown)@ + events@,
            shown@ == newest_events(all.take(old(shown)@.len() + i)),
    {
        let ghost before = shown@;
        let ghost seen = all.take(old(shown)@.len() + i);
        let ghost longer = all.take(old(shown)@.len() + i + 1);
        assert(longer =~= seen.push(events@[i as int]));
        if shown.len() == MAX_LIVE_RISK_EVENTS {
            let _ = shown.remove(0);
        }
        shown.push(events[i].clone());
        assert(shown@ =~= newest_events(longer));
    }
    assert(all.take(all.len() as int) =~= all);
}

/// What is known of a process for a session.
#[verifier::ext_equal]
pub struct Metadata {
    pub started_at: u64,
    pub name: Option<Seq<char>>,
    pub image_path: Option<Seq<char>>,
}

/// A session that may be recorded, as a value.
#[verifier::ext_equal]
pub struct ActiveView {
    pub id: Option<SessionId>,
    pub last_bucket: Option<u64>,
    pub last_events: u64,
    pub baselines: Map<(u32, u64), (u64, u64)>,
    pub metadata: Map<u32, Metadata>,
    pub next_alert_id: i64,
    pub automatic: bool,
    pub automatic_stop_at: Option<u64>,
}

struct SessionProcessMetadata {
    started_at_unix_nanos: u64,
    name: Option<String>,
    image_path: Option<String>,
}

impl View for SessionProcessMetadata {
    type V = Metadata;

    closed spec fn view(&self) -> Metadata {
        Metadata {
            started_at: self.started_at_unix_nanos,
            name: text::optional(self.name),
            image_path: text::optional(self.image_path),
        }
    }
}

/// A session that may be recorded.
pub struct ActiveSession {
    id: Option<SessionId>,
    last_bucket: Option<u64>,
    last_events: u64,
    baselines: SortedMap<(u32, u64), (u64, u64)>,
    process_metadata: SortedMap<u32, SessionProcessMetadata>,
    next_alert_id: i64,
    automatic: bool,
    automatic_stop_at: Option<u64>,
}

impl View for ActiveSession {
    type V = ActiveView;

    closed spec fn view(&self) -> ActiveView {
        ActiveView {
            id: self.id,
            last_bucket: self.last_bucket,
            last_events: self.last_events,
            baselines: self.baselines@,
            metadata: self.process_metadata@.map_values(|m: SessionProcessMetadata| m@),
            next_alert_id: self.next_alert_id,
            automatic: self.automatic,
            automatic_stop_at: self.automatic_stop_at,
        }
    }
}

/// No session.
pub open spec fn no_session() -> ActiveView {
    ActiveView {
        id: None,
        last_bucket: None,
        last_events: 0,
        baselines: Map::empty(),
        metadata: Map::empty(),
        next_alert_id: 0,
        automatic: false,
        automatic_stop_at: None,
    }
}

/// A timestamp as the number that alerts are numbered from.
pub open spec fn first_alert_number(timestamp: u64) -> i64 {
    if timestamp > i64::MAX {
        i64::MAX
    } else {
        timestamp as i64
    }
}

/// A number further on, held at the largest.
pub open spec fn alert_number(number: i64, steps: int) -> i64 {
    if number + steps > i64::MAX {
        i64::MAX
    } else {
        (number + steps) as i64
    }
}

impl ActiveView {
    /// The session that starts.
    pub open spec fn started(self, id: SessionId, timestamp: u64) -> ActiveView {
        ActiveView {
            id: Some(id),
            last_bucket: None,
            last_events: 0,
            baselines: Map::empty(),
            metadata: Map::empty(),
            next_alert_id: first_alert_number(timestamp),
            automatic: false,
            automatic_stop_at: None,
        }
    }

    /// What is left once the session has been stopped.
    pub open spec fn stopped(self) -> ActiveView {
        ActiveView {
            id: None,
            last_bucket: None,
            baselines: Map::empty(),
            metadata: Map::empty(),
            automatic: false,
            automatic_stop_at: None,
            ..self
        }
    }

    /// What is known of a process.
    pub open spec fn known(self, pid: u32) -> Metadata {
        if self.metadata.dom().contains(pid) {
            self.metadata[pid]
        } else {
            Metadata { started_at: 0, name: None, image_path: None }
        }
    }

    /// What is known of a process once its row has been seen. A process that has started anew keeps
    /// neither name nor image of the one before.
    pub open spec fn learned(self, row: ProcessTrafficSnapshot) -> Metadata {
        let known = self.known(row.pid);
        let renewed = row.process_key is Some && known.started_at != 0 && known.started_at
            != row.process_key->0.started_at_unix_nanos;
        Metadata {
            started_at: match row.process_key {
                Some(key) => key.started_at_unix_nanos,
                None => known.started_at,
            },
            name: match row.name {
                Some(name) => Some(name@),
                None => if renewed {
                    None
                } else {
                    known.name
                },
            },
            image_path: match row.image_path {
                Some(path) => Some(path@),
                None => if renewed {
                    None
                } else {
                    known.image_path
                },
            },
        }
    }

    /// The totals from which a process is counted: those that it had when it was first seen.
    pub open spec fn baseline(self, row: ProcessTrafficSnapshot) -> (u64, u64) {
        let key = (row.pid, self.learned(row).started_at);
        if self.baselines.dom().contains(key) {
            self.baselines[key]
        } else {
            (row.send_bytes_total, row.receive_bytes_total)
        }
    }

    /// What is stored of a row.
    pub open spec fn summary(self, row: ProcessTrafficSnapshot) -> ProcessSummaryView {
        let learned = self.learned(row);
        ProcessSummaryView {
            pid: row.pid,
            started_at: learned.started_at,
            name: match learned.name {
                Some(name) => name,
                None => "PID "@ + text::decimal(row.pid as nat),
            },
            image_path: learned.image_path,
            send_bytes: less(row.send_bytes_total, self.baseline(row).0),
            receive_bytes: less(row.receive_bytes_total, self.baseline(row).1),
            connection_count: row.connection_count as u64,
        }
    }

    /// The session once a row has been seen.
    pub open spec fn with_row(self, row: ProcessTrafficSnapshot) -> ActiveView {
        ActiveView {
            metadata: self.metadata.insert(row.pid, self.learned(row)),
            baselines: self.baselines.insert(
                (row.pid, self.learned(row).started_at),
                self.baseline(row),
            ),
            ..self
        }
    }

    /// The session once rows have been seen.
    pub open spec fn with_rows(self, rows: Seq<ProcessTrafficSnapshot>) -> ActiveView
        decreases rows.len(),
    {
        if rows.len() == 0 {
            self
        } else {
            self.with_rows(rows.drop_last()).with_row(rows.last())
        }
    }

    /// What is stored of rows.
    pub open spec fn summaries(self, rows: Seq<ProcessTrafficSnapshot>) -> Seq<ProcessSummaryView>
        decreases rows.len(),
    {
        if rows.len() == 0 {
            Seq::empty()
        } else {
            self.summaries(rows.drop_last()).push(
                self.with_rows(rows.drop_last()).summary(rows.last()),
            )
        }
    }

    /// Whether there is something to store of a snapshot: a session is recorded, and nothing of
    /// this second or a later one has been stored.
    pub open spec fn takes(self, snapshot: ApplicationSnapshot) -> bool {
        &&& self.id is Some
        &&& match self.last_bucket {
            Some(last) => second_of(snapshot) > last,
            None => true,
        }
    }

    /// The session once a snapshot and its events have been taken in.
    pub open spec fn with_snapshot(
        self,
        snapshot: ApplicationSnapshot,
        events: Seq<LiveRiskEvent>,
    ) -> ActiveView {
        ActiveView {
            last_bucket: Some(second_of(snapshot)),
            last_events: snapshot.events_processed,
            next_alert_id: alert_number(self.next_alert_id, events.len() as int),
            ..self.with_rows(snapshot.process_traffic@)
        }
    }

    /// What is stored of a snapshot and its events.
    pub open spec fn batch(
        self,
        snapshot: ApplicationSnapshot,
        events: Seq<LiveRiskEvent>,
    ) -> BatchView {
        BatchView {
            id: self.id->0,
            bucket: SessionBucket {
                start_unix_nanos: second_of(snapshot),
                send_bytes: snapshot.network_rate.send_bytes_per_second,
                receive_bytes: snapshot.network_rate.receive_bytes_per_second,
                event_count: less(snapshot.events_processed, self.last_events),
            },
            processes: self.summaries(snapshot.process_traffic@),
            endpoints: endpoints_of(snapshot.connection_details@, second_of(snapshot)),
            alerts: Seq::new(
                events.len(),
                |i: int|
                    alert_of(events[i], self.id->0, alert_number(self.next_alert_id, i + 1)),
            ),
        }
    }
}

/// Whether a recording that a risk started is over.
pub open spec fn over(active: ActiveView, timestamp: u64) -> bool {
    active.automatic && match active.automatic_stop_at {
        Some(stop_at) => timestamp >= stop_at,
        None => false,
    }
}

/// A difference, held at zero.
pub open spec fn less(a: u64, b: u64) -> u64 {
    if a < b {
        0
    } else {
        (a - b) as u64
    }
}

/// The start of the second at which a snapshot was sampled.
pub open spec fn second_of(snapshot: ApplicationSnapshot) -> u64 {
    model::bucket_start(snapshot.network_rate.sampled_at_unix_nanos, 1_000_000_000)
}

/// What is stored of a risk event.
pub open spec fn alert_of(event: LiveRiskEvent, session: SessionId, id: i64) -> AlertRecordView {
    AlertRecordView {
        id,
        session_id: session,
        occurred_at: event.occurred_at_unix_nanos,
        kind: AlertKind::RiskEvent,
        title: event.title@,
        detail: "风险分数 "@ + text::decimal(event.score as nat) + " · "@ + event.detail@,
        process_name: Some(event.process_name@),
        remote_address: text::optional(event.remote_address),
    }
}

/// The name of a protocol in what is stored.
pub open spec fn protocol_name(protocol: TransportProtocol) -> Seq<char> {
    match protocol {
        TransportProtocol::Tcp => "TCP"@,
        TransportProtocol::Udp => "UDP"@,
    }
}

/// Under which protocol, remote address and process a connection is counted, if it has a remote
/// end.
pub open spec fn endpoint_key(detail: ConnectionDetailSnapshot) -> Option<
    ((Seq<char>, Seq<char>), Seq<char>),
> {
    match detail.connection.remote {
        Some(remote) => Some(
            (
                (protocol_name(detail.connection.protocol), address::socket_text(remote)),
                match detail.process_name {
                    Some(name) => name@,
                    None => "PID "@ + text::decimal(detail.connection.pid as nat),
                },
            ),
        ),
        None => None,
    }
}

/// How many connections are counted under a key.
pub open spec fn endpoint_count(
    details: Seq<ConnectionDetailSnapshot>,
    key: ((Seq<char>, Seq<char>), Seq<char>),
) -> nat
    decreases details.len(),
{
    if details.len() == 0 {
        0
    } else {
        endpoint_count(details.drop_last(), key) + if endpoint_key(details.last()) == Some(key) {
            1nat
        } else {
            0nat
        }
    }
}

/// The keys under which connections are counted.
pub open spec fn endpoint_keys(details: Seq<ConnectionDetailSnapshot>) -> Set<
    ((Seq<char>, Seq<char>), Seq<char>),
> {
    Set::new(|key: ((Seq<char>, Seq<char>), Seq<char>)| endpoint_count(details, key) > 0)
}

/// What is stored of connections at a time: each endpoint once with its count, in the order of
/// protocol, address and process.
pub open spec fn endpoints_of(details: Seq<ConnectionDetailSnapshot>, start: u64) -> Seq<
    EndpointView,
> {
    ordered::ordered_list::<((String, String), String)>(endpoint_keys(details)).map_values(
        |key: ((Seq<char>, Seq<char>), Seq<char>)|
            EndpointView {
                protocol: key.0.0,
                remote_address: key.0.1,
                process_name: key.1,
                first_seen: start,
                last_seen: start,
                connection_count: endpoint_count(details, key) as u64,
            },
    )
}

/// What is stored of a snapshot, as a value.
#[verifier::ext_equal]
pub struct BatchView {
    pub id: SessionId,
    pub bucket: SessionBucket,
    pub processes: Seq<ProcessSummaryView>,
    pub endpoints: Seq<EndpointView>,
    pub alerts: Seq<AlertRecordView>,
}

/// What is stored of a snapshot.
#[derive(Debug, PartialEq, Eq)]
pub struct Batch {
    pub id: SessionId,
    pub bucket: SessionBucket,
    pub processes: Vec<ProcessSessionSummary>,
    pub endpoints: Vec<EndpointSummary>,
    pub alerts: Vec<AlertRecord>,
}

/// The processes of a batch as values.
pub open spec fn process_views(processes: Seq<ProcessSessionSummary>) -> Seq<ProcessSummaryView> {
    Seq::new(processes.len(), |i: int| processes[i]@)
}

/// The endpoints of a batch as values.
pub open spec fn endpoint_views(endpoints: Seq<EndpointSummary>) -> Seq<EndpointView> {
    Seq::new(endpoints.len(), |i: int| endpoints[i]@)
}

/// The alerts of a batch as values.
pub open spec fn alert_record_views(alerts: Seq<AlertRecord>) -> Seq<AlertRecordView> {
    Seq::new(alerts.len(), |i: int| alerts[i]@)
}

impl View for Batch {
    type V = BatchView;

    open spec fn view(&self) -> BatchView {
        BatchView {
            id: self.id,
            bucket: self.bucket,
            processes: process_views(self.processes@),
            endpoints: endpoint_views(self.endpoints@),
            alerts: alert_record_views(self.alerts@),
        }
    }
}

fn pid_text(pid: u32) -> (text: String)
    ensures
        text@ == "PID "@ + text::decimal(pid as nat),
{
    let mut text = "PID ".to_owned();
    text.append(text::decimal_text(pid as u64).as_str());
    text
}

/// What is stored of connections.
fn summarize_endpoints(details: &Vec<ConnectionDetailSnapshot>, start: u64) -> (endpoints: Vec<
    EndpointSummary,
>)
    ensures
        endpoint_views(endpoints@) == endpoints_of(details@, start),
{
    let mut counts: SortedMap<((String, String), String), u64> = SortedMap::new();
    for i in 0..details.len()
        invariant
            counts.well_formed(),
            forall|key: ((Seq<char>, Seq<char>), Seq<char>)| #[trigger]
                counts@.dom().contains(key) <==> endpoint_count(details@.take(i as int), key) > 0,
            forall|key: ((Seq<char>, Seq<char>), Seq<char>)| #[trigger]
                counts@.dom().contains(key) ==> counts@[key] == endpoint_count(
                    details@.take(i as int),
                    key,
                ) && counts@[key] <= i,
    {
        let detail = &details[i];
        let ghost shown = details@.take(i as int);
        let ghost longer = details@.take(i + 1);
        let ghost before = counts@;
        assert(longer.drop_last() =~= shown);
        if let Some(remote) = detail.connection.remote {
            let protocol = match detail.connection.protocol {
                TransportProtocol::Tcp => "TCP",
                TransportProtocol::Udp => "UDP",
            };
            let process = match &detail.process_name {
                Some(name) => name.clone(),
                None => pid_text(detail.connection.pid),
            };
            let key = ((protocol.to_owned(), remote.text()), process);
            assert(endpoint_key(*detail) == Some(key@));
            let ghost named = key@;
            assert(before.dom().contains(named) <==> endpoint_count(shown, named) > 0);
            let count = counts.entry(key, 0);
            *count = *count + 1;
            assert(counts@ =~= before.insert(
                named,
                (endpoint_count(shown, named) + 1) as u64,
            ));
        }
        proof {
            assert forall|key: ((Seq<char>, Seq<char>), Seq<char>)|
                #![trigger counts@.dom().contains(key)]
                (counts@.dom().contains(key) <==> endpoint_count(longer, key) > 0) && (
                counts@.dom().contains(key) ==> counts@[key] == endpoint_count(longer, key)
                    && counts@[key] <= i + 1) by {
                assert(before.dom().contains(key) <==> endpoint_count(shown, key) > 0);
            }
        }
    }
    assert(details@.take(details@.len() as int) =~= details@);
    let entries = counts.entries();
    let ghost keys = ordered::keys_of(entries@);
    proof {
        ordered::lemma_keys_in_order(entries@);
        assert(counts@.dom() =~= endpoint_keys(details@));
    }
    let mut endpoints: Vec<EndpointSummary> = Vec::new();
    for i in 0..entries.len()
        invariant
            entries@ == counts.listing(),
            counts.well_formed(),
            keys == ordered::keys_of(entries@),
            ordered::ordered_list::<((String, String), String)>(endpoint_keys(details@)) == keys,
            forall|key: ((Seq<char>, Seq<char>), Seq<char>)| #[trigger]
                counts@.dom().contains(key) ==> counts@[key] == endpoint_count(details@, key),
            endpoint_views(endpoints@) == endpoints_of(details@, start).take(i as int),
    {
        let entry = &entries[i];
        proof {
            ordered::lemma_entry_in_map(entries@, i as int);
            assert(keys[i as int] == entry.0@);
        }
        let ghost before = endpoints@;
        let endpoint = EndpointSummary {
            protocol: entry.0.0.0.clone(),
            remote_address: entry.0.0.1.clone(),
            process_name: entry.0.1.clone(),
            first_seen_unix_nanos: start,
            last_seen_unix_nanos: start,
            connection_count: entry.1,
        };
        endpoints.push(endpoint);
        proof {
            assert(counts@.dom().contains(entry.0@));
            assert(endpoint@ == endpoints_of(details@, start)[i as int]);
            assert(endpoint_views(endpoints@) =~= endpoint_views(before).push(endpoint@));
            assert(endpoint_views(endpoints@) =~= endpoints_of(details@, start).take(i + 1));
        }
    }
    assert(endpoints_of(details@, start).take(entries@.len() as int) =~= endpoints_of(
        details@,
        start,
    ));
    endpoints
}

impl ActiveSession {
    /// What is known is kept once.
    pub closed spec fn well_formed(&self) -> bool {
        &&& self.baselines.well_formed()
        &&& self.process_metadata.well_formed()
    }

    /// No session.
    pub fn new() -> (active: ActiveSession)
        ensures
            active.well_formed(),
            active@ == no_session(),
    {
        let active = ActiveSession {
            id: None,
            last_bucket: None,
            last_events: 0,
            baselines: SortedMap::new(),
            process_metadata: SortedMap::new(),
            next_alert_id: 0,
            automatic: false,
            automatic_stop_at: None,
        };
        assert(active@.metadata =~= Map::empty());
        active
    }

    /// The identity of the session.
    pub fn id(&self) -> (id: Option<SessionId>)
        ensures
            id == self@.id,
    {
        self.id
    }

    /// Whether a recording that a risk started is over.
    pub fn is_over(&self, timestamp: u64) -> (r: bool)
        ensures
            r == over(self@, timestamp),
    {
        self.automatic && match self.automatic_stop_at {
            Some(stop_at) => timestamp >= stop_at,
            None => false,
        }
    }

    /// Whether a risk started the recording.
    pub fn is_automatic(&self) -> (r: bool)
        ensures
            r == self@.automatic,
    {
        self.automatic
    }

    /// Starts a session.
    pub fn begin(&mut self, id: SessionId, timestamp: u64)
        requires
            old(self).well_formed(),
        ensures
            final(self).well_formed(),
            final(self)@ == old(self)@.started(id, timestamp),
    {
        self.id = Some(id);
        self.last_bucket = None;
        self.last_events = 0;
        self.baselines = SortedMap::new();
        self.process_metadata = SortedMap::new();
        self.next_alert_id =
        if timestamp > i64::MAX as u64 {
            i64::MAX
        } else {
            timestamp as i64
        };
        self.automatic = false;
        self.automatic_stop_at = None;
        assert(self@.metadata =~= Map::empty());
    }

    /// Forgets what belongs to a session that has been stopped.
    pub fn finish(&mut self)
        requires
            old(self).well_formed(),
        ensures
            final(self).well_formed(),
            final(self)@ == old(self)@.stopped(),
    {
        self.id = None;
        self.last_bucket = None;
        self.baselines = SortedMap::new();
        self.process_metadata = SortedMap::new();
        self.automatic = false;
        self.automatic_stop_at = None;
        assert(self@.metadata =~= Map::empty());
    }

    /// Gives up the session without more ado: its identity.
    pub fn release(&mut self) -> (id: Option<SessionId>)
        requires
            old(self).well_formed(),
        ensures
            final(self).well_formed(),
            id == old(self)@.id,
            final(self)@ == (ActiveView { id: None, ..old(self)@ }),
    {
        let id = self.id;
        self.id = None;
        id
    }

    /// Marks the session as one that was started by the detection of a risk, with the time at
    /// which it is to stop, and the events that had been processed at its start.
    pub fn mark_automatic(&mut self, stop_at: u64, processed: Option<u64>)
        requires
            old(self).well_formed(),
        ensures
            final(self).well_formed(),
            final(self)@ == (ActiveView {
                automatic: true,
                automatic_stop_at: Some(stop_at),
                last_events: match processed {
                    Some(n) => n,
                    None => old(self)@.last_events,
                },
                ..old(self)@
            }),
    {
        self.automatic = true;
        self.automatic_stop_at = Some(stop_at);
        if let Some(n) = processed {
            self.last_events = n;
        }
    }

    /// Puts off the time at which the session is to stop.
    pub fn postpone(&mut self, stop_at: u64)
        requires
            old(self).well_formed(),
        ensures
            final(self).well_formed(),
            final(self)@ == (ActiveView { automatic_stop_at: Some(stop_at), ..old(self)@ }),
    {
        self.automatic_stop_at = Some(stop_at);
    }

    /// Takes in a row.
    fn summarize(&mut self, row: &ProcessTrafficSnapshot) -> (summary: ProcessSessionSummary)
        requires
            old(self).well_formed(),
        ensures
            final(self).well_formed(),
            final(self)@ == old(self)@.with_row(*row),
            summary@ == old(self)@.summary(*row),
    {
        let ghost before = self@;
        let fresh = SessionProcessMetadata {
            started_at_unix_nanos: 0,
            name: None,
            image_path: None,
        };
        let metadata = self.process_metadata.entry(row.pid, fresh);
        assert(metadata@ == before.known(row.pid));
        if let Some(key) = row.process_key {
            if metadata.started_at_unix_nanos != 0 && metadata.started_at_unix_nanos
                != key.started_at_unix_nanos {
                metadata.name = None;
                metadata.image_path = None;
            }
            metadata.started_at_unix_nanos = key.started_at_unix_nanos;
        }
        if let Some(name) = &row.name {
            metadata.name = Some(name.clone());
        }
        if let Some(path) = &row.image_path {
            metadata.image_path = Some(path.clone());
        }
        assert(metadata@ =~= before.learned(*row));
        let started: u64 = metadata.started_at_unix_nanos;
        let name = match &metadata.name {
            Some(name) => name.clone(),
            None => pid_text(row.pid),
        };
        let image_path = text::copy_optional(&metadata.image_path);
        let baseline = self.baselines.entry(
            (row.pid, started),
            (row.send_bytes_total, row.receive_bytes_total),
        );
        let summary = ProcessSessionSummary {
            pid: row.pid,
            started_at_unix_nanos: started,
            name,
            image_path,
            send_bytes: row.send_bytes_total.saturating_sub(baseline.0),
            receive_bytes: row.receive_bytes_total.saturating_sub(baseline.1),
            connection_count: row.connection_count as u64,
        };
        proof {
            assert((row.pid, started)@ == (row.pid, started));
            assert(self@.metadata =~= before.with_row(*row).metadata);
        }
        summary
    }

    /// Takes in a snapshot and its events: what is to be stored, if anything.
    pub fn take_in(
        &mut self,
        snapshot: &ApplicationSnapshot,
        events: &[LiveRiskEvent],
    ) -> (batch: Option<
        Batch,
    >)
        requires
            old(self).well_formed(),
        ensures
            final(self).well_formed(),
            match batch {
                Some(batch) => {
                    &&& old(self)@.takes(*snapshot)
                    &&& batch@ == old(self)@.batch(*snapshot, events@)
                    &&& final(self)@ == old(self)@.with_snapshot(*snapshot, events@)
                },
                None => !old(self)@.takes(*snapshot) && final(self)@ == old(self)@,
            },
    {
        let id = match self.id {
            Some(id) => id,
            None => {
                return None;
            },
        };
        let start: u64 = model::start_of_bucket(
            snapshot.network_rate.sampled_at_unix_nanos,
            1_000_000_000,
        );
        if let Some(last) = self.last_bucket {
            if start <= last {
                return None;
            }
        }
        let ghost before = self@;
        let bucket = SessionBucket {
            start_unix_nanos: start,
            send_bytes: snapshot.network_rate.send_bytes_per_second,
            receive_bytes: snapshot.network_rate.receive_bytes_per_second,
            event_count: snapshot.events_processed.saturating_sub(self.last_events),
        };
        let rows = &snapshot.process_traffic;
        let mut processes: Vec<ProcessSessionSummary> = Vec::new();
        assert(process_views(processes@) =~= before.summaries(rows@.take(0)));
        for i in 0..rows.len()
            invariant
                self.well_formed(),
                rows@ == snapshot.process_traffic@,
                self@ == before.with_rows(rows@.take(i as int)),
                process_views(processes@) == before.summaries(rows@.take(i as int)),
        {
            let ghost earlier = processes@;
            assert(rows@.take(i + 1).drop_last() =~= rows@.take(i as int));
            let summary = self.summarize(&rows[i]);
            processes.push(summary);
            assert(process_views(processes@) =~= process_views(earlier).push(summary@));
        }
        assert(rows@.take(rows@.len() as int) =~= rows@);
        proof {
            lemma_rows_keep(before, rows@);
        }
        let endpoints = summarize_endpoints(&snapshot.connection_details, start);
        let mut alerts: Vec<AlertRecord> = Vec::new();
        let mut number: i64 = self.next_alert_id;
        let ghost expected = before.batch(*snapshot, events@).alerts;
        assert(alert_record_views(alerts@) =~= expected.take(0));
        for i in 0..events.len()
            invariant
                number == alert_number(before.next_alert_id, i as int),
                before.id == Some(id),
                expected == before.batch(*snapshot, events@).alerts,
                alert_record_views(alerts@) == expected.take(i as int),
        {
            let event = &events[i];
            let ghost earlier = alerts@;
            if number < i64::MAX {
                number = number + 1;
            }
            let mut detail = "风险分数 ".to_owned();
            detail.append(text::decimal_text(event.score as u64).as_str());
            detail.append(" · ");
            detail.append(event.detail.as_str());
            let alert = AlertRecord {
                id: number,
                session_id: id,
                occurred_at_unix_nanos: event.occurred_at_unix_nanos,
                kind: AlertKind::RiskEvent,
                title: event.title.clone(),
                detail,
                process_name: Some(event.process_name.clone()),
                remote_address: text::copy_optional(&event.remote_address),
            };
            alerts.push(alert);
            proof {
                assert(alert@ == expected[i as int]);
                assert(alert_record_views(alerts@) =~= alert_record_views(earlier).push(alert@));
                assert(alert_record_views(alerts@) =~= expected.take(i + 1));
            }
        }
        assert(expected.take(events@.len() as int) =~= expected);
        self.last_bucket = Some(start);
        self.last_events = snapshot.events_processed;
        self.next_alert_id = number;
        Some(Batch { id, bucket, processes, endpoints, alerts })
    }
}

/// Taking in rows changes nothing but what is known of processes.
proof fn lemma_rows_keep(active: ActiveView, rows: Seq<ProcessTrafficSnapshot>)
    ensures
        active.with_rows(rows) == (ActiveView {
            baselines: active.with_rows(rows).baselines,
            metadata: active.with_rows(rows).metadata,
            ..active
        }),
    decreases rows.len(),
{
    if rows.len() > 0 {
        lemma_rows_keep(active, rows.drop_last());
    }
}

/// The remote addresses of a process number.
pub open spec fn remotes(details: Seq<ConnectionDetailSnapshot>, pid: u32) -> Set<Seq<char>> {
    Set::new(
        |remote: Seq<char>|
            exists|i: int|
                0 <= i < details.len() && (#[trigger] details[i]).connection.pid == pid
                    && details[i].connection.remote is Some && address::socket_text(
                    details[i].connection.remote->0,
                ) == remote,
    )
}

/// Whether a process number stands in an earlier row.
pub open spec fn stands_before(rows: Seq<ProcessTrafficSnapshot>, i: int) -> bool {
    exists|j: int| 0 <= j < i && (#[trigger] rows[j]).pid == rows[i].pid
}

/// What the risk evaluator sees of a row. The remote addresses of a process number belong to the
/// first row that has it.
pub open spec fn sighting_of(
    rows: Seq<ProcessTrafficSnapshot>,
    details: Seq<ConnectionDetailSnapshot>,
    i: int,
) -> Sighting {
    let row = rows[i];
    Sighting {
        identity: text::decimal(row.pid as nat) + ":"@ + text::decimal(
            match row.process_key {
                Some(key) => key.started_at_unix_nanos as nat,
                None => 0,
            },
        ),
        name: match row.name {
            Some(name) => name@,
            None => "PID "@ + text::decimal(row.pid as nat),
        },
        sending: row.send_bytes_per_second,
        receiving: row.receive_bytes_per_second,
        remotes: if stands_before(rows, i) {
            Seq::empty()
        } else {
            ordered::ordered_list::<String>(remotes(details, row.pid))
        },
    }
}

/// The remote addresses of a process number, each once, in order.
fn collect_remotes(details: &Vec<ConnectionDetailSnapshot>, pid: u32) -> (list: Vec<String>)
    ensures
        text::texts(list@) == ordered::ordered_list::<String>(remotes(details@, pid)),
{
    let mut found: SortedMap<String, ()> = SortedMap::new();
    for i in 0..details.len()
        invariant
            found.well_formed(),
            forall|remote: Seq<char>| #[trigger]
                found@.dom().contains(remote) <==> exists|k: int|
                    0 <= k < i && (#[trigger] details@[k]).connection.pid == pid
                        && details@[k].connection.remote is Some && address::socket_text(
                        details@[k].connection.remote->0,
                    ) == remote,
    {
        if details[i].connection.pid == pid {
            if let Some(remote) = details[i].connection.remote {
                found.insert(remote.text(), ());
            }
        }
    }
    assert(found@.dom() =~= remotes(details@, pid));
    let entries = found.entries();
    proof {
        ordered::lemma_keys_in_order(entries@);
    }
    let mut list: Vec<String> = Vec::new();
    for i in 0..entries.len()
        invariant
            list@.len() == i,
            forall|k: int| 0 <= k < i ==> #[trigger] list@[k] == entries@[k].0,
    {
        list.push(entries[i].0.clone());
    }
    assert(text::texts(list@) =~= ordered::keys_of(entries@));
    list
}

/// What the risk evaluator sees of a snapshot.
pub fn risk_observation(snapshot: &ApplicationSnapshot) -> (observation: RiskObservation)
    ensures
        observation.timestamp_unix_nanos == snapshot.network_rate.sampled_at_unix_nanos,
        observation.processes@.len() == snapshot.process_traffic@.len(),
        forall|i: int|
            0 <= i < observation.processes@.len() ==> (#[trigger] observation.processes@[i])@
                == sighting_of(snapshot.process_traffic@, snapshot.connection_details@, i),
{
    let rows = &snapshot.process_traffic;
    let mut seen: SortedMap<u32, ()> = SortedMap::new();
    let mut processes: Vec<ProcessRiskObservation> = Vec::new();
    for i in 0..rows.len()
        invariant
            rows@ == snapshot.process_traffic@,
            seen.well_formed(),
            forall|pid: u32| #[trigger]
                seen@.dom().contains(pid) <==> exists|j: int|
                    0 <= j < i && (#[trigger] rows@[j]).pid == pid,
            processes@.len() == i,
            forall|k: int|
                0 <= k < i ==> (#[trigger] processes@[k])@ == sighting_of(
                    rows@,
                    snapshot.connection_details@,
                    k,
                ),
    {
        let row = &rows[i];
        let started: u64 = match row.process_key {
            Some(key) => key.started_at_unix_nanos,
            None => 0,
        };
        let mut identity = text::decimal_text(row.pid as u64);
        identity.append(":");
        identity.append(text::decimal_text(started).as_str());
        let name = match &row.name {
            Some(name) => name.clone(),
            None => pid_text(row.pid),
        };
        let remote_addresses: Vec<String> = if seen.contains(&row.pid) {
            Vec::new()
        } else {
            collect_remotes(&snapshot.connection_details, row.pid)
        };
        let process = ProcessRiskObservation {
            identity,
            name,
            send_bytes_per_second: row.send_bytes_per_second,
            receive_bytes_per_second: row.receive_bytes_per_second,
            remote_addresses,
        };
        proof {
            assert(seen@.dom().contains(row.pid) == stands_before(rows@, i as int));
            if stands_before(rows@, i as int) {
                assert(process@.remotes =~= Seq::empty());
            }
            assert(process@ == sighting_of(rows@, snapshot.connection_details@, i as int));
        }
        processes.push(process);
        seen.insert(row.pid, ());
    }
    RiskObservation {
        timestamp_unix_nanos: snapshot.network_rate.sampled_at_unix_nanos,
        processes,
    }
}

/// Of one second no more than one snapshot is stored: once one has been taken in, none of the same
/// second or an earlier one is.
pub proof fn law_one_snapshot_a_second(
    active: ActiveView,
    first: ApplicationSnapshot,
    events: Seq<LiveRiskEvent>,
    second: ApplicationSnapshot,
)
    requires
        second_of(second) <= second_of(first),
    ensures
        !active.with_snapshot(first, events).takes(second),
{
}

/// A process is counted from what it had carried when the session first saw it: the first row of a
/// process stores no traffic.
pub proof fn law_first_row_counts_nothing(active: ActiveView, row: ProcessTrafficSnapshot)
    requires
        !active.baselines.dom().contains((row.pid, active.learned(row).started_at)),
    ensures
        active.summary(row).send_bytes == 0,
        active.summary(row).receive_bytes == 0,
        active.with_row(row).baselines[(row.pid, active.learned(row).started_at)] == (
            row.send_bytes_total,
            row.receive_bytes_total,
        ),
{
}

/// A process that has started anew under the same number takes over neither the name nor the image
/// of the one before.
pub proof fn law_reused_number_keeps_no_name(active: ActiveView, row: ProcessTrafficSnapshot)
    requires
        row.process_key is Some,
        active.known(row.pid).started_at != 0,
        active.known(row.pid).started_at != row.process_key->0.started_at_unix_nanos,
    ensures
        active.learned(row).name == text::optional(row.name),
        active.learned(row).image_path == text::optional(row.image_path),
{
}

/// No more risk events are shown than there is room for, and the newest are among them.
pub proof fn law_shown_events_are_bounded(shown: Seq<LiveRiskEvent>, events: Seq<LiveRiskEvent>)
    ensures
        newest_events(shown + events).len() <= MAX_LIVE_RISK_EVENTS,
        events.len() <= MAX_LIVE_RISK_EVENTS ==> newest_events(shown + events).skip(
            newest_events(shown + events).len() - events.len(),
        ) == events,
{
    if events.len() <= MAX_LIVE_RISK_EVENTS {
        let all = shown + events;
        assert(newest_events(all).skip(newest_events(all).len() - events.len()) =~= events);
    }
}

/// What a process had carried when it was first seen is not forgotten while the session lasts.
proof fn lemma_baseline_stays(
    active: ActiveView,
    rows: Seq<ProcessTrafficSnapshot>,
    key: (u32, u64),
)
    requires
        active.baselines.dom().contains(key),
    ensures
        active.with_rows(rows).baselines.dom().contains(key),
        active.with_rows(rows).baselines[key] == active.baselines[key],
    decreases rows.len(),
{
    if rows.len() > 0 {
        lemma_baseline_stays(active, rows.drop_last(), key);
    }
}

/// The row of a process at a place is stored at that place.
proof fn lemma_summary_at(active: ActiveView, rows: Seq<ProcessTrafficSnapshot>, i: int)
    requires
        0 <= i < rows.len(),
    ensures
        active.summaries(rows).len() == rows.len(),
        active.summaries(rows)[i] == active.with_rows(rows.take(i)).summary(rows[i]),
    decreases rows.len(),
{
    lemma_summaries_length(active, rows);
    if i == rows.len() - 1 {
        assert(rows.take(i) =~= rows.drop_last());
        lemma_summaries_length(active, rows.drop_last());
    } else {
        lemma_summary_at(active, rows.drop_last(), i);
        assert(rows.drop_last().take(i) =~= rows.take(i));
        assert(rows.drop_last()[i] == rows[i]);
    }
}

proof fn lemma_summaries_length(active: ActiveView, rows: Seq<ProcessTrafficSnapshot>)
    ensures
        active.summaries(rows).len() == rows.len(),
    decreases rows.len(),
{
    if rows.len() > 0 {
        lemma_summaries_length(active, rows.drop_last());
    }
}

/// A process whose first row in a session has certain totals is stored, at any later row, with what
/// it has carried since: what is stored and what it began with add up to the totals of the row.
pub proof fn law_traffic_counts_from_the_first_row(
    active: ActiveView,
    first: ProcessTrafficSnapshot,
    between: Seq<ProcessTrafficSnapshot>,
    later: ProcessTrafficSnapshot,
)
    requires
        first.process_key is Some,
        later.process_key == first.process_key,
        later.pid == first.pid,
        !active.baselines.dom().contains(
            (first.pid, first.process_key->0.started_at_unix_nanos),
        ),
        first.send_bytes_total <= later.send_bytes_total,
        first.receive_bytes_total <= later.receive_bytes_total,
    ensures
        ({
            let stored = active.with_row(first).with_rows(between).summary(later);
            &&& stored.send_bytes + first.send_bytes_total == later.send_bytes_total
            &&& stored.receive_bytes + first.receive_bytes_total == later.receive_bytes_total
            &&& stored.pid == later.pid
            &&& stored.started_at == later.process_key->0.started_at_unix_nanos
            &&& stored.connection_count == later.connection_count
            &&& later.name matches Some(name) ==> stored.name == name@
            &&& later.image_path matches Some(path) ==> stored.image_path == Some(path@)
        }),
{
    lemma_baseline_stays(
        active.with_row(first),
        between,
        (first.pid, first.process_key->0.started_at_unix_nanos),
    );
}

/// Two snapshots of a session that has just begun: of a process that is in both, the batch of the
/// second stores what it has carried between the two, in the place of its row.
pub proof fn law_batch_counts_from_the_first_snapshot(
    active: ActiveView,
    first: ApplicationSnapshot,
    i: int,
    early: Seq<LiveRiskEvent>,
    second: ApplicationSnapshot,
    j: int,
    events: Seq<LiveRiskEvent>,
)
    requires
        0 <= i < first.process_traffic@.len(),
        0 <= j < second.process_traffic@.len(),
        ({
            let a = first.process_traffic@[i];
            let b = second.process_traffic@[j];
            &&& a.process_key is Some
            &&& a.process_key == b.process_key
            &&& a.pid == b.pid
            &&& a.send_bytes_total <= b.send_bytes_total
            &&& a.receive_bytes_total <= b.receive_bytes_total
            &&& !active.baselines.dom().contains((a.pid, a.process_key->0.started_at_unix_nanos))
            &&& forall|k: int|
                0 <= k < i ==> (#[trigger] first.process_traffic@[k]).pid != a.pid
        }),
    ensures
        ({
            let a = first.process_traffic@[i];
            let b = second.process_traffic@[j];
            let stored = active.with_snapshot(first, early).batch(second, events).processes[j];
            &&& stored.send_bytes + a.send_bytes_total == b.send_bytes_total
            &&& stored.receive_bytes + a.receive_bytes_total == b.receive_bytes_total
            &&& stored.pid == b.pid
        }),
{
    let a = first.process_traffic@[i];
    let b = second.process_traffic@[j];
    let rows = first.process_traffic@;
    let key = (a.pid, a.process_key->0.started_at_unix_nanos);
    let before = active.with_rows(rows.take(i));
    lemma_other_numbers(active, rows.take(i), key);
    lemma_rows_in_two(active, rows, i + 1);
    assert(rows.take(i + 1).drop_last() =~= rows.take(i));
    assert(active.with_rows(rows.take(i + 1)) == before.with_row(a));
    lemma_baseline_stays(before.with_row(a), rows.skip(i + 1), key);
    let now = active.with_snapshot(first, early);
    assert(now.baselines == active.with_rows(rows).baselines);
    lemma_summary_at(now, second.process_traffic@, j);
    lemma_baseline_stays(now, second.process_traffic@.take(j), key);
}

/// Rows of other process numbers say nothing of a process.
proof fn lemma_other_numbers(active: ActiveView, rows: Seq<ProcessTrafficSnapshot>, key: (u32, u64))
    requires
        !active.baselines.dom().contains(key),
        forall|k: int| 0 <= k < rows.len() ==> (#[trigger] rows[k]).pid != key.0,
    ensures
        !active.with_rows(rows).baselines.dom().contains(key),
    decreases rows.len(),
{
    if rows.len() > 0 {
        let shorter = rows.drop_last();
        assert forall|k: int| 0 <= k < shorter.len() implies (#[trigger] shorter[k]).pid != key.0 by {
            assert(rows[k].pid != key.0);
        }
        lemma_other_numbers(active, shorter, key);
        assert(rows[rows.len() - 1].pid != key.0);
    }
}

/// Rows may be seen in two parts.
proof fn lemma_rows_in_two(active: ActiveView, rows: Seq<ProcessTrafficSnapshot>, n: int)
    requires
        0 <= n <= rows.len(),
    ensures
        active.with_rows(rows) == active.with_rows(rows.take(n)).with_rows(rows.skip(n)),
    decreases rows.len() - n,
{
    if n == rows.len() {
        assert(rows.take(n) =~= rows);
        assert(rows.skip(n) =~= Seq::empty());
    } else {
        lemma_rows_in_two(active, rows.drop_last(), n);
        assert(rows.drop_last().take(n) =~= rows.take(n));
        assert(rows.skip(n).drop_last() =~= rows.drop_last().skip(n));
        assert(rows.skip(n).last() == rows.last());
    }
}

/// What is stored of a snapshot: the second that it was sampled in, the rates of the network, and
/// the events that were processed since the last snapshot that was stored. Of each risk event there
/// is one alert, numbered on from the last, with its time, its title and its process.
pub proof fn law_batch_holds_the_snapshot(
    active: ActiveView,
    snapshot: ApplicationSnapshot,
    events: Seq<LiveRiskEvent>,
)
    requires
        active.id is Some,
        active.last_events <= snapshot.events_processed,
        active.next_alert_id + events.len() <= i64::MAX,
    ensures
        ({
            let batch = active.batch(snapshot, events);
            let sampled = snapshot.network_rate.sampled_at_unix_nanos;
            &&& Some(batch.id) == active.id
            &&& batch.bucket.start_unix_nanos <= sampled < batch.bucket.start_unix_nanos
                + 1_000_000_000
            &&& batch.bucket.start_unix_nanos % 1_000_000_000 == 0
            &&& batch.bucket.send_bytes == snapshot.network_rate.send_bytes_per_second
            &&& batch.bucket.receive_bytes == snapshot.network_rate.receive_bytes_per_second
            &&& batch.bucket.event_count + active.last_events == snapshot.events_processed
            &&& active.with_snapshot(snapshot, events).last_events == snapshot.events_processed
            &&& batch.processes.len() == snapshot.process_traffic@.len()
            &&& batch.alerts.len() == events.len()
            &&& forall|i: int|
                0 <= i < events.len() ==> {
                    let alert = #[trigger] active.batch(snapshot, events).alerts[i];
                    &&& alert.id == active.next_alert_id + i + 1
                    &&& Some(alert.session_id) == active.id
                    &&& alert.occurred_at == events[i].occurred_at_unix_nanos
                    &&& alert.kind == AlertKind::RiskEvent
                    &&& alert.title == events[i].title@
                    &&& alert.detail == "风险分数 "@ + text::decimal(events[i].score as nat) + " · "@
                        + events[i].detail@
                    &&& alert.process_name == Some(events[i].process_name@)
                    &&& alert.remote_address == text::optional(events[i].remote_address)
                }
            &&& active.with_snapshot(snapshot, events).next_alert_id == active.next_alert_id
                + events.len()
        }),
{
    model::law_stretch_holds_its_timestamp(
        snapshot.network_rate.sampled_at_unix_nanos,
        1_000_000_000,
    );
    lemma_summaries_length(active, snapshot.process_traffic@);
}

/// A snapshot is taken while a session is recorded, if it is of a later second than the last.
pub proof fn law_later_seconds_are_taken(
    active: ActiveView,
    first: ApplicationSnapshot,
    events: Seq<LiveRiskEvent>,
    second: ApplicationSnapshot,
)
    requires
        active.id is Some,
        first.network_rate.sampled_at_unix_nanos / 1_000_000_000
            < second.network_rate.sampled_at_unix_nanos / 1_000_000_000,
    ensures
        active.with_snapshot(first, events).takes(second),
        forall|other: ApplicationSnapshot| #[trigger]
            active.started(active.id->0, 0).takes(other),
        !(ActiveView { id: None, ..active }).takes(second),
{
    lemma_rows_keep_session(active, first.process_traffic@);
}

proof fn lemma_rows_keep_session(active: ActiveView, rows: Seq<ProcessTrafficSnapshot>)
    ensures
        active.with_rows(rows).id == active.id,
    decreases rows.len(),
{
    if rows.len() > 0 {
        lemma_rows_keep_session(active, rows.drop_last());
    }
}

/// The endpoints that are stored of a snapshot: every connection with a remote end is counted once,
/// under its protocol, the address of the remote end and its process, seen at the second's start.
pub proof fn law_connections_are_stored_as_endpoints(
    details: Seq<ConnectionDetailSnapshot>,
    start: u64,
    i: int,
)
    requires
        0 <= i < details.len(),
        details.len() <= u64::MAX,
        details[i].connection.remote is Some,
    ensures
        exists|j: int|
            {
                let endpoint = #[trigger] endpoints_of(details, start)[j];
                &&& 0 <= j < endpoints_of(details, start).len()
                &&& endpoint.protocol == (match details[i].connection.protocol {
                    TransportProtocol::Tcp => "TCP"@,
                    TransportProtocol::Udp => "UDP"@,
                })
                &&& endpoint.remote_address == address::socket_text(
                    details[i].connection.remote->0,
                )
                &&& details[i].process_name matches Some(name) ==> endpoint.process_name == name@
                &&& details[i].process_name is None ==> endpoint.process_name == "PID "@
                    + text::decimal(details[i].connection.pid as nat)
                &&& endpoint.first_seen == start
                &&& endpoint.last_seen == start
                &&& endpoint.connection_count > 0
            },
{
    let key = endpoint_key(details[i])->0;
    lemma_endpoint_counted(details, i);
    lemma_endpoint_keys_finite(details);
    ordered::lemma_order_exists::<((String, String), String)>(endpoint_keys(details));
    let keys = ordered::ordered_list::<((String, String), String)>(endpoint_keys(details));
    assert(endpoint_keys(details).contains(key));
    let j = choose|j: int| 0 <= j < keys.len() && #[trigger] keys[j] == key;
    lemma_endpoint_count_bound(details, key);
    assert(endpoints_of(details, start)[j].remote_address == key.0.1);
}

proof fn lemma_endpoint_counted(details: Seq<ConnectionDetailSnapshot>, i: int)
    requires
        0 <= i < details.len(),
        endpoint_key(details[i]) is Some,
    ensures
        endpoint_count(details, endpoint_key(details[i])->0) > 0,
    decreases details.len(),
{
    if i < details.len() - 1 {
        lemma_endpoint_counted(details.drop_last(), i);
        assert(details.drop_last()[i] == details[i]);
    }
}

proof fn lemma_endpoint_count_bound(
    details: Seq<ConnectionDetailSnapshot>,
    key: ((Seq<char>, Seq<char>), Seq<char>),
)
    ensures
        endpoint_count(details, key) <= details.len(),
    decreases details.len(),
{
    if details.len() > 0 {
        lemma_endpoint_count_bound(details.drop_last(), key);
    }
}

proof fn lemma_endpoint_keys_finite(details: Seq<ConnectionDetailSnapshot>)
    ensures
        endpoint_keys(details).finite(),
    decreases details.len(),
{
    if details.len() == 0 {
        assert(endpoint_keys(details) =~= Set::empty());
    } else {
        lemma_endpoint_keys_finite(details.drop_last());
        let shorter = endpoint_keys(details.drop_last());
        match endpoint_key(details.last()) {
            Some(key) => {
                assert(endpoint_keys(details) =~= shorter.insert(key));
            },
            None => {
                assert(endpoint_keys(details) =~= shorter);
            },
        }
    }
}

/// What the evaluation of risk sees of a process: its number and start, its name, what it sends and
/// receives a second, and the remote ends of its connections.
pub proof fn law_rows_are_seen_as_they_are(
    rows: Seq<ProcessTrafficSnapshot>,
    details: Seq<ConnectionDetailSnapshot>,
    i: int,
)
    requires
        0 <= i < rows.len(),
    ensures
        sighting_of(rows, details, i).sending == rows[i].send_bytes_per_second,
        sighting_of(rows, details, i).receiving == rows[i].receive_bytes_per_second,
        rows[i].name matches Some(name) ==> sighting_of(rows, details, i).name == name@,
        rows[i].process_key matches Some(key) ==> sighting_of(rows, details, i).identity
            == text::decimal(rows[i].pid as nat) + ":"@ + text::decimal(
            key.started_at_unix_nanos as nat,
        ),
{
}

/// The event of a signal shows what the signal says, at the time of the snapshot; events are numbered
/// on from the last.
pub proof fn law_events_show_their_signals(signals: Seq<RiskSignal>, last_id: u64, timestamp: u64)
    requires
        last_id + signals.len() <= u64::MAX,
    ensures
        events_of(signals, last_id, timestamp).len() == signals.len(),
        forall|i: int|
            0 <= i < signals.len() ==> {
                let event = #[trigger] events_of(signals, last_id, timestamp)[i];
                &&& event.id == last_id + i + 1
                &&& event.occurred_at_unix_nanos == timestamp
                &&& event.level == signals[i].level
                &&& event.score == signals[i].score
                &&& event.title == signals[i].title
                &&& event.detail == signals[i].detail
                &&& event.process_name == signals[i].process_name
                &&& event.remote_address == signals[i].remote_address
            },
{
}

} // verus!
