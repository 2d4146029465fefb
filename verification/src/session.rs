//! Recording sessions, what is stored of them, and where it is stored.
use crate::text;
use vstd::prelude::*;

verus! {

/// Identity of one recording session.
#[derive(Debug, Clone, Copy, PartialEq, Eq, PartialOrd, Ord, Hash, Structural)]
pub struct SessionId(pub i64);

impl SessionId {
    /// The identity as text.
    pub fn text(&self) -> (text: String)
        ensures
            text@ == text::signed_decimal(self.0 as int),
    {
        text::signed_decimal_text(self.0)
    }
}

/// Lifecycle state. A `Recording` session found at start-up is recovered as `Interrupted`.
#[derive(Debug, Clone, Copy, PartialEq, Eq, Structural)]
pub enum SessionStatus {
    Recording,
    Completed,
    Interrupted,
}

/// The stored name of a status.
pub open spec fn status_name(status: SessionStatus) -> Seq<char> {
    match status {
        SessionStatus::Recording => "recording"@,
        SessionStatus::Completed => "completed"@,
        SessionStatus::Interrupted => "interrupted"@,
    }
}

impl SessionStatus {
    /// The stored name.
    pub fn as_str(self) -> (name: &'static str)
        ensures
            name@ == status_name(self),
    {
        match self {
            SessionStatus::Recording => "recording",
            SessionStatus::Completed => "completed",
            SessionStatus::Interrupted => "interrupted",
        }
    }

    /// The status of a stored name.
    pub fn parse(value: &str) -> (status: Option<SessionStatus>)
        ensures
            match status {
                Some(status) => value@ == status_name(status),
                None => forall|status: SessionStatus| value@ != #[trigger] status_name(status),
            },
            forall|known: SessionStatus| value@ == #[trigger] status_name(known) ==> status == Some(known),
    {
        let status = if text::equal(value, "recording") {
            Some(SessionStatus::Recording)
        } else if text::equal(value, "completed") {
            Some(SessionStatus::Completed)
        } else if text::equal(value, "interrupted") {
            Some(SessionStatus::Interrupted)
        } else {
            None
        };
        proof {
            assert forall|known: SessionStatus| value@ == #[trigger] status_name(
                known,
            ) implies status == Some(known) by {
                if status is Some {
                    law_status_names_differ(known, status->0);
                }
            }
        }
        status
    }
}

/// No two statuses have one name.
pub proof fn law_status_names_differ(a: SessionStatus, b: SessionStatus)
    ensures
        status_name(a) == status_name(b) ==> a == b,
{
    reveal_strlit("recording");
    reveal_strlit("completed");
    reveal_strlit("interrupted");
    assert("recording"@[0] != "completed"@[0]);
    assert("recording"@[0] != "interrupted"@[0]);
    assert("completed"@[0] != "interrupted"@[0]);
}

/// What the history and comparison pages show of a session.
#[derive(Debug, PartialEq, Eq)]
pub struct SessionRecord {
    pub id: SessionId,
    pub name: String,
    pub notes: String,
    pub started_at_unix_nanos: u64,
    pub ended_at_unix_nanos: Option<u64>,
    pub status: SessionStatus,
    pub send_bytes: u64,
    pub receive_bytes: u64,
    pub event_count: u64,
}

impl Clone for SessionRecord {
    fn clone(&self) -> (copy: Self)
        ensures
            copy == *self,
    {
        SessionRecord {
            id: self.id,
            name: self.name.clone(),
            notes: self.notes.clone(),
            started_at_unix_nanos: self.started_at_unix_nanos,
            ended_at_unix_nanos: self.ended_at_unix_nanos,
            status: self.status,
            send_bytes: self.send_bytes,
            receive_bytes: self.receive_bytes,
            event_count: self.event_count,
        }
    }
}

/// One stored stretch of traffic.
#[derive(Debug, Clone, Copy, PartialEq, Eq, Structural)]
pub struct SessionBucket {
    pub start_unix_nanos: u64,
    pub send_bytes: u64,
    pub receive_bytes: u64,
    pub event_count: u64,
}

/// Totals of one process in a session.
#[derive(Debug, Clone, PartialEq, Eq)]
pub struct ProcessSessionSummary {
    pub pid: u32,
    pub started_at_unix_nanos: u64,
    pub name: String,
    pub image_path: Option<String>,
    pub send_bytes: u64,
    pub receive_bytes: u64,
    pub connection_count: u64,
}

/// An endpoint seen in a session.
#[derive(Debug, Clone, PartialEq, Eq)]
pub struct EndpointSummary {
    pub protocol: String,
    pub remote_address: String,
    pub process_name: String,
    pub first_seen_unix_nanos: u64,
    pub last_seen_unix_nanos: u64,
    pub connection_count: u64,
}

/// Totals of a process as a value.
#[verifier::ext_equal]
pub struct ProcessSummaryView {
    pub pid: u32,
    pub started_at: u64,
    pub name: Seq<char>,
    pub image_path: Option<Seq<char>>,
    pub send_bytes: u64,
    pub receive_bytes: u64,
    pub connection_count: u64,
}

impl View for ProcessSessionSummary {
    type V = ProcessSummaryView;

    open spec fn view(&self) -> ProcessSummaryView {
        ProcessSummaryView {
            pid: self.pid,
            started_at: self.started_at_unix_nanos,
            name: self.name@,
            image_path: text::optional(self.image_path),
            send_bytes: self.send_bytes,
            receive_bytes: self.receive_bytes,
            connection_count: self.connection_count,
        }
    }
}

/// An endpoint as a value.
#[verifier::ext_equal]
pub struct EndpointView {
    pub protocol: Seq<char>,
    pub remote_address: Seq<char>,
    pub process_name: Seq<char>,
    pub first_seen: u64,
    pub last_seen: u64,
    pub connection_count: u64,
}

impl View for EndpointSummary {
    type V = EndpointView;

    open spec fn view(&self) -> EndpointView {
        EndpointView {
            protocol: self.protocol@,
            remote_address: self.remote_address@,
            process_name: self.process_name@,
            first_seen: self.first_seen_unix_nanos,
            last_seen: self.last_seen_unix_nanos,
            connection_count: self.connection_count,
        }
    }
}

/// Categories of alerts.
#[derive(Debug, Clone, Copy, PartialEq, Eq, Structural)]
pub enum AlertKind {
    NewProcess,
    NewEndpoint,
    UploadThreshold,
    DownloadThreshold,
    TrafficSpike,
    RiskEvent,
}

/// The stored name of a category.
pub open spec fn alert_name(kind: AlertKind) -> Seq<char> {
    match kind {
        AlertKind::NewProcess => "new_process"@,
        AlertKind::NewEndpoint => "new_endpoint"@,
        AlertKind::UploadThreshold => "upload_threshold"@,
        AlertKind::DownloadThreshold => "download_threshold"@,
        AlertKind::TrafficSpike => "traffic_spike"@,
        AlertKind::RiskEvent => "risk_event"@,
    }
}

impl AlertKind {
    /// The stored name.
    pub fn as_str(self) -> (name: &'static str)
        ensures
            name@ == alert_name(self),
    {
        match self {
            AlertKind::NewProcess => "new_process",
            AlertKind::NewEndpoint => "new_endpoint",
            AlertKind::UploadThreshold => "upload_threshold",
            AlertKind::DownloadThreshold => "download_threshold",
            AlertKind::TrafficSpike => "traffic_spike",
            AlertKind::RiskEvent => "risk_event",
        }
    }

    /// The category of a stored name.
    pub fn parse(value: &str) -> (kind: Option<AlertKind>)
        ensures
            match kind {
                Some(kind) => value@ == alert_name(kind),
                None => forall|kind: AlertKind| value@ != #[trigger] alert_name(kind),
            },
            forall|known: AlertKind| value@ == #[trigger] alert_name(known) ==> kind == Some(known),
    {
        let kind = if text::equal(value, "new_process") {
            Some(AlertKind::NewProcess)
        } else if text::equal(value, "new_endpoint") {
            Some(AlertKind::NewEndpoint)
        } else if text::equal(value, "upload_threshold") {
            Some(AlertKind::UploadThreshold)
        } else if text::equal(value, "download_threshold") {
            Some(AlertKind::DownloadThreshold)
        } else if text::equal(value, "traffic_spike") {
            Some(AlertKind::TrafficSpike)
        } else if text::equal(value, "risk_event") {
            Some(AlertKind::RiskEvent)
        } else {
            None
        };
        proof {
            assert forall|known: AlertKind| value@ == #[trigger] alert_name(
                known,
            ) implies kind == Some(known) by {
                if kind is Some {
                    law_alert_names_differ(known, kind->0);
                }
            }
        }
        kind
    }
}

/// No two categories have one name.
pub proof fn law_alert_names_differ(a: AlertKind, b: AlertKind)
    ensures
        alert_name(a) == alert_name(b) ==> a == b,
{
    reveal_strlit("new_process");
    reveal_strlit("new_endpoint");
    reveal_strlit("upload_threshold");
    reveal_strlit("download_threshold");
    reveal_strlit("traffic_spike");
    reveal_strlit("risk_event");
    let initial = |kind: AlertKind| (alert_name(kind)[0], alert_name(kind).len());
    assert(initial(AlertKind::NewProcess) == ('n', 11nat));
    assert(initial(AlertKind::NewEndpoint) == ('n', 12nat));
    assert(initial(AlertKind::UploadThreshold) == ('u', 16nat));
    assert(initial(AlertKind::DownloadThreshold) == ('d', 18nat));
    assert(initial(AlertKind::TrafficSpike) == ('t', 13nat));
    assert(initial(AlertKind::RiskEvent) == ('r', 10nat));
}

/// A rule that the user can set.
#[derive(Debug, Clone, Copy, PartialEq, Eq, Structural)]
pub struct AlertRule {
    pub id: i64,
    pub kind: AlertKind,
    pub enabled: bool,
    pub threshold_bytes_per_second: u64,
}

/// An alert raised while recording.
#[derive(Debug, Clone, PartialEq, Eq)]
pub struct AlertRecord {
    pub id: i64,
    pub session_id: SessionId,
    pub occurred_at_unix_nanos: u64,
    pub kind: AlertKind,
    pub title: String,
    pub detail: String,
    pub process_name: Option<String>,
    pub remote_address: Option<String>,
}

/// An alert as a value.
#[verifier::ext_equal]
pub struct AlertRecordView {
    pub id: i64,
    pub session_id: SessionId,
    pub occurred_at: u64,
    pub kind: AlertKind,
    pub title: Seq<char>,
    pub detail: Seq<char>,
    pub process_name: Option<Seq<char>>,
    pub remote_address: Option<Seq<char>>,
}

impl View for AlertRecord {
    type V = AlertRecordView;

    open spec fn view(&self) -> AlertRecordView {
        AlertRecordView {
            id: self.id,
            session_id: self.session_id,
            occurred_at: self.occurred_at_unix_nanos,
            kind: self.kind,
            title: self.title@,
            detail: self.detail@,
            process_name: text::optional(self.process_name),
            remote_address: text::optional(self.remote_address),
        }
    }
}

/// Everything stored of a session.
#[derive(Debug, Clone, PartialEq, Eq)]
pub struct SessionDetail {
    pub session: SessionRecord,
    pub buckets: Vec<SessionBucket>,
    pub processes: Vec<ProcessSessionSummary>,
    pub endpoints: Vec<EndpointSummary>,
    pub alerts: Vec<AlertRecord>,
}

/// Formats that a session can be exported in.
#[derive(Debug, Clone, Copy, PartialEq, Eq, Structural)]
pub enum ExportFormat {
    Json,
    Csv,
    Markdown,
}

/// Where sessions are stored. What an implementation answers is its own affair: nothing is
/// promised of it here.
pub trait SessionRepository: Send + Sync + 'static {
    fn recover_interrupted(&self, timestamp: u64) -> Result<usize, String>;

    fn start_session(&self, name: &str, notes: &str, timestamp: u64) -> Result<SessionId, String>;

    fn finish_session(&self, id: SessionId, timestamp: u64, status: SessionStatus) -> Result<
        bool,
        String,
    >;

    fn append_batch(
        &self,
        id: SessionId,
        buckets: &[SessionBucket],
        processes: &[ProcessSessionSummary],
        endpoints: &[EndpointSummary],
        alerts: &[AlertRecord],
    ) -> Result<(), String>;

    fn list_sessions(&self, limit: usize) -> Result<Vec<SessionRecord>, String>;

    fn detail(&self, id: SessionId) -> Result<Option<SessionDetail>, String>;

    fn delete_session(&self, id: SessionId) -> Result<bool, String>;

    fn delete_sessions_ended_before(&self, cutoff: u64) -> Result<usize, String>;

    fn setting(&self, key: &str) -> Result<Option<String>, String>;

    fn set_setting(&self, key: &str, value: &str) -> Result<(), String>;

    fn export_session(&self, id: SessionId, format: ExportFormat, path: &str) -> Result<(), String>;
}

/// The names under which states and alerts are stored.
pub proof fn law_stored_names()
    ensures
        status_name(SessionStatus::Recording) == "recording"@,
        status_name(SessionStatus::Completed) == "completed"@,
        status_name(SessionStatus::Interrupted) == "interrupted"@,
        alert_name(AlertKind::NewProcess) == "new_process"@,
        alert_name(AlertKind::NewEndpoint) == "new_endpoint"@,
        alert_name(AlertKind::UploadThreshold) == "upload_threshold"@,
        alert_name(AlertKind::DownloadThreshold) == "download_threshold"@,
        alert_name(AlertKind::TrafficSpike) == "traffic_spike"@,
        alert_name(AlertKind::RiskEvent) == "risk_event"@,
{
}

/// A record shows its fields under their names.
pub proof fn law_records_show_their_fields(
    process: ProcessSessionSummary,
    endpoint: EndpointSummary,
    alert: AlertRecord,
)
    ensures
        process@.pid == process.pid,
        process@.started_at == process.started_at_unix_nanos,
        process@.name == process.name@,
        process@.image_path == text::optional(process.image_path),
        process@.send_bytes == process.send_bytes,
        process@.receive_bytes == process.receive_bytes,
        process@.connection_count == process.connection_count,
        endpoint@.protocol == endpoint.protocol@,
        endpoint@.remote_address == endpoint.remote_address@,
        endpoint@.process_name == endpoint.process_name@,
        endpoint@.first_seen == endpoint.first_seen_unix_nanos,
        endpoint@.last_seen == endpoint.last_seen_unix_nanos,
        endpoint@.connection_count == endpoint.connection_count,
        alert@.id == alert.id,
        alert@.session_id == alert.session_id,
        alert@.occurred_at == alert.occurred_at_unix_nanos,
        alert@.kind == alert.kind,
        alert@.title == alert.title@,
        alert@.detail == alert.detail@,
        alert@.process_name == text::optional(alert.process_name),
        alert@.remote_address == text::optional(alert.remote_address),
{
}

} // verus!
