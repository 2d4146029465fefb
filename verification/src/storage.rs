//! Records as rows of a database whose integers are signed.
use crate::session;
use crate::session::{
    AlertKind, AlertRecord, EndpointSummary, ProcessSessionSummary, SessionBucket, SessionId,
    SessionRecord, SessionStatus,
};
use crate::text;
use vstd::prelude::*;

verus! {

/// The version of the tables.
pub const SCHEMA_VERSION: i64 = 1;

/// Why something could not be stored or read.
#[derive(Debug, Clone, PartialEq, Eq)]
pub enum StorageError {
    Database(String),
    LockPoisoned,
    InvalidData(String),
}

/// An error as a value.
pub enum StorageErrorView {
    Database(Seq<char>),
    LockPoisoned,
    InvalidData(Seq<char>),
}

impl View for StorageError {
    type V = StorageErrorView;

    open spec fn view(&self) -> StorageErrorView {
        match self {
            StorageError::Database(detail) => StorageErrorView::Database(detail@),
            StorageError::LockPoisoned => StorageErrorView::LockPoisoned,
            StorageError::InvalidData(detail) => StorageErrorView::InvalidData(detail@),
        }
    }
}

/// The error in words.
pub open spec fn storage_error_text(error: StorageError) -> Seq<char> {
    match error {
        StorageError::Database(detail) => "SQLite error: "@ + detail@,
        StorageError::LockPoisoned => "SQLite connection lock is poisoned"@,
        StorageError::InvalidData(detail) => "invalid persisted data: "@ + detail@,
    }
}

impl StorageError {
    /// The error in words.
    pub fn message(&self) -> (message: String)
        ensures
            message@ == storage_error_text(*self),
    {
        match self {
            StorageError::Database(detail) => {
                let mut message = "SQLite error: ".to_owned();
                message.append(detail.as_str());
                message
            },
            StorageError::LockPoisoned => "SQLite connection lock is poisoned".to_owned(),
            StorageError::InvalidData(detail) => {
                let mut message = "invalid persisted data: ".to_owned();
                message.append(detail.as_str());
                message
            },
        }
    }
}

/// Whether an error says that data is invalid, in these words.
pub open spec fn invalid(error: StorageError, detail: Seq<char>) -> bool {
    error matches StorageError::InvalidData(said) && said@ == detail
}

/// Refuses tables that a later version has made.
pub fn check_existing_version(version: i64) -> (r: Result<(), StorageError>)
    ensures
        r is Ok <==> version <= SCHEMA_VERSION,
        r matches Err(error) ==> invalid(
            error,
            "database schema "@ + text::signed_decimal(version as int)
                + " is newer than supported version "@ + text::signed_decimal(
                SCHEMA_VERSION as int,
            ),
        ),
{
    if version > SCHEMA_VERSION {
        let mut detail = "database schema ".to_owned();
        detail.append(text::signed_decimal_text(version).as_str());
        detail.append(" is newer than supported version ");
        detail.append(text::signed_decimal_text(SCHEMA_VERSION).as_str());
        return Err(StorageError::InvalidData(detail));
    }
    Ok(())
}

/// Refuses tables that are not of this version once they have been brought up to date.
pub fn check_migrated_version(version: i64) -> (r: Result<(), StorageError>)
    ensures
        r is Ok <==> version == SCHEMA_VERSION,
        r matches Err(error) ==> invalid(
            error,
            "unsupported schema version "@ + text::signed_decimal(version as int) + "; expected "@
                + text::signed_decimal(SCHEMA_VERSION as int),
        ),
{
    if version != SCHEMA_VERSION {
        let mut detail = "unsupported schema version ".to_owned();
        detail.append(text::signed_decimal_text(version).as_str());
        detail.append("; expected ");
        detail.append(text::signed_decimal_text(SCHEMA_VERSION).as_str());
        return Err(StorageError::InvalidData(detail));
    }
    Ok(())
}

/// Refuses to finish a session as one that is still recorded.
pub fn check_final_status(status: SessionStatus) -> (r: Result<(), StorageError>)
    ensures
        r is Ok <==> status != SessionStatus::Recording,
        r matches Err(error) ==> invalid(
            error,
            "finished session cannot retain recording status"@,
        ),
{
    if status == SessionStatus::Recording {
        return Err(
            StorageError::InvalidData("finished session cannot retain recording status".to_owned()),
        );
    }
    Ok(())
}

/// What is said of a number that a signed integer cannot hold.
pub open spec fn too_large(value: u64) -> Seq<char> {
    "value "@ + text::decimal(value as nat) + " exceeds SQLite INTEGER"@
}

/// A number as the database holds it.
pub fn to_i64(value: u64) -> (r: Result<i64, StorageError>)
    ensures
        match r {
            Ok(stored) => stored == value,
            Err(error) => value > i64::MAX && invalid(error, too_large(value)),
        },
{
    if value > i64::MAX as u64 {
        let mut detail = "value ".to_owned();
        text::put_number(&mut detail, value);
        detail.append(" exceeds SQLite INTEGER");
        Err(StorageError::InvalidData(detail))
    } else {
        Ok(value as i64)
    }
}

/// Why a row is no record.
#[derive(Debug, Clone, Copy, PartialEq, Eq, Structural)]
pub enum RowError {
    /// A number is out of the range of the record's field.
    OutOfRange,
    /// The status is none.
    UnknownStatus,
    /// The category is none.
    UnknownKind,
}

/// A number as the database held it.
pub fn to_u64(value: i64) -> (r: Result<u64, RowError>)
    ensures
        match r {
            Ok(read) => read == value,
            Err(error) => value < 0 && error == RowError::OutOfRange,
        },
{
    if value < 0 {
        Err(RowError::OutOfRange)
    } else {
        Ok(value as u64)
    }
}

/// A row of the table of sessions.
#[derive(Debug, Clone, PartialEq, Eq)]
pub struct SessionRow {
    pub id: i64,
    pub name: String,
    pub notes: String,
    pub started_at_ns: i64,
    pub ended_at_ns: Option<i64>,
    pub status: String,
    pub send_bytes: i64,
    pub receive_bytes: i64,
    pub event_count: i64,
}

/// Whether no number of a row is negative.
pub open spec fn session_row_counts(row: SessionRow) -> bool {
    &&& row.started_at_ns >= 0
    &&& (row.ended_at_ns matches Some(ended) ==> ended >= 0)
    &&& row.send_bytes >= 0
    &&& row.receive_bytes >= 0
    &&& row.event_count >= 0
}

/// The record of a row. A status that is none is noticed before a number out of range.
pub fn decode_session(row: SessionRow) -> (r: Result<SessionRecord, RowError>)
    ensures
        match r {
            Ok(record) => {
                &&& session_row_counts(row)
                &&& row.status@ == session::status_name(record.status)
                &&& record.id == SessionId(row.id)
                &&& record.name == row.name
                &&& record.notes == row.notes
                &&& record.started_at_unix_nanos == row.started_at_ns
                &&& match (record.ended_at_unix_nanos, row.ended_at_ns) {
                    (Some(read), Some(stored)) => read == stored,
                    (None, None) => true,
                    _ => false,
                }
                &&& record.send_bytes == row.send_bytes
                &&& record.receive_bytes == row.receive_bytes
                &&& record.event_count == row.event_count
            },
            Err(RowError::UnknownStatus) => forall|status: SessionStatus|
                row.status@ != #[trigger] session::status_name(status),
            Err(RowError::OutOfRange) => !session_row_counts(row),
            Err(RowError::UnknownKind) => false,
        },
        r is Ok <==> session_row_counts(row) && exists|status: SessionStatus|
            row.status@ == #[trigger] session::status_name(status),
{
    let status = match SessionStatus::parse(row.status.as_str()) {
        Some(status) => status,
        None => {
            return Err(RowError::UnknownStatus);
        },
    };
    assert(row.status@ == session::status_name(status));
    if row.started_at_ns < 0 || row.send_bytes < 0 || row.receive_bytes < 0 || row.event_count < 0 {
        return Err(RowError::OutOfRange);
    }
    let ended_at_unix_nanos: Option<u64> = match row.ended_at_ns {
        Some(ended) => {
            if ended < 0 {
                return Err(RowError::OutOfRange);
            }
            Some(ended as u64)
        },
        None => None,
    };
    Ok(
        SessionRecord {
            id: SessionId(row.id),
            name: row.name,
            notes: row.notes,
            started_at_unix_nanos: row.started_at_ns as u64,
            ended_at_unix_nanos,
            status,
            send_bytes: row.send_bytes as u64,
            receive_bytes: row.receive_bytes as u64,
            event_count: row.event_count as u64,
        },
    )
}

/// A row of the table of buckets.
#[derive(Debug, Clone, Copy, PartialEq, Eq, Structural)]
pub struct BucketRow {
    pub start_ns: i64,
    pub send_bytes: i64,
    pub receive_bytes: i64,
    pub event_count: i64,
}

/// Whether a row holds the numbers of a bucket.
pub open spec fn bucket_row_holds(row: BucketRow, bucket: SessionBucket) -> bool {
    &&& row.start_ns == bucket.start_unix_nanos
    &&& row.send_bytes == bucket.send_bytes
    &&& row.receive_bytes == bucket.receive_bytes
    &&& row.event_count == bucket.event_count
}

/// Whether a signed integer can hold every number of a bucket.
pub open spec fn bucket_fits(bucket: SessionBucket) -> bool {
    &&& bucket.start_unix_nanos <= i64::MAX
    &&& bucket.send_bytes <= i64::MAX
    &&& bucket.receive_bytes <= i64::MAX
    &&& bucket.event_count <= i64::MAX
}

/// The first of a run of numbers that a signed integer cannot hold.
pub open spec fn first_too_large(values: Seq<u64>) -> u64
    decreases values.len(),
{
    if values.len() == 0 || values[0] > i64::MAX {
        values[0]
    } else {
        first_too_large(values.drop_first())
    }
}

/// Numbers as the database holds them; the first that it cannot hold is named.
fn to_i64_all(values: &[u64]) -> (r: Result<Vec<i64>, StorageError>)
    ensures
        match r {
            Ok(stored) => stored@.len() == values@.len() && forall|i: int|
                0 <= i < values@.len() ==> #[trigger] stored@[i] == values@[i],
            Err(error) => invalid(error, too_large(first_too_large(values@))) && exists|i: int|
                0 <= i < values@.len() && #[trigger] values@[i] > i64::MAX,
        },
{
    let mut stored: Vec<i64> = Vec::new();
    let mut i: usize = 0;
    assert(values@.skip(0) =~= values@);
    while i < values.len()
        invariant
            i <= values@.len(),
            stored@.len() == i,
            forall|k: int| 0 <= k < i ==> #[trigger] stored@[k] == values@[k],
            first_too_large(values@) == first_too_large(values@.skip(i as int)),
        decreases values@.len() - i,
    {
        match to_i64(values[i]) {
            Ok(value) => {
                stored.push(value);
            },
            Err(error) => {
                assert(values@[i as int] > i64::MAX);
                return Err(error);
            },
        }
        assert(values@.skip(i as int).drop_first() =~= values@.skip(i + 1));
        i += 1;
    }
    Ok(stored)
}

/// The row of a bucket.
pub fn encode_bucket(bucket: &SessionBucket) -> (r: Result<BucketRow, StorageError>)
    ensures
        r is Ok <==> bucket_fits(*bucket),
        match r {
            Ok(row) => bucket_row_holds(row, *bucket),
            Err(error) => invalid(
                error,
                too_large(
                    first_too_large(
                        seq![
                            bucket.start_unix_nanos,
                            bucket.send_bytes,
                            bucket.receive_bytes,
                            bucket.event_count,
                        ],
                    ),
                ),
            ),
        },
{
    let mut values: Vec<u64> = Vec::new();
    values.push(bucket.start_unix_nanos);
    values.push(bucket.send_bytes);
    values.push(bucket.receive_bytes);
    values.push(bucket.event_count);
    assert(values@ =~= seq![
        bucket.start_unix_nanos,
        bucket.send_bytes,
        bucket.receive_bytes,
        bucket.event_count,
    ]);
    match to_i64_all(values.as_slice()) {
        Ok(stored) => {
            assert(stored@[0] == values@[0] && stored@[1] == values@[1] && stored@[2] == values@[2]
                && stored@[3] == values@[3]);
            Ok(
                BucketRow {
                    start_ns: stored[0],
                    send_bytes: stored[1],
                    receive_bytes: stored[2],
                    event_count: stored[3],
                },
            )
        },
        Err(error) => Err(error),
    }
}

/// The bucket of a row.
pub fn decode_bucket(row: &BucketRow) -> (r: Result<SessionBucket, RowError>)
    ensures
        match r {
            Ok(bucket) => bucket_row_holds(*row, bucket),
            Err(error) => error == RowError::OutOfRange,
        },
        r is Ok <==> row.start_ns >= 0 && row.send_bytes >= 0 && row.receive_bytes >= 0
            && row.event_count >= 0,
{
    if row.start_ns < 0 || row.send_bytes < 0 || row.receive_bytes < 0 || row.event_count < 0 {
        return Err(RowError::OutOfRange);
    }
    Ok(
        SessionBucket {
            start_unix_nanos: row.start_ns as u64,
            send_bytes: row.send_bytes as u64,
            receive_bytes: row.receive_bytes as u64,
            event_count: row.event_count as u64,
        },
    )
}

/// A row of the table of processes.
#[derive(Debug, Clone, PartialEq, Eq)]
pub struct ProcessRow {
    pub pid: i64,
    pub started_at_ns: i64,
    pub name: String,
    pub image_path: Option<String>,
    pub send_bytes: i64,
    pub receive_bytes: i64,
    pub connection_count: i64,
}

/// Whether a row holds what is known of a process.
pub open spec fn process_row_holds(row: ProcessRow, process: ProcessSessionSummary) -> bool {
    &&& row.pid == process.pid
    &&& row.started_at_ns == process.started_at_unix_nanos
    &&& row.name == process.name
    &&& row.image_path == process.image_path
    &&& row.send_bytes == process.send_bytes
    &&& row.receive_bytes == process.receive_bytes
    &&& row.connection_count == process.connection_count
}

/// Whether a signed integer can hold every number of a process.
pub open spec fn process_fits(process: ProcessSessionSummary) -> bool {
    &&& process.started_at_unix_nanos <= i64::MAX
    &&& process.send_bytes <= i64::MAX
    &&& process.receive_bytes <= i64::MAX
    &&& process.connection_count <= i64::MAX
}

/// The row of a process.
pub fn encode_process(process: &ProcessSessionSummary) -> (r: Result<ProcessRow, StorageError>)
    ensures
        r is Ok <==> process_fits(*process),
        match r {
            Ok(row) => process_row_holds(row, *process),
            Err(error) => invalid(
                error,
                too_large(
                    first_too_large(
                        seq![
                            process.started_at_unix_nanos,
                            process.send_bytes,
                            process.receive_bytes,
                            process.connection_count,
                        ],
                    ),
                ),
            ),
        },
{
    let mut values: Vec<u64> = Vec::new();
    values.push(process.started_at_unix_nanos);
    values.push(process.send_bytes);
    values.push(process.receive_bytes);
    values.push(process.connection_count);
    assert(values@ =~= seq![
        process.started_at_unix_nanos,
        process.send_bytes,
        process.receive_bytes,
        process.connection_count,
    ]);
    match to_i64_all(values.as_slice()) {
        Ok(stored) => {
            assert(stored@[0] == values@[0] && stored@[1] == values@[1] && stored@[2] == values@[2]
                && stored@[3] == values@[3]);
            Ok(
                ProcessRow {
                    pid: process.pid as i64,
                    started_at_ns: stored[0],
                    name: process.name.clone(),
                    image_path: text::copy_optional(&process.image_path),
                    send_bytes: stored[1],
                    receive_bytes: stored[2],
                    connection_count: stored[3],
                },
            )
        },
        Err(error) => Err(error),
    }
}

/// The process of a row.
pub fn decode_process(row: ProcessRow) -> (r: Result<ProcessSessionSummary, RowError>)
    ensures
        match r {
            Ok(process) => process_row_holds(row, process),
            Err(error) => error == RowError::OutOfRange,
        },
        r is Ok <==> 0 <= row.pid <= u32::MAX && row.started_at_ns >= 0 && row.send_bytes >= 0
            && row.receive_bytes >= 0 && row.connection_count >= 0,
{
    if row.pid < 0 || row.pid > u32::MAX as i64 || row.started_at_ns < 0 || row.send_bytes < 0
        || row.receive_bytes < 0 || row.connection_count < 0 {
        return Err(RowError::OutOfRange);
    }
    Ok(
        ProcessSessionSummary {
            pid: row.pid as u32,
            started_at_unix_nanos: row.started_at_ns as u64,
            name: row.name,
            image_path: row.image_path,
            send_bytes: row.send_bytes as u64,
            receive_bytes: row.receive_bytes as u64,
            connection_count: row.connection_count as u64,
        },
    )
}

/// A row of the table of endpoints.
#[derive(Debug, Clone, PartialEq, Eq)]
pub struct EndpointRow {
    pub protocol: String,
    pub remote_address: String,
    pub process_name: String,
    pub first_seen_ns: i64,
    pub last_seen_ns: i64,
    pub connection_count: i64,
}

/// Whether a row holds what is known of an endpoint.
pub open spec fn endpoint_row_holds(row: EndpointRow, endpoint: EndpointSummary) -> bool {
    &&& row.protocol == endpoint.protocol
    &&& row.remote_address == endpoint.remote_address
    &&& row.process_name == endpoint.process_name
    &&& row.first_seen_ns == endpoint.first_seen_unix_nanos
    &&& row.last_seen_ns == endpoint.last_seen_unix_nanos
    &&& row.connection_count == endpoint.connection_count
}

/// Whether a signed integer can hold every number of an endpoint.
pub open spec fn endpoint_fits(endpoint: EndpointSummary) -> bool {
    &&& endpoint.first_seen_unix_nanos <= i64::MAX
    &&& endpoint.last_seen_unix_nanos <= i64::MAX
    &&& endpoint.connection_count <= i64::MAX
}

/// The row of an endpoint.
pub fn encode_endpoint(endpoint: &EndpointSummary) -> (r: Result<EndpointRow, StorageError>)
    ensures
        r is Ok <==> endpoint_fits(*endpoint),
        match r {
            Ok(row) => endpoint_row_holds(row, *endpoint),
            Err(error) => invalid(
                error,
                too_large(
                    first_too_large(
                        seq![
                            endpoint.first_seen_unix_nanos,
                            endpoint.last_seen_unix_nanos,
                            endpoint.connection_count,
                        ],
                    ),
                ),
            ),
        },
{
    let mut values: Vec<u64> = Vec::new();
    values.push(endpoint.first_seen_unix_nanos);
    values.push(endpoint.last_seen_unix_nanos);
    values.push(endpoint.connection_count);
    assert(values@ =~= seq![
        endpoint.first_seen_unix_nanos,
        endpoint.last_seen_unix_nanos,
        endpoint.connection_count,
    ]);
    match to_i64_all(values.as_slice()) {
        Ok(stored) => {
            assert(stored@[0] == values@[0] && stored@[1] == values@[1] && stored@[2]
                == values@[2]);
            Ok(
                EndpointRow {
                    protocol: endpoint.protocol.clone(),
                    remote_address: endpoint.remote_address.clone(),
                    process_name: endpoint.process_name.clone(),
                    first_seen_ns: stored[0],
                    last_seen_ns: stored[1],
                    connection_count: stored[2],
                },
            )
        },
        Err(error) => Err(error),
    }
}

/// The endpoint of a row.
pub fn decode_endpoint(row: EndpointRow) -> (r: Result<EndpointSummary, RowError>)
    ensures
        match r {
            Ok(endpoint) => endpoint_row_holds(row, endpoint),
            Err(error) => error == RowError::OutOfRange,
        },
        r is Ok <==> row.first_seen_ns >= 0 && row.last_seen_ns >= 0 && row.connection_count >= 0,
{
    if row.first_seen_ns < 0 || row.last_seen_ns < 0 || row.connection_count < 0 {
        return Err(RowError::OutOfRange);
    }
    Ok(
        EndpointSummary {
            protocol: row.protocol,
            remote_address: row.remote_address,
            process_name: row.process_name,
            first_seen_unix_nanos: row.first_seen_ns as u64,
            last_seen_unix_nanos: row.last_seen_ns as u64,
            connection_count: row.connection_count as u64,
        },
    )
}

/// A row of the table of alerts.
#[derive(Debug, Clone, PartialEq, Eq)]
pub struct AlertRow {
    pub id: i64,
    pub session_id: i64,
    pub occurred_at_ns: i64,
    pub kind: String,
    pub title: String,
    pub detail: String,
    pub process_name: Option<String>,
    pub remote_address: Option<String>,
}

/// Whether a row holds what is known of an alert.
pub open spec fn alert_row_holds(row: AlertRow, alert: AlertRecord) -> bool {
    &&& row.id == alert.id
    &&& row.session_id == alert.session_id.0
    &&& row.occurred_at_ns == alert.occurred_at_unix_nanos
    &&& row.kind@ == session::alert_name(alert.kind)
    &&& row.title == alert.title
    &&& row.detail == alert.detail
    &&& row.process_name == alert.process_name
    &&& row.remote_address == alert.remote_address
}

/// The row of an alert.
pub fn encode_alert(alert: &AlertRecord) -> (r: Result<AlertRow, StorageError>)
    ensures
        r is Ok <==> alert.occurred_at_unix_nanos <= i64::MAX,
        match r {
            Ok(row) => alert_row_holds(row, *alert),
            Err(error) => invalid(error, too_large(alert.occurred_at_unix_nanos)),
        },
{
    match to_i64(alert.occurred_at_unix_nanos) {
        Ok(occurred_at_ns) => Ok(
            AlertRow {
                id: alert.id,
                session_id: alert.session_id.0,
                occurred_at_ns,
                kind: alert.kind.as_str().to_owned(),
                title: alert.title.clone(),
                detail: alert.detail.clone(),
                process_name: text::copy_optional(&alert.process_name),
                remote_address: text::copy_optional(&alert.remote_address),
            },
        ),
        Err(error) => Err(error),
    }
}

/// The alert of a row. A category that is none is noticed before a number out of range.
pub fn decode_alert(row: AlertRow) -> (r: Result<AlertRecord, RowError>)
    ensures
        match r {
            Ok(alert) => alert_row_holds(row, alert),
            Err(RowError::UnknownKind) => forall|kind: AlertKind|
                row.kind@ != #[trigger] session::alert_name(kind),
            Err(RowError::OutOfRange) => row.occurred_at_ns < 0,
            Err(RowError::UnknownStatus) => false,
        },
        r is Ok <==> row.occurred_at_ns >= 0 && exists|kind: AlertKind|
            row.kind@ == #[trigger] session::alert_name(kind),
{
    let kind = match AlertKind::parse(row.kind.as_str()) {
        Some(kind) => kind,
        None => {
            return Err(RowError::UnknownKind);
        },
    };
    assert(row.kind@ == session::alert_name(kind));
    match to_u64(row.occurred_at_ns) {
        Ok(occurred_at_unix_nanos) => Ok(
            AlertRecord {
                id: row.id,
                session_id: SessionId(row.session_id),
                occurred_at_unix_nanos,
                kind,
                title: row.title,
                detail: row.detail,
                process_name: row.process_name,
                remote_address: row.remote_address,
            },
        ),
        Err(error) => Err(error),
    }
}

/// What the database holds of a record determines the record: two records with one row are one.
pub proof fn law_rows_determine_records(
    bucket_row: BucketRow,
    buckets: (SessionBucket, SessionBucket),
    process_row: ProcessRow,
    processes: (ProcessSessionSummary, ProcessSessionSummary),
    endpoint_row: EndpointRow,
    endpoints: (EndpointSummary, EndpointSummary),
    alert_row: AlertRow,
    alerts: (AlertRecord, AlertRecord),
)
    ensures
        bucket_row_holds(bucket_row, buckets.0) && bucket_row_holds(bucket_row, buckets.1)
            ==> buckets.0 == buckets.1,
        process_row_holds(process_row, processes.0) && process_row_holds(process_row, processes.1)
            ==> processes.0 == processes.1,
        endpoint_row_holds(endpoint_row, endpoints.0) && endpoint_row_holds(
            endpoint_row,
            endpoints.1,
        ) ==> endpoints.0 == endpoints.1,
        alert_row_holds(alert_row, alerts.0) && alert_row_holds(alert_row, alerts.1) ==> alerts.0
            == alerts.1,
{
    if alert_row_holds(alert_row, alerts.0) && alert_row_holds(alert_row, alerts.1) {
        session::law_alert_names_differ(alerts.0.kind, alerts.1.kind);
    }
}

/// A stored row holds the fields of its record under their names.
pub proof fn law_rows_hold_their_fields(
    bucket_row: BucketRow,
    bucket: SessionBucket,
    process_row: ProcessRow,
    process: ProcessSessionSummary,
    endpoint_row: EndpointRow,
    endpoint: EndpointSummary,
    alert_row: AlertRow,
    alert: AlertRecord,
)
    ensures
        bucket_row_holds(bucket_row, bucket) <==> bucket_row.start_ns == bucket.start_unix_nanos
            && bucket_row.send_bytes == bucket.send_bytes && bucket_row.receive_bytes
            == bucket.receive_bytes && bucket_row.event_count == bucket.event_count,
        process_row_holds(process_row, process) <==> process_row.pid == process.pid
            && process_row.started_at_ns == process.started_at_unix_nanos && process_row.name
            == process.name && process_row.image_path == process.image_path
            && process_row.send_bytes == process.send_bytes && process_row.receive_bytes
            == process.receive_bytes && process_row.connection_count == process.connection_count,
        endpoint_row_holds(endpoint_row, endpoint) <==> endpoint_row.protocol == endpoint.protocol
            && endpoint_row.remote_address == endpoint.remote_address && endpoint_row.process_name
            == endpoint.process_name && endpoint_row.first_seen_ns == endpoint.first_seen_unix_nanos
            && endpoint_row.last_seen_ns == endpoint.last_seen_unix_nanos
            && endpoint_row.connection_count == endpoint.connection_count,
        alert_row_holds(alert_row, alert) <==> alert_row.id == alert.id && alert_row.session_id
            == alert.session_id.0 && alert_row.occurred_at_ns == alert.occurred_at_unix_nanos
            && alert_row.kind@ == session::alert_name(alert.kind) && alert_row.title == alert.title
            && alert_row.detail == alert.detail && alert_row.process_name == alert.process_name
            && alert_row.remote_address == alert.remote_address,
{
}

} // verus!
