//! A session as JSON, CSV and Markdown.
use crate::json;
use crate::json::Json;
use crate::quoting;
use crate::session;
use crate::session::{
    AlertKind, AlertRecord, EndpointSummary, ExportFormat, ProcessSessionSummary, SessionBucket,
    SessionDetail, SessionRecord, SessionStatus,
};
use crate::table;
use crate::text;
use vstd::prelude::*;

verus! {

/// A number, or `null`.
pub open spec fn number_or_null(n: Option<u64>) -> Seq<char> {
    match n {
        Some(n) => text::decimal(n as nat),
        None => "null"@,
    }
}

fn ended_json(n: Option<u64>) -> (text: String)
    ensures
        text@ == number_or_null(n),
{
    match n {
        Some(n) => text::decimal_text(n),
        None => "null".to_owned(),
    }
}

/// A number that may be there, in the words of the programmer.
pub open spec fn debug_number(n: Option<u64>) -> Seq<char> {
    match n {
        Some(n) => "Some("@ + text::decimal(n as nat) + ")"@,
        None => "None"@,
    }
}

fn ended_debug(n: Option<u64>) -> (text: String)
    ensures
        text@ == debug_number(n),
{
    match n {
        Some(n) => {
            let mut text = "Some(".to_owned();
            text::put_number(&mut text, n);
            text.append(")");
            text
        },
        None => "None".to_owned(),
    }
}

/// The end of a session in words.
pub open spec fn end_words(n: Option<u64>) -> Seq<char> {
    match n {
        Some(n) => text::decimal(n as nat) + " ns"@,
        None => "—"@,
    }
}

fn ended_words(n: Option<u64>) -> (text: String)
    ensures
        text@ == end_words(n),
{
    match n {
        Some(n) => {
            let mut text = text::decimal_text(n);
            text.append(" ns");
            text
        },
        None => "—".to_owned(),
    }
}

/// A bucket in JSON.
pub open spec fn bucket_json(bucket: SessionBucket) -> Seq<char> {
    "\n    {\"start_ns\": "@
        + text::decimal(bucket.start_unix_nanos as nat)
        + ", \"send_bytes\": "@
        + text::decimal(bucket.send_bytes as nat)
        + ", \"receive_bytes\": "@
        + text::decimal(bucket.receive_bytes as nat)
        + ", \"event_count\": "@
        + text::decimal(bucket.event_count as nat)
        + "}"@
}

fn write_bucket_json(bucket: &SessionBucket) -> (out: String)
    ensures
        out@ == bucket_json(*bucket),
{
    let mut out = "\n    {\"start_ns\": ".to_owned();
    text::put_number(&mut out, bucket.start_unix_nanos);
    out.append(", \"send_bytes\": ");
    text::put_number(&mut out, bucket.send_bytes);
    out.append(", \"receive_bytes\": ");
    text::put_number(&mut out, bucket.receive_bytes);
    out.append(", \"event_count\": ");
    text::put_number(&mut out, bucket.event_count);
    out.append("}");
    out
}

/// A process in JSON.
pub open spec fn process_json(process: ProcessSessionSummary) -> Seq<char> {
    "\n    {\"pid\": "@
        + text::decimal(process.pid as nat)
        + ", \"started_at_ns\": "@
        + text::decimal(process.started_at_unix_nanos as nat)
        + ", \"name\": "@
        + quoting::json_control_string(process.name@)
        + ", \"image_path\": "@
        + quoting::json_control_optional(text::optional(process.image_path))
        + ", \"send_bytes\": "@
        + text::decimal(process.send_bytes as nat)
        + ", \"receive_bytes\": "@
        + text::decimal(process.receive_bytes as nat)
        + ", \"connection_count\": "@
        + text::decimal(process.connection_count as nat)
        + "}"@
}

fn write_process_json(process: &ProcessSessionSummary) -> (out: String)
    ensures
        out@ == process_json(*process),
{
    let mut out = "\n    {\"pid\": ".to_owned();
    text::put_number(&mut out, process.pid as u64);
    out.append(", \"started_at_ns\": ");
    text::put_number(&mut out, process.started_at_unix_nanos);
    out.append(", \"name\": ");
    quoting::put_json_control(&mut out, process.name.as_str());
    out.append(", \"image_path\": ");
    quoting::put_json_control_optional(&mut out, &process.image_path);
    out.append(", \"send_bytes\": ");
    text::put_number(&mut out, process.send_bytes);
    out.append(", \"receive_bytes\": ");
    text::put_number(&mut out, process.receive_bytes);
    out.append(", \"connection_count\": ");
    text::put_number(&mut out, process.connection_count);
    out.append("}");
    out
}

/// An endpoint in JSON.
pub open spec fn endpoint_json(endpoint: EndpointSummary) -> Seq<char> {
    "\n    {\"protocol\": "@
        + quoting::json_control_string(endpoint.protocol@)
        + ", \"remote_address\": "@
        + quoting::json_control_string(endpoint.remote_address@)
        + ", \"process_name\": "@
        + quoting::json_control_string(endpoint.process_name@)
        + ", \"first_seen_ns\": "@
        + text::decimal(endpoint.first_seen_unix_nanos as nat)
        + ", \"last_seen_ns\": "@
        + text::decimal(endpoint.last_seen_unix_nanos as nat)
        + ", \"connection_count\": "@
        + text::decimal(endpoint.connection_count as nat)
        + "}"@
}

fn write_endpoint_json(endpoint: &EndpointSummary) -> (out: String)
    ensures
        out@ == endpoint_json(*endpoint),
{
    let mut out = "\n    {\"protocol\": ".to_owned();
    quoting::put_json_control(&mut out, endpoint.protocol.as_str());
    out.append(", \"remote_address\": ");
    quoting::put_json_control(&mut out, endpoint.remote_address.as_str());
    out.append(", \"process_name\": ");
    quoting::put_json_control(&mut out, endpoint.process_name.as_str());
    out.append(", \"first_seen_ns\": ");
    text::put_number(&mut out, endpoint.first_seen_unix_nanos);
    out.append(", \"last_seen_ns\": ");
    text::put_number(&mut out, endpoint.last_seen_unix_nanos);
    out.append(", \"connection_count\": ");
    text::put_number(&mut out, endpoint.connection_count);
    out.append("}");
    out
}

/// An alert in JSON.
pub open spec fn alert_json(alert: AlertRecord) -> Seq<char> {
    "\n    {\"id\": "@
        + text::signed_decimal(alert.id as int)
        + ", \"occurred_at_ns\": "@
        + text::decimal(alert.occurred_at_unix_nanos as nat)
        + ", \"kind\": \""@
        + session::alert_name(alert.kind)
        + "\", \"title\": "@
        + quoting::json_control_string(alert.title@)
        + ", \"detail\": "@
        + quoting::json_control_string(alert.detail@)
        + ", \"process_name\": "@
        + quoting::json_control_optional(text::optional(alert.process_name))
        + ", \"remote_address\": "@
        + quoting::json_control_optional(text::optional(alert.remote_address))
        + "}"@
}

fn write_alert_json(alert: &AlertRecord) -> (out: String)
    ensures
        out@ == alert_json(*alert),
{
    let mut out = "\n    {\"id\": ".to_owned();
    out.append(text::signed_decimal_text(alert.id).as_str());
    out.append(", \"occurred_at_ns\": ");
    text::put_number(&mut out, alert.occurred_at_unix_nanos);
    out.append(", \"kind\": \"");
    out.append(alert.kind.as_str());
    out.append("\", \"title\": ");
    quoting::put_json_control(&mut out, alert.title.as_str());
    out.append(", \"detail\": ");
    quoting::put_json_control(&mut out, alert.detail.as_str());
    out.append(", \"process_name\": ");
    quoting::put_json_control_optional(&mut out, &alert.process_name);
    out.append(", \"remote_address\": ");
    quoting::put_json_control_optional(&mut out, &alert.remote_address);
    out.append("}");
    out
}

/// A session in JSON.
pub open spec fn session_json(session: SessionRecord) -> Seq<char> {
    "{\n  \"schema_version\": 1,\n  \"session\": {\"id\": "@
        + text::signed_decimal(session.id.0 as int)
        + ", \"name\": "@
        + quoting::json_control_string(session.name@)
        + ", \"notes\": "@
        + quoting::json_control_string(session.notes@)
        + ", \"status\": \""@
        + session::status_name(session.status)
        + "\", \"started_at_ns\": "@
        + text::decimal(session.started_at_unix_nanos as nat)
        + ", \"ended_at_ns\": "@
        + number_or_null(session.ended_at_unix_nanos)
        + ", \"send_bytes\": "@
        + text::decimal(session.send_bytes as nat)
        + ", \"receive_bytes\": "@
        + text::decimal(session.receive_bytes as nat)
        + ", \"event_count\": "@
        + text::decimal(session.event_count as nat)
        + "},\n  \"buckets\": ["@
}

fn write_session_json(session: &SessionRecord) -> (out: String)
    ensures
        out@ == session_json(*session),
{
    let mut out = "{\n  \"schema_version\": 1,\n  \"session\": {\"id\": ".to_owned();
    out.append(session.id.text().as_str());
    out.append(", \"name\": ");
    quoting::put_json_control(&mut out, session.name.as_str());
    out.append(", \"notes\": ");
    quoting::put_json_control(&mut out, session.notes.as_str());
    out.append(", \"status\": \"");
    out.append(session.status.as_str());
    out.append("\", \"started_at_ns\": ");
    text::put_number(&mut out, session.started_at_unix_nanos);
    out.append(", \"ended_at_ns\": ");
    out.append(ended_json(session.ended_at_unix_nanos).as_str());
    out.append(", \"send_bytes\": ");
    text::put_number(&mut out, session.send_bytes);
    out.append(", \"receive_bytes\": ");
    text::put_number(&mut out, session.receive_bytes);
    out.append(", \"event_count\": ");
    text::put_number(&mut out, session.event_count);
    out.append("},\n  \"buckets\": [");
    out
}

/// What is said of the end and the notes of a session.
pub open spec fn session_remark(session: SessionRecord) -> Seq<char> {
    "ended_at_ns="@
        + debug_number(session.ended_at_unix_nanos)
        + "; notes="@
        + session.notes@
}

fn write_session_remark(session: &SessionRecord) -> (out: String)
    ensures
        out@ == session_remark(*session),
{
    let mut out = "ended_at_ns=".to_owned();
    out.append(ended_debug(session.ended_at_unix_nanos).as_str());
    out.append("; notes=");
    out.append(session.notes.as_str());
    out
}

/// What is said of the start and the image of a process.
pub open spec fn process_remark(process: ProcessSessionSummary) -> Seq<char> {
    "started_at_ns="@
        + text::decimal(process.started_at_unix_nanos as nat)
        + "; image_path="@
        + text::text_or_none(text::optional(process.image_path))
}

fn write_process_remark(process: &ProcessSessionSummary) -> (out: String)
    ensures
        out@ == process_remark(*process),
{
    let mut out = "started_at_ns=".to_owned();
    text::put_number(&mut out, process.started_at_unix_nanos);
    out.append("; image_path=");
    out.append(text::or_empty(&process.image_path).as_str());
    out
}

/// What is said of when an endpoint was seen.
pub open spec fn endpoint_remark(endpoint: EndpointSummary) -> Seq<char> {
    "first_seen_ns="@
        + text::decimal(endpoint.first_seen_unix_nanos as nat)
        + "; last_seen_ns="@
        + text::decimal(endpoint.last_seen_unix_nanos as nat)
}

fn write_endpoint_remark(endpoint: &EndpointSummary) -> (out: String)
    ensures
        out@ == endpoint_remark(*endpoint),
{
    let mut out = "first_seen_ns=".to_owned();
    text::put_number(&mut out, endpoint.first_seen_unix_nanos);
    out.append("; last_seen_ns=");
    text::put_number(&mut out, endpoint.last_seen_unix_nanos);
    out
}

/// What is said of an alert.
pub open spec fn alert_remark(alert: AlertRecord) -> Seq<char> {
    ""@
        + alert.title@
        + ": "@
        + alert.detail@
        + "; process="@
        + text::text_or_none(text::optional(alert.process_name))
        + "; remote="@
        + text::text_or_none(text::optional(alert.remote_address))
}

fn write_alert_remark(alert: &AlertRecord) -> (out: String)
    ensures
        out@ == alert_remark(*alert),
{
    let mut out = "".to_owned();
    out.append(alert.title.as_str());
    out.append(": ");
    out.append(alert.detail.as_str());
    out.append("; process=");
    out.append(text::or_empty(&alert.process_name).as_str());
    out.append("; remote=");
    out.append(text::or_empty(&alert.remote_address).as_str());
    out
}

/// A session in CSV.
pub open spec fn session_row(session: SessionRecord) -> Seq<char> {
    "session,"@
        + text::decimal(session.started_at_unix_nanos as nat)
        + ",,"@
        + quoting::csv_field(session.name@)
        + ","@
        + session::status_name(session.status)
        + ",,"@
        + text::decimal(session.send_bytes as nat)
        + ","@
        + text::decimal(session.receive_bytes as nat)
        + ","@
        + text::decimal(session.event_count as nat)
        + ",,"@
        + quoting::csv_field(session_remark(session))
        + "\r\n"@
}

fn write_session_row(session: &SessionRecord) -> (out: String)
    ensures
        out@ == session_row(*session),
{
    let mut out = "session,".to_owned();
    text::put_number(&mut out, session.started_at_unix_nanos);
    out.append(",,");
    quoting::put_csv(&mut out, session.name.as_str());
    out.append(",");
    out.append(session.status.as_str());
    out.append(",,");
    text::put_number(&mut out, session.send_bytes);
    out.append(",");
    text::put_number(&mut out, session.receive_bytes);
    out.append(",");
    text::put_number(&mut out, session.event_count);
    out.append(",,");
    quoting::put_csv(&mut out, write_session_remark(session).as_str());
    out.append("\r\n");
    out
}

/// A bucket in CSV.
pub open spec fn bucket_row(bucket: SessionBucket) -> Seq<char> {
    "bucket,"@
        + text::decimal(bucket.start_unix_nanos as nat)
        + ",,,,,"@
        + text::decimal(bucket.send_bytes as nat)
        + ","@
        + text::decimal(bucket.receive_bytes as nat)
        + ","@
        + text::decimal(bucket.event_count as nat)
        + ",,\r\n"@
}

fn write_bucket_row(bucket: &SessionBucket) -> (out: String)
    ensures
        out@ == bucket_row(*bucket),
{
    let mut out = "bucket,".to_owned();
    text::put_number(&mut out, bucket.start_unix_nanos);
    out.append(",,,,,");
    text::put_number(&mut out, bucket.send_bytes);
    out.append(",");
    text::put_number(&mut out, bucket.receive_bytes);
    out.append(",");
    text::put_number(&mut out, bucket.event_count);
    out.append(",,\r\n");
    out
}

/// A process in CSV.
pub open spec fn process_row(process: ProcessSessionSummary) -> Seq<char> {
    "process,,"@
        + text::decimal(process.pid as nat)
        + ","@
        + quoting::csv_field(process.name@)
        + ",,,"@
        + text::decimal(process.send_bytes as nat)
        + ","@
        + text::decimal(process.receive_bytes as nat)
        + ",,"@
        + text::decimal(process.connection_count as nat)
        + ","@
        + quoting::csv_field(process_remark(process))
        + "\r\n"@
}

fn write_process_row(process: &ProcessSessionSummary) -> (out: String)
    ensures
        out@ == process_row(*process),
{
    let mut out = "process,,".to_owned();
    text::put_number(&mut out, process.pid as u64);
    out.append(",");
    quoting::put_csv(&mut out, process.name.as_str());
    out.append(",,,");
    text::put_number(&mut out, process.send_bytes);
    out.append(",");
    text::put_number(&mut out, process.receive_bytes);
    out.append(",,");
    text::put_number(&mut out, process.connection_count);
    out.append(",");
    quoting::put_csv(&mut out, write_process_remark(process).as_str());
    out.append("\r\n");
    out
}

/// An endpoint in CSV.
pub open spec fn endpoint_row(endpoint: EndpointSummary) -> Seq<char> {
    "endpoint,,,"@
        + quoting::csv_field(endpoint.process_name@)
        + ","@
        + quoting::csv_field(endpoint.protocol@)
        + ","@
        + quoting::csv_field(endpoint.remote_address@)
        + ",,,,"@
        + text::decimal(endpoint.connection_count as nat)
        + ","@
        + quoting::csv_field(endpoint_remark(endpoint))
        + "\r\n"@
}

fn write_endpoint_row(endpoint: &EndpointSummary) -> (out: String)
    ensures
        out@ == endpoint_row(*endpoint),
{
    let mut out = "endpoint,,,".to_owned();
    quoting::put_csv(&mut out, endpoint.process_name.as_str());
    out.append(",");
    quoting::put_csv(&mut out, endpoint.protocol.as_str());
    out.append(",");
    quoting::put_csv(&mut out, endpoint.remote_address.as_str());
    out.append(",,,,");
    text::put_number(&mut out, endpoint.connection_count);
    out.append(",");
    quoting::put_csv(&mut out, write_endpoint_remark(endpoint).as_str());
    out.append("\r\n");
    out
}

/// An alert in CSV.
pub open spec fn alert_row(alert: AlertRecord) -> Seq<char> {
    "alert,"@
        + text::decimal(alert.occurred_at_unix_nanos as nat)
        + ",,,"@
        + session::alert_name(alert.kind)
        + ",,,,,,"@
        + quoting::csv_field(alert_remark(alert))
        + "\r\n"@
}

fn write_alert_row(alert: &AlertRecord) -> (out: String)
    ensures
        out@ == alert_row(*alert),
{
    let mut out = "alert,".to_owned();
    text::put_number(&mut out, alert.occurred_at_unix_nanos);
    out.append(",,,");
    out.append(alert.kind.as_str());
    out.append(",,,,,,");
    quoting::put_csv(&mut out, write_alert_remark(alert).as_str());
    out.append("\r\n");
    out
}

/// A process in Markdown.
pub open spec fn process_line(process: ProcessSessionSummary) -> Seq<char> {
    "| "@
        + quoting::markdown_cell(process.name@)
        + " | "@
        + text::decimal(process.pid as nat)
        + " | "@
        + text::decimal(process.send_bytes as nat)
        + " B | "@
        + text::decimal(process.receive_bytes as nat)
        + " B | "@
        + text::decimal(process.connection_count as nat)
        + " |\n"@
}

fn write_process_line(process: &ProcessSessionSummary) -> (out: String)
    ensures
        out@ == process_line(*process),
{
    let mut out = "| ".to_owned();
    quoting::put_markdown(&mut out, process.name.as_str());
    out.append(" | ");
    text::put_number(&mut out, process.pid as u64);
    out.append(" | ");
    text::put_number(&mut out, process.send_bytes);
    out.append(" B | ");
    text::put_number(&mut out, process.receive_bytes);
    out.append(" B | ");
    text::put_number(&mut out, process.connection_count);
    out.append(" |\n");
    out
}

/// An endpoint in Markdown.
pub open spec fn endpoint_line(endpoint: EndpointSummary) -> Seq<char> {
    "| "@
        + quoting::markdown_cell(endpoint.protocol@)
        + " | "@
        + quoting::markdown_cell(endpoint.remote_address@)
        + " | "@
        + quoting::markdown_cell(endpoint.process_name@)
        + " | "@
        + text::decimal(endpoint.connection_count as nat)
        + " |\n"@
}

fn write_endpoint_line(endpoint: &EndpointSummary) -> (out: String)
    ensures
        out@ == endpoint_line(*endpoint),
{
    let mut out = "| ".to_owned();
    quoting::put_markdown(&mut out, endpoint.protocol.as_str());
    out.append(" | ");
    quoting::put_markdown(&mut out, endpoint.remote_address.as_str());
    out.append(" | ");
    quoting::put_markdown(&mut out, endpoint.process_name.as_str());
    out.append(" | ");
    text::put_number(&mut out, endpoint.connection_count);
    out.append(" |\n");
    out
}

/// An alert in Markdown.
pub open spec fn alert_line(alert: AlertRecord) -> Seq<char> {
    "- **"@
        + quoting::markdown_cell(alert.title@)
        + "**："@
        + quoting::markdown_cell(alert.detail@)
        + "\n"@
}

fn write_alert_line(alert: &AlertRecord) -> (out: String)
    ensures
        out@ == alert_line(*alert),
{
    let mut out = "- **".to_owned();
    quoting::put_markdown(&mut out, alert.title.as_str());
    out.append("**：");
    quoting::put_markdown(&mut out, alert.detail.as_str());
    out.append("\n");
    out
}

/// The head of a report.
pub open spec fn report_head(detail: SessionDetail) -> Seq<char> {
    "# ProcNet Recorder 会话报告\n\n- 会话："@
        + quoting::markdown_cell(detail.session.name@)
        + "\n- 备注："@
        + quoting::markdown_cell(detail.session.notes@)
        + "\n- 状态："@
        + session::status_name(detail.session.status)
        + "\n- 开始："@
        + text::decimal(detail.session.started_at_unix_nanos as nat)
        + " ns\n- 结束："@
        + end_words(detail.session.ended_at_unix_nanos)
        + "\n- 上传："@
        + text::decimal(detail.session.send_bytes as nat)
        + " B\n- 下载："@
        + text::decimal(detail.session.receive_bytes as nat)
        + " B\n- 事件："@
        + text::decimal(detail.session.event_count as nat)
        + "\n- 进程："@
        + text::decimal(detail.processes@.len() as nat)
        + "\n- 远程端点："@
        + text::decimal(detail.endpoints@.len() as nat)
        + "\n- 提醒："@
        + text::decimal(detail.alerts@.len() as nat)
        + "\n\n## 进程排行\n\n| 进程 | PID | 上传 | 下载 | 连接 |\n|---|---:|---:|---:|---:|\n"@
}

fn write_report_head(detail: &SessionDetail) -> (out: String)
    ensures
        out@ == report_head(*detail),
{
    let mut out = "# ProcNet Recorder 会话报告\n\n- 会话：".to_owned();
    quoting::put_markdown(&mut out, detail.session.name.as_str());
    out.append("\n- 备注：");
    quoting::put_markdown(&mut out, detail.session.notes.as_str());
    out.append("\n- 状态：");
    out.append(detail.session.status.as_str());
    out.append("\n- 开始：");
    text::put_number(&mut out, detail.session.started_at_unix_nanos);
    out.append(" ns\n- 结束：");
    out.append(ended_words(detail.session.ended_at_unix_nanos).as_str());
    out.append("\n- 上传：");
    text::put_number(&mut out, detail.session.send_bytes);
    out.append(" B\n- 下载：");
    text::put_number(&mut out, detail.session.receive_bytes);
    out.append(" B\n- 事件：");
    text::put_number(&mut out, detail.session.event_count);
    out.append("\n- 进程：");
    text::put_number(&mut out, detail.processes.len() as u64);
    out.append("\n- 远程端点：");
    text::put_number(&mut out, detail.endpoints.len() as u64);
    out.append("\n- 提醒：");
    text::put_number(&mut out, detail.alerts.len() as u64);
    out.append("\n\n## 进程排行\n\n| 进程 | PID | 上传 | 下载 | 连接 |\n|---|---:|---:|---:|---:|\n");
    out
}

fn put_buckets_json(out: &mut String, items: &Vec<SessionBucket>)
    ensures
        final(out)@ == old(out)@ + text::joined(
            items@.map_values(|item: SessionBucket| bucket_json(item)),
            ","@,
        ),
{
    let write = |item: &SessionBucket| -> (r: String)
        ensures
            r@ == bucket_json(*item)
    {
        write_bucket_json(item)
    };
    let ghost written = |item: SessionBucket| bucket_json(item);
    let parts = text::each(items.as_slice(), write, Ghost(written));
    out.append(text::join(parts.as_slice(), ",").as_str());
}

fn put_processes_json(out: &mut String, items: &Vec<ProcessSessionSummary>)
    ensures
        final(out)@ == old(out)@ + text::joined(
            items@.map_values(|item: ProcessSessionSummary| process_json(item)),
            ","@,
        ),
{
    let write = |item: &ProcessSessionSummary| -> (r: String)
        ensures
            r@ == process_json(*item)
    {
        write_process_json(item)
    };
    let ghost written = |item: ProcessSessionSummary| process_json(item);
    let parts = text::each(items.as_slice(), write, Ghost(written));
    out.append(text::join(parts.as_slice(), ",").as_str());
}

fn put_endpoints_json(out: &mut String, items: &Vec<EndpointSummary>)
    ensures
        final(out)@ == old(out)@ + text::joined(
            items@.map_values(|item: EndpointSummary| endpoint_json(item)),
            ","@,
        ),
{
    let write = |item: &EndpointSummary| -> (r: String)
        ensures
            r@ == endpoint_json(*item)
    {
        write_endpoint_json(item)
    };
    let ghost written = |item: EndpointSummary| endpoint_json(item);
    let parts = text::each(items.as_slice(), write, Ghost(written));
    out.append(text::join(parts.as_slice(), ",").as_str());
}

fn put_alerts_json(out: &mut String, items: &Vec<AlertRecord>)
    ensures
        final(out)@ == old(out)@ + text::joined(
            items@.map_values(|item: AlertRecord| alert_json(item)),
            ","@,
        ),
{
    let write = |item: &AlertRecord| -> (r: String)
        ensures
            r@ == alert_json(*item)
    {
        write_alert_json(item)
    };
    let ghost written = |item: AlertRecord| alert_json(item);
    let parts = text::each(items.as_slice(), write, Ghost(written));
    out.append(text::join(parts.as_slice(), ",").as_str());
}

fn put_bucket_rows(out: &mut String, items: &Vec<SessionBucket>)
    ensures
        final(out)@ == old(out)@ + text::flat(
            items@.map_values(|item: SessionBucket| bucket_row(item)),
        ),
{
    let write = |item: &SessionBucket| -> (r: String)
        ensures
            r@ == bucket_row(*item)
    {
        write_bucket_row(item)
    };
    let ghost written = |item: SessionBucket| bucket_row(item);
    let parts = text::each(items.as_slice(), write, Ghost(written));
    text::put_all(out, &parts);
}

fn put_process_rows(out: &mut String, items: &Vec<ProcessSessionSummary>)
    ensures
        final(out)@ == old(out)@ + text::flat(
            items@.map_values(|item: ProcessSessionSummary| process_row(item)),
        ),
{
    let write = |item: &ProcessSessionSummary| -> (r: String)
        ensures
            r@ == process_row(*item)
    {
        write_process_row(item)
    };
    let ghost written = |item: ProcessSessionSummary| process_row(item);
    let parts = text::each(items.as_slice(), write, Ghost(written));
    text::put_all(out, &parts);
}

fn put_endpoint_rows(out: &mut String, items: &Vec<EndpointSummary>)
    ensures
        final(out)@ == old(out)@ + text::flat(
            items@.map_values(|item: EndpointSummary| endpoint_row(item)),
        ),
{
    let write = |item: &EndpointSummary| -> (r: String)
        ensures
            r@ == endpoint_row(*item)
    {
        write_endpoint_row(item)
    };
    let ghost written = |item: EndpointSummary| endpoint_row(item);
    let parts = text::each(items.as_slice(), write, Ghost(written));
    text::put_all(out, &parts);
}

fn put_alert_rows(out: &mut String, items: &Vec<AlertRecord>)
    ensures
        final(out)@ == old(out)@ + text::flat(
            items@.map_values(|item: AlertRecord| alert_row(item)),
        ),
{
    let write = |item: &AlertRecord| -> (r: String)
        ensures
            r@ == alert_row(*item)
    {
        write_alert_row(item)
    };
    let ghost written = |item: AlertRecord| alert_row(item);
    let parts = text::each(items.as_slice(), write, Ghost(written));
    text::put_all(out, &parts);
}

fn put_process_lines(out: &mut String, items: &Vec<ProcessSessionSummary>)
    ensures
        final(out)@ == old(out)@ + text::flat(
            items@.map_values(|item: ProcessSessionSummary| process_line(item)),
        ),
{
    let write = |item: &ProcessSessionSummary| -> (r: String)
        ensures
            r@ == process_line(*item)
    {
        write_process_line(item)
    };
    let ghost written = |item: ProcessSessionSummary| process_line(item);
    let parts = text::each(items.as_slice(), write, Ghost(written));
    text::put_all(out, &parts);
}

fn put_endpoint_lines(out: &mut String, items: &Vec<EndpointSummary>)
    ensures
        final(out)@ == old(out)@ + text::flat(
            items@.map_values(|item: EndpointSummary| endpoint_line(item)),
        ),
{
    let write = |item: &EndpointSummary| -> (r: String)
        ensures
            r@ == endpoint_line(*item)
    {
        write_endpoint_line(item)
    };
    let ghost written = |item: EndpointSummary| endpoint_line(item);
    let parts = text::each(items.as_slice(), write, Ghost(written));
    text::put_all(out, &parts);
}

fn put_alert_lines(out: &mut String, items: &Vec<AlertRecord>)
    ensures
        final(out)@ == old(out)@ + text::flat(
            items@.map_values(|item: AlertRecord| alert_line(item)),
        ),
{
    let write = |item: &AlertRecord| -> (r: String)
        ensures
            r@ == alert_line(*item)
    {
        write_alert_line(item)
    };
    let ghost written = |item: AlertRecord| alert_line(item);
    let parts = text::each(items.as_slice(), write, Ghost(written));
    text::put_all(out, &parts);
}

/// A session and everything stored of it in JSON.
pub open spec fn detail_json(detail: SessionDetail) -> Seq<char> {
    session_json(detail.session)
        + text::joined(detail.buckets@.map_values(|item: SessionBucket| bucket_json(item)), ","@)
        + "\n  ],\n  \"processes\": ["@
        + text::joined(detail.processes@.map_values(|item: ProcessSessionSummary| process_json(item)), ","@)
        + "\n  ],\n  \"endpoints\": ["@
        + text::joined(detail.endpoints@.map_values(|item: EndpointSummary| endpoint_json(item)), ","@)
        + "\n  ],\n  \"alerts\": ["@
        + text::joined(detail.alerts@.map_values(|item: AlertRecord| alert_json(item)), ","@)
        + "\n  ]\n}\n"@
}

/// A session and everything stored of it in JSON.
pub fn render_session_json(detail: &SessionDetail) -> (out: String)
    ensures
        out@ == detail_json(*detail),
{
    let mut out = write_session_json(&detail.session);
    put_buckets_json(&mut out, &detail.buckets);
    out.append("\n  ],\n  \"processes\": [");
    put_processes_json(&mut out, &detail.processes);
    out.append("\n  ],\n  \"endpoints\": [");
    put_endpoints_json(&mut out, &detail.endpoints);
    out.append("\n  ],\n  \"alerts\": [");
    put_alerts_json(&mut out, &detail.alerts);
    out.append("\n  ]\n}\n");
    out
}

/// A session and everything stored of it in CSV.
pub open spec fn detail_csv(detail: SessionDetail) -> Seq<char> {
    "section,start_ns,pid,name,protocol,remote_address,send_bytes,receive_bytes,event_count,connection_count,detail\r\n"@
        + session_row(detail.session)
        + text::flat(detail.buckets@.map_values(|item: SessionBucket| bucket_row(item)))
        + text::flat(detail.processes@.map_values(|item: ProcessSessionSummary| process_row(item)))
        + text::flat(detail.endpoints@.map_values(|item: EndpointSummary| endpoint_row(item)))
        + text::flat(detail.alerts@.map_values(|item: AlertRecord| alert_row(item)))
}

/// A session and everything stored of it in CSV.
pub fn render_session_csv(detail: &SessionDetail) -> (out: String)
    ensures
        out@ == detail_csv(*detail),
{
    let mut out =
        "section,start_ns,pid,name,protocol,remote_address,send_bytes,receive_bytes,event_count,connection_count,detail\r\n".to_owned();
    out.append(write_session_row(&detail.session).as_str());
    put_bucket_rows(&mut out, &detail.buckets);
    put_process_rows(&mut out, &detail.processes);
    put_endpoint_rows(&mut out, &detail.endpoints);
    put_alert_rows(&mut out, &detail.alerts);
    out
}

/// A session and what is stored of its processes, endpoints and alerts in Markdown.
pub open spec fn detail_markdown(detail: SessionDetail) -> Seq<char> {
    report_head(detail)
        + text::flat(detail.processes@.map_values(|item: ProcessSessionSummary| process_line(item)))
        + "\n## 远程端点\n\n| 协议 | 地址 | 进程 | 连接 |\n|---|---|---|---:|\n"@
        + text::flat(detail.endpoints@.map_values(|item: EndpointSummary| endpoint_line(item)))
        + "\n## 提醒\n\n"@
        + (if detail.alerts@.len() == 0 {
        "无。\n"@
    } else {
        text::flat(detail.alerts@.map_values(|item: AlertRecord| alert_line(item)))
    })
}

/// A session and what is stored of its processes, endpoints and alerts in Markdown.
pub fn render_session_markdown(detail: &SessionDetail) -> (out: String)
    ensures
        out@ == detail_markdown(*detail),
{
    let mut out = write_report_head(detail);
    put_process_lines(&mut out, &detail.processes);
    out.append("\n## 远程端点\n\n| 协议 | 地址 | 进程 | 连接 |\n|---|---|---|---:|\n");
    put_endpoint_lines(&mut out, &detail.endpoints);
    out.append("\n## 提醒\n\n");
    if detail.alerts.len() == 0 {
        out.append("无。\n");
    } else {
        put_alert_lines(&mut out, &detail.alerts);
    }
    out
}

/// A session in a format.
pub open spec fn exported(detail: SessionDetail, format: ExportFormat) -> Seq<char> {
    match format {
        ExportFormat::Json => detail_json(detail),
        ExportFormat::Csv => detail_csv(detail),
        ExportFormat::Markdown => detail_markdown(detail),
    }
}

/// A session in a format.
pub fn render_session(detail: &SessionDetail, format: ExportFormat) -> (out: String)
    ensures
        out@ == exported(*detail, format),
{
    match format {
        ExportFormat::Json => render_session_json(detail),
        ExportFormat::Csv => render_session_csv(detail),
        ExportFormat::Markdown => render_session_markdown(detail),
    }
}

/// The names of alerts hold no mark that a quotation would have to spell otherwise.
proof fn lemma_alert_names_are_plain(kind: AlertKind)
    ensures
        json::plain(session::alert_name(kind)),
{
    reveal_strlit("new_process");
    reveal_strlit("new_endpoint");
    reveal_strlit("upload_threshold");
    reveal_strlit("download_threshold");
    reveal_strlit("traffic_spike");
    reveal_strlit("risk_event");
}

/// The names of a session's states hold no mark that a quotation would have to spell otherwise.
proof fn lemma_status_names_are_plain(status: SessionStatus)
    ensures
        json::plain(session::status_name(status)),
{
    reveal_strlit("recording");
    reveal_strlit("completed");
    reveal_strlit("interrupted");
}

/// The number that may be there as a value.
spec fn number_value(n: Option<u64>) -> Json {
    match n {
        Some(n) => Json::Number(n as int),
        None => Json::Null,
    }
}

proof fn lemma_number_or_null(n: Option<u64>)
    ensures
        json::reads_as(number_or_null(n), number_value(n)),
{
    json::lemma_null();
    if let Some(n) = n {
        json::lemma_number(n as nat);
    }
}

/// The labels of the members that are written.
proof fn lemma_labels()
    ensures
        json::is_label(", \"event_count\": "@, "event_count"@),
        json::is_label(", \"receive_bytes\": "@, "receive_bytes"@),
        json::is_label(", \"send_bytes\": "@, "send_bytes"@),
        json::is_label(", \"connection_count\": "@, "connection_count"@),
        json::is_label(", \"image_path\": "@, "image_path"@),
        json::is_label(", \"name\": "@, "name"@),
        json::is_label(", \"started_at_ns\": "@, "started_at_ns"@),
        json::is_label(", \"last_seen_ns\": "@, "last_seen_ns"@),
        json::is_label(", \"first_seen_ns\": "@, "first_seen_ns"@),
        json::is_label(", \"process_name\": "@, "process_name"@),
        json::is_label(", \"remote_address\": "@, "remote_address"@),
        json::is_label(", \"detail\": "@, "detail"@),
        json::is_label(", \"title\": "@, "title"@),
        json::is_label(", \"kind\": "@, "kind"@),
        json::is_label(", \"occurred_at_ns\": "@, "occurred_at_ns"@),
        json::is_label(", \"ended_at_ns\": "@, "ended_at_ns"@),
        json::is_label(", \"status\": "@, "status"@),
        json::is_label(", \"notes\": "@, "notes"@),
        json::is_label(",\n  \"alerts\": "@, "alerts"@),
        json::is_label(",\n  \"endpoints\": "@, "endpoints"@),
        json::is_label(",\n  \"processes\": "@, "processes"@),
        json::is_label(",\n  \"buckets\": "@, "buckets"@),
        json::is_label(",\n  \"session\": "@, "session"@),
        json::is_opening("\n    {\"start_ns\": "@, "start_ns"@),
        json::is_opening("\n    {\"pid\": "@, "pid"@),
        json::is_opening("\n    {\"protocol\": "@, "protocol"@),
        json::is_opening("\n    {\"id\": "@, "id"@),
        json::is_opening("{\"id\": "@, "id"@),
        json::is_opening("{\n  \"schema_version\": "@, "schema_version"@),
        json::ends_object("}"@, Seq::empty()),
        json::ends_object("\n}"@, Seq::empty()),
{
    assert(json::is_label(", \"event_count\": "@, "event_count"@)) by {
        reveal_strlit(", \"event_count\": ");
        reveal_strlit("event_count");
        reveal_strlit(" ");
        json::lemma_label(", \"event_count\": "@, " "@, "event_count"@, " "@);
    }
    assert(json::is_label(", \"receive_bytes\": "@, "receive_bytes"@)) by {
        reveal_strlit(", \"receive_bytes\": ");
        reveal_strlit("receive_bytes");
        reveal_strlit(" ");
        json::lemma_label(", \"receive_bytes\": "@, " "@, "receive_bytes"@, " "@);
    }
    assert(json::is_label(", \"send_bytes\": "@, "send_bytes"@)) by {
        reveal_strlit(", \"send_bytes\": ");
        reveal_strlit("send_bytes");
        reveal_strlit(" ");
        json::lemma_label(", \"send_bytes\": "@, " "@, "send_bytes"@, " "@);
    }
    assert(json::is_label(", \"connection_count\": "@, "connection_count"@)) by {
        reveal_strlit(", \"connection_count\": ");
        reveal_strlit("connection_count");
        reveal_strlit(" ");
        json::lemma_label(", \"connection_count\": "@, " "@, "connection_count"@, " "@);
    }
    assert(json::is_label(", \"image_path\": "@, "image_path"@)) by {
        reveal_strlit(", \"image_path\": ");
        reveal_strlit("image_path");
        reveal_strlit(" ");
        json::lemma_label(", \"image_path\": "@, " "@, "image_path"@, " "@);
    }
    assert(json::is_label(", \"name\": "@, "name"@)) by {
        reveal_strlit(", \"name\": ");
        reveal_strlit("name");
        reveal_strlit(" ");
        json::lemma_label(", \"name\": "@, " "@, "name"@, " "@);
    }
    assert(json::is_label(", \"started_at_ns\": "@, "started_at_ns"@)) by {
        reveal_strlit(", \"started_at_ns\": ");
        reveal_strlit("started_at_ns");
        reveal_strlit(" ");
        json::lemma_label(", \"started_at_ns\": "@, " "@, "started_at_ns"@, " "@);
    }
    assert(json::is_label(", \"last_seen_ns\": "@, "last_seen_ns"@)) by {
        reveal_strlit(", \"last_seen_ns\": ");
        reveal_strlit("last_seen_ns");
        reveal_strlit(" ");
        json::lemma_label(", \"last_seen_ns\": "@, " "@, "last_seen_ns"@, " "@);
    }
    assert(json::is_label(", \"first_seen_ns\": "@, "first_seen_ns"@)) by {
        reveal_strlit(", \"first_seen_ns\": ");
        reveal_strlit("first_seen_ns");
        reveal_strlit(" ");
        json::lemma_label(", \"first_seen_ns\": "@, " "@, "first_seen_ns"@, " "@);
    }
    assert(json::is_label(", \"process_name\": "@, "process_name"@)) by {
        reveal_strlit(", \"process_name\": ");
        reveal_strlit("process_name");
        reveal_strlit(" ");
        json::lemma_label(", \"process_name\": "@, " "@, "process_name"@, " "@);
    }
    assert(json::is_label(", \"remote_address\": "@, "remote_address"@)) by {
        reveal_strlit(", \"remote_address\": ");
        reveal_strlit("remote_address");
        reveal_strlit(" ");
        json::lemma_label(", \"remote_address\": "@, " "@, "remote_address"@, " "@);
    }
    assert(json::is_label(", \"detail\": "@, "detail"@)) by {
        reveal_strlit(", \"detail\": ");
        reveal_strlit("detail");
        reveal_strlit(" ");
        json::lemma_label(", \"detail\": "@, " "@, "detail"@, " "@);
    }
    assert(json::is_label(", \"title\": "@, "title"@)) by {
        reveal_strlit(", \"title\": ");
        reveal_strlit("title");
        reveal_strlit(" ");
        json::lemma_label(", \"title\": "@, " "@, "title"@, " "@);
    }
    assert(json::is_label(", \"kind\": "@, "kind"@)) by {
        reveal_strlit(", \"kind\": ");
        reveal_strlit("kind");
        reveal_strlit(" ");
        json::lemma_label(", \"kind\": "@, " "@, "kind"@, " "@);
    }
    assert(json::is_label(", \"occurred_at_ns\": "@, "occurred_at_ns"@)) by {
        reveal_strlit(", \"occurred_at_ns\": ");
        reveal_strlit("occurred_at_ns");
        reveal_strlit(" ");
        json::lemma_label(", \"occurred_at_ns\": "@, " "@, "occurred_at_ns"@, " "@);
    }
    assert(json::is_label(", \"ended_at_ns\": "@, "ended_at_ns"@)) by {
        reveal_strlit(", \"ended_at_ns\": ");
        reveal_strlit("ended_at_ns");
        reveal_strlit(" ");
        json::lemma_label(", \"ended_at_ns\": "@, " "@, "ended_at_ns"@, " "@);
    }
    assert(json::is_label(", \"status\": "@, "status"@)) by {
        reveal_strlit(", \"status\": ");
        reveal_strlit("status");
        reveal_strlit(" ");
        json::lemma_label(", \"status\": "@, " "@, "status"@, " "@);
    }
    assert(json::is_label(", \"notes\": "@, "notes"@)) by {
        reveal_strlit(", \"notes\": ");
        reveal_strlit("notes");
        reveal_strlit(" ");
        json::lemma_label(", \"notes\": "@, " "@, "notes"@, " "@);
    }
    assert(json::is_label(",\n  \"alerts\": "@, "alerts"@)) by {
        reveal_strlit(",\n  \"alerts\": ");
        reveal_strlit("alerts");
        reveal_strlit("\n  ");
        reveal_strlit(" ");
        json::lemma_label(",\n  \"alerts\": "@, "\n  "@, "alerts"@, " "@);
    }
    assert(json::is_label(",\n  \"endpoints\": "@, "endpoints"@)) by {
        reveal_strlit(",\n  \"endpoints\": ");
        reveal_strlit("endpoints");
        reveal_strlit("\n  ");
        reveal_strlit(" ");
        json::lemma_label(",\n  \"endpoints\": "@, "\n  "@, "endpoints"@, " "@);
    }
    assert(json::is_label(",\n  \"processes\": "@, "processes"@)) by {
        reveal_strlit(",\n  \"processes\": ");
        reveal_strlit("processes");
        reveal_strlit("\n  ");
        reveal_strlit(" ");
        json::lemma_label(",\n  \"processes\": "@, "\n  "@, "processes"@, " "@);
    }
    assert(json::is_label(",\n  \"buckets\": "@, "buckets"@)) by {
        reveal_strlit(",\n  \"buckets\": ");
        reveal_strlit("buckets");
        reveal_strlit("\n  ");
        reveal_strlit(" ");
        json::lemma_label(",\n  \"buckets\": "@, "\n  "@, "buckets"@, " "@);
    }
    assert(json::is_label(",\n  \"session\": "@, "session"@)) by {
        reveal_strlit(",\n  \"session\": ");
        reveal_strlit("session");
        reveal_strlit("\n  ");
        reveal_strlit(" ");
        json::lemma_label(",\n  \"session\": "@, "\n  "@, "session"@, " "@);
    }
    assert(json::is_opening("\n    {\"start_ns\": "@, "start_ns"@)) by {
        reveal_strlit("\n    {\"start_ns\": ");
        reveal_strlit("start_ns");
        reveal_strlit("\n    ");
        reveal_strlit("");
        reveal_strlit(" ");
        json::lemma_opening("\n    {\"start_ns\": "@, "\n    "@, ""@, "start_ns"@, " "@);
    }
    assert(json::is_opening("\n    {\"pid\": "@, "pid"@)) by {
        reveal_strlit("\n    {\"pid\": ");
        reveal_strlit("pid");
        reveal_strlit("\n    ");
        reveal_strlit("");
        reveal_strlit(" ");
        json::lemma_opening("\n    {\"pid\": "@, "\n    "@, ""@, "pid"@, " "@);
    }
    assert(json::is_opening("\n    {\"protocol\": "@, "protocol"@)) by {
        reveal_strlit("\n    {\"protocol\": ");
        reveal_strlit("protocol");
        reveal_strlit("\n    ");
        reveal_strlit("");
        reveal_strlit(" ");
        json::lemma_opening("\n    {\"protocol\": "@, "\n    "@, ""@, "protocol"@, " "@);
    }
    assert(json::is_opening("\n    {\"id\": "@, "id"@)) by {
        reveal_strlit("\n    {\"id\": ");
        reveal_strlit("id");
        reveal_strlit("\n    ");
        reveal_strlit("");
        reveal_strlit(" ");
        json::lemma_opening("\n    {\"id\": "@, "\n    "@, ""@, "id"@, " "@);
    }
    assert(json::is_opening("{\"id\": "@, "id"@)) by {
        reveal_strlit("{\"id\": ");
        reveal_strlit("id");
        reveal_strlit("");
        reveal_strlit(" ");
        json::lemma_opening("{\"id\": "@, ""@, ""@, "id"@, " "@);
    }
    assert(json::is_opening("{\n  \"schema_version\": "@, "schema_version"@)) by {
        reveal_strlit("{\n  \"schema_version\": ");
        reveal_strlit("schema_version");
        reveal_strlit("");
        reveal_strlit("\n  ");
        reveal_strlit(" ");
        json::lemma_opening("{\n  \"schema_version\": "@, ""@, "\n  "@, "schema_version"@, " "@);
    }
    assert(json::ends_object("}"@, Seq::empty())) by {
        reveal_strlit("}");
        reveal_strlit("");
        json::lemma_object_ends(""@);
        assert("}"@ =~= ""@ + seq!['}']);
    }
    assert(json::ends_object("\n}"@, Seq::empty())) by {
        reveal_strlit("\n}");
        reveal_strlit("\n");
        json::lemma_object_ends("\n"@);
        assert("\n}"@ =~= "\n"@ + seq!['}']);
    }
}

/// How the text between two values is put together.
proof fn lemma_pieces()
    ensures
        ", \"kind\": \""@ == ", \"kind\": "@ + "\""@,
        "\", \"title\": "@ == "\""@ + ", \"title\": "@,
        ", \"status\": \""@ == ", \"status\": "@ + "\""@,
        "\", \"started_at_ns\": "@ == "\""@ + ", \"started_at_ns\": "@,
        "{\n  \"schema_version\": 1,\n  \"session\": {\"id\": "@ == "{\n  \"schema_version\": "@ + "1"@ + ",\n  \"session\": "@ + "{\"id\": "@,
        "},\n  \"buckets\": ["@ == "}"@ + ",\n  \"buckets\": "@ + "["@,
        "\n  ],\n  \"processes\": ["@ == "\n  ]"@ + ",\n  \"processes\": "@ + "["@,
        "\n  ],\n  \"endpoints\": ["@ == "\n  ]"@ + ",\n  \"endpoints\": "@ + "["@,
        "\n  ],\n  \"alerts\": ["@ == "\n  ]"@ + ",\n  \"alerts\": "@ + "["@,
        "\n  ]\n}\n"@ == "\n  ]"@ + "\n}"@ + "\n"@,
{
    assert(", \"kind\": \""@ == ", \"kind\": "@ + "\""@) by {
        reveal_strlit(", \"kind\": \"");
        reveal_strlit(", \"kind\": ");
        reveal_strlit("\"");
    }
    assert("\", \"title\": "@ == "\""@ + ", \"title\": "@) by {
        reveal_strlit("\", \"title\": ");
        reveal_strlit("\"");
        reveal_strlit(", \"title\": ");
    }
    assert(", \"status\": \""@ == ", \"status\": "@ + "\""@) by {
        reveal_strlit(", \"status\": \"");
        reveal_strlit(", \"status\": ");
        reveal_strlit("\"");
    }
    assert("\", \"started_at_ns\": "@ == "\""@ + ", \"started_at_ns\": "@) by {
        reveal_strlit("\", \"started_at_ns\": ");
        reveal_strlit("\"");
        reveal_strlit(", \"started_at_ns\": ");
    }
    assert("{\n  \"schema_version\": 1,\n  \"session\": {\"id\": "@ == "{\n  \"schema_version\": "@ + "1"@ + ",\n  \"session\": "@ + "{\"id\": "@) by {
        reveal_strlit("{\n  \"schema_version\": 1,\n  \"session\": {\"id\": ");
        reveal_strlit("{\n  \"schema_version\": ");
        reveal_strlit("1");
        reveal_strlit(",\n  \"session\": ");
        reveal_strlit("{\"id\": ");
    }
    assert("},\n  \"buckets\": ["@ == "}"@ + ",\n  \"buckets\": "@ + "["@) by {
        reveal_strlit("},\n  \"buckets\": [");
        reveal_strlit("}");
        reveal_strlit(",\n  \"buckets\": ");
        reveal_strlit("[");
    }
    assert("\n  ],\n  \"processes\": ["@ == "\n  ]"@ + ",\n  \"processes\": "@ + "["@) by {
        reveal_strlit("\n  ],\n  \"processes\": [");
        reveal_strlit("\n  ]");
        reveal_strlit(",\n  \"processes\": ");
        reveal_strlit("[");
    }
    assert("\n  ],\n  \"endpoints\": ["@ == "\n  ]"@ + ",\n  \"endpoints\": "@ + "["@) by {
        reveal_strlit("\n  ],\n  \"endpoints\": [");
        reveal_strlit("\n  ]");
        reveal_strlit(",\n  \"endpoints\": ");
        reveal_strlit("[");
    }
    assert("\n  ],\n  \"alerts\": ["@ == "\n  ]"@ + ",\n  \"alerts\": "@ + "["@) by {
        reveal_strlit("\n  ],\n  \"alerts\": [");
        reveal_strlit("\n  ]");
        reveal_strlit(",\n  \"alerts\": ");
        reveal_strlit("[");
    }
    assert("\n  ]\n}\n"@ == "\n  ]"@ + "\n}"@ + "\n"@) by {
        reveal_strlit("\n  ]\n}\n");
        reveal_strlit("\n  ]");
        reveal_strlit("\n}");
        reveal_strlit("\n");
    }
}

/// A bucket is read back.
#[verifier::rlimit(60)]
proof fn lemma_bucket_is_read_back(bucket: SessionBucket)
    ensures
        json::reads_as(
            bucket_json(bucket),
            Json::Object(
                seq![
                    ("start_ns"@, Json::Number(bucket.start_unix_nanos as int)),
                    ("send_bytes"@, Json::Number(bucket.send_bytes as int)),
                    ("receive_bytes"@, Json::Number(bucket.receive_bytes as int)),
                    ("event_count"@, Json::Number(bucket.event_count as int)),
                ],
            ),
        ),
{
    lemma_labels();
    json::lemma_number(bucket.start_unix_nanos as nat);
    json::lemma_number(bucket.send_bytes as nat);
    json::lemma_number(bucket.receive_bytes as nat);
    json::lemma_number(bucket.event_count as nat);
    let end4 = "}"@;
    let last4 = Seq::<(Seq<char>, Json)>::empty();
    let end3 = ", \"event_count\": "@ + (text::decimal(bucket.event_count as nat) + end4);
    let last3 = seq![("event_count"@, Json::Number(bucket.event_count as int))] + last4;
    json::lemma_member(", \"event_count\": "@, "event_count"@, text::decimal(bucket.event_count as nat), Json::Number(bucket.event_count as int), end4, last4);
    let end2 = ", \"receive_bytes\": "@ + (text::decimal(bucket.receive_bytes as nat) + end3);
    let last2 = seq![("receive_bytes"@, Json::Number(bucket.receive_bytes as int))] + last3;
    json::lemma_member(", \"receive_bytes\": "@, "receive_bytes"@, text::decimal(bucket.receive_bytes as nat), Json::Number(bucket.receive_bytes as int), end3, last3);
    let end1 = ", \"send_bytes\": "@ + (text::decimal(bucket.send_bytes as nat) + end2);
    let last1 = seq![("send_bytes"@, Json::Number(bucket.send_bytes as int))] + last2;
    json::lemma_member(", \"send_bytes\": "@, "send_bytes"@, text::decimal(bucket.send_bytes as nat), Json::Number(bucket.send_bytes as int), end2, last2);
    json::lemma_object("\n    {\"start_ns\": "@, "start_ns"@, text::decimal(bucket.start_unix_nanos as nat), Json::Number(bucket.start_unix_nanos as int), end1, last1);
    assert(bucket_json(bucket) == "\n    {\"start_ns\": "@ + (text::decimal(bucket.start_unix_nanos as nat) + end1)) by {
        broadcast use json::lemma_grouping;
    }
    assert(seq![("start_ns"@, Json::Number(bucket.start_unix_nanos as int))] + last1 =~= seq![
        ("start_ns"@, Json::Number(bucket.start_unix_nanos as int)),
        ("send_bytes"@, Json::Number(bucket.send_bytes as int)),
        ("receive_bytes"@, Json::Number(bucket.receive_bytes as int)),
        ("event_count"@, Json::Number(bucket.event_count as int)),
    ]);
}

/// A process is read back.
#[verifier::rlimit(60)]
proof fn lemma_process_is_read_back(process: ProcessSessionSummary)
    ensures
        json::reads_as(
            process_json(process),
            Json::Object(
                seq![
                    ("pid"@, Json::Number(process.pid as int)),
                    ("started_at_ns"@, Json::Number(process.started_at_unix_nanos as int)),
                    ("name"@, Json::Text(process.name@)),
                    ("image_path"@, json::text_or_null(text::optional(process.image_path))),
                    ("send_bytes"@, Json::Number(process.send_bytes as int)),
                    ("receive_bytes"@, Json::Number(process.receive_bytes as int)),
                    ("connection_count"@, Json::Number(process.connection_count as int)),
                ],
            ),
        ),
{
    lemma_labels();
    json::lemma_number(process.pid as nat);
    json::lemma_number(process.started_at_unix_nanos as nat);
    json::lemma_text(process.name@);
    json::lemma_optional_text(text::optional(process.image_path));
    json::lemma_number(process.send_bytes as nat);
    json::lemma_number(process.receive_bytes as nat);
    json::lemma_number(process.connection_count as nat);
    let end7 = "}"@;
    let last7 = Seq::<(Seq<char>, Json)>::empty();
    let end6 = ", \"connection_count\": "@ + (text::decimal(process.connection_count as nat) + end7);
    let last6 = seq![("connection_count"@, Json::Number(process.connection_count as int))] + last7;
    json::lemma_member(", \"connection_count\": "@, "connection_count"@, text::decimal(process.connection_count as nat), Json::Number(process.connection_count as int), end7, last7);
    let end5 = ", \"receive_bytes\": "@ + (text::decimal(process.receive_bytes as nat) + end6);
    let last5 = seq![("receive_bytes"@, Json::Number(process.receive_bytes as int))] + last6;
    json::lemma_member(", \"receive_bytes\": "@, "receive_bytes"@, text::decimal(process.receive_bytes as nat), Json::Number(process.receive_bytes as int), end6, last6);
    let end4 = ", \"send_bytes\": "@ + (text::decimal(process.send_bytes as nat) + end5);
    let last4 = seq![("send_bytes"@, Json::Number(process.send_bytes as int))] + last5;
    json::lemma_member(", \"send_bytes\": "@, "send_bytes"@, text::decimal(process.send_bytes as nat), Json::Number(process.send_bytes as int), end5, last5);
    let end3 = ", \"image_path\": "@ + (quoting::json_control_optional(text::optional(process.image_path)) + end4);
    let last3 = seq![("image_path"@, json::text_or_null(text::optional(process.image_path)))] + last4;
    json::lemma_member(", \"image_path\": "@, "image_path"@, quoting::json_control_optional(text::optional(process.image_path)), json::text_or_null(text::optional(process.image_path)), end4, last4);
    let end2 = ", \"name\": "@ + (quoting::json_control_string(process.name@) + end3);
    let last2 = seq![("name"@, Json::Text(process.name@))] + last3;
    json::lemma_member(", \"name\": "@, "name"@, quoting::json_control_string(process.name@), Json::Text(process.name@), end3, last3);
    let end1 = ", \"started_at_ns\": "@ + (text::decimal(process.started_at_unix_nanos as nat) + end2);
    let last1 = seq![("started_at_ns"@, Json::Number(process.started_at_unix_nanos as int))] + last2;
    json::lemma_member(", \"started_at_ns\": "@, "started_at_ns"@, text::decimal(process.started_at_unix_nanos as nat), Json::Number(process.started_at_unix_nanos as int), end2, last2);
    json::lemma_object("\n    {\"pid\": "@, "pid"@, text::decimal(process.pid as nat), Json::Number(process.pid as int), end1, last1);
    assert(process_json(process) == "\n    {\"pid\": "@ + (text::decimal(process.pid as nat) + end1)) by {
        broadcast use json::lemma_grouping;
    }
    assert(seq![("pid"@, Json::Number(process.pid as int))] + last1 =~= seq![
        ("pid"@, Json::Number(process.pid as int)),
        ("started_at_ns"@, Json::Number(process.started_at_unix_nanos as int)),
        ("name"@, Json::Text(process.name@)),
        ("image_path"@, json::text_or_null(text::optional(process.image_path))),
        ("send_bytes"@, Json::Number(process.send_bytes as int)),
        ("receive_bytes"@, Json::Number(process.receive_bytes as int)),
        ("connection_count"@, Json::Number(process.connection_count as int)),
    ]);
}

/// An endpoint is read back.
#[verifier::rlimit(60)]
proof fn lemma_endpoint_is_read_back(endpoint: EndpointSummary)
    ensures
        json::reads_as(
            endpoint_json(endpoint),
            Json::Object(
                seq![
                    ("protocol"@, Json::Text(endpoint.protocol@)),
                    ("remote_address"@, Json::Text(endpoint.remote_address@)),
                    ("process_name"@, Json::Text(endpoint.process_name@)),
                    ("first_seen_ns"@, Json::Number(endpoint.first_seen_unix_nanos as int)),
                    ("last_seen_ns"@, Json::Number(endpoint.last_seen_unix_nanos as int)),
                    ("connection_count"@, Json::Number(endpoint.connection_count as int)),
                ],
            ),
        ),
{
    lemma_labels();
    json::lemma_text(endpoint.protocol@);
    json::lemma_text(endpoint.remote_address@);
    json::lemma_text(endpoint.process_name@);
    json::lemma_number(endpoint.first_seen_unix_nanos as nat);
    json::lemma_number(endpoint.last_seen_unix_nanos as nat);
    json::lemma_number(endpoint.connection_count as nat);
    let end6 = "}"@;
    let last6 = Seq::<(Seq<char>, Json)>::empty();
    let end5 = ", \"connection_count\": "@ + (text::decimal(endpoint.connection_count as nat) + end6);
    let last5 = seq![("connection_count"@, Json::Number(endpoint.connection_count as int))] + last6;
    json::lemma_member(", \"connection_count\": "@, "connection_count"@, text::decimal(endpoint.connection_count as nat), Json::Number(endpoint.connection_count as int), end6, last6);
    let end4 = ", \"last_seen_ns\": "@ + (text::decimal(endpoint.last_seen_unix_nanos as nat) + end5);
    let last4 = seq![("last_seen_ns"@, Json::Number(endpoint.last_seen_unix_nanos as int))] + last5;
    json::lemma_member(", \"last_seen_ns\": "@, "last_seen_ns"@, text::decimal(endpoint.last_seen_unix_nanos as nat), Json::Number(endpoint.last_seen_unix_nanos as int), end5, last5);
    let end3 = ", \"first_seen_ns\": "@ + (text::decimal(endpoint.first_seen_unix_nanos as nat) + end4);
    let last3 = seq![("first_seen_ns"@, Json::Number(endpoint.first_seen_unix_nanos as int))] + last4;
    json::lemma_member(", \"first_seen_ns\": "@, "first_seen_ns"@, text::decimal(endpoint.first_seen_unix_nanos as nat), Json::Number(endpoint.first_seen_unix_nanos as int), end4, last4);
    let end2 = ", \"process_name\": "@ + (quoting::json_control_string(endpoint.process_name@) + end3);
    let last2 = seq![("process_name"@, Json::Text(endpoint.process_name@))] + last3;
    json::lemma_member(", \"process_name\": "@, "process_name"@, quoting::json_control_string(endpoint.process_name@), Json::Text(endpoint.process_name@), end3, last3);
    let end1 = ", \"remote_address\": "@ + (quoting::json_control_string(endpoint.remote_address@) + end2);
    let last1 = seq![("remote_address"@, Json::Text(endpoint.remote_address@))] + last2;
    json::lemma_member(", \"remote_address\": "@, "remote_address"@, quoting::json_control_string(endpoint.remote_address@), Json::Text(endpoint.remote_address@), end2, last2);
    json::lemma_object("\n    {\"protocol\": "@, "protocol"@, quoting::json_control_string(endpoint.protocol@), Json::Text(endpoint.protocol@), end1, last1);
    assert(endpoint_json(endpoint) == "\n    {\"protocol\": "@ + (quoting::json_control_string(endpoint.protocol@) + end1)) by {
        broadcast use json::lemma_grouping;
    }
    assert(seq![("protocol"@, Json::Text(endpoint.protocol@))] + last1 =~= seq![
        ("protocol"@, Json::Text(endpoint.protocol@)),
        ("remote_address"@, Json::Text(endpoint.remote_address@)),
        ("process_name"@, Json::Text(endpoint.process_name@)),
        ("first_seen_ns"@, Json::Number(endpoint.first_seen_unix_nanos as int)),
        ("last_seen_ns"@, Json::Number(endpoint.last_seen_unix_nanos as int)),
        ("connection_count"@, Json::Number(endpoint.connection_count as int)),
    ]);
}

/// An alert is read back.
#[verifier::rlimit(60)]
proof fn lemma_alert_is_read_back(alert: AlertRecord)
    ensures
        json::reads_as(
            alert_json(alert),
            Json::Object(
                seq![
                    ("id"@, Json::Number(alert.id as int)),
                    ("occurred_at_ns"@, Json::Number(alert.occurred_at_unix_nanos as int)),
                    ("kind"@, Json::Text(match alert.kind {
                                        AlertKind::NewProcess => "new_process"@,
                                        AlertKind::NewEndpoint => "new_endpoint"@,
                                        AlertKind::UploadThreshold => "upload_threshold"@,
                                        AlertKind::DownloadThreshold => "download_threshold"@,
                                        AlertKind::TrafficSpike => "traffic_spike"@,
                                        AlertKind::RiskEvent => "risk_event"@,
                                    })),
                    ("title"@, Json::Text(alert.title@)),
                    ("detail"@, Json::Text(alert.detail@)),
                    ("process_name"@, json::text_or_null(text::optional(alert.process_name))),
                    ("remote_address"@, json::text_or_null(text::optional(alert.remote_address))),
                ],
            ),
        ),
{
    lemma_labels();
    lemma_pieces();
    json::lemma_signed_number(alert.id as int);
    json::lemma_number(alert.occurred_at_unix_nanos as nat);
    lemma_alert_names_are_plain(alert.kind);
    json::lemma_plain(session::alert_name(alert.kind));
    json::lemma_text(alert.title@);
    json::lemma_text(alert.detail@);
    json::lemma_optional_text(text::optional(alert.process_name));
    json::lemma_optional_text(text::optional(alert.remote_address));
    let end7 = "}"@;
    let last7 = Seq::<(Seq<char>, Json)>::empty();
    let end6 = ", \"remote_address\": "@ + (quoting::json_control_optional(text::optional(alert.remote_address)) + end7);
    let last6 = seq![("remote_address"@, json::text_or_null(text::optional(alert.remote_address)))] + last7;
    json::lemma_member(", \"remote_address\": "@, "remote_address"@, quoting::json_control_optional(text::optional(alert.remote_address)), json::text_or_null(text::optional(alert.remote_address)), end7, last7);
    let end5 = ", \"process_name\": "@ + (quoting::json_control_optional(text::optional(alert.process_name)) + end6);
    let last5 = seq![("process_name"@, json::text_or_null(text::optional(alert.process_name)))] + last6;
    json::lemma_member(", \"process_name\": "@, "process_name"@, quoting::json_control_optional(text::optional(alert.process_name)), json::text_or_null(text::optional(alert.process_name)), end6, last6);
    let end4 = ", \"detail\": "@ + (quoting::json_control_string(alert.detail@) + end5);
    let last4 = seq![("detail"@, Json::Text(alert.detail@))] + last5;
    json::lemma_member(", \"detail\": "@, "detail"@, quoting::json_control_string(alert.detail@), Json::Text(alert.detail@), end5, last5);
    let end3 = ", \"title\": "@ + (quoting::json_control_string(alert.title@) + end4);
    let last3 = seq![("title"@, Json::Text(alert.title@))] + last4;
    json::lemma_member(", \"title\": "@, "title"@, quoting::json_control_string(alert.title@), Json::Text(alert.title@), end4, last4);
    let end2 = ", \"kind\": "@ + (("\""@ + session::alert_name(alert.kind) + "\""@) + end3);
    let last2 = seq![("kind"@, Json::Text(match alert.kind {
                                        AlertKind::NewProcess => "new_process"@,
                                        AlertKind::NewEndpoint => "new_endpoint"@,
                                        AlertKind::UploadThreshold => "upload_threshold"@,
                                        AlertKind::DownloadThreshold => "download_threshold"@,
                                        AlertKind::TrafficSpike => "traffic_spike"@,
                                        AlertKind::RiskEvent => "risk_event"@,
                                    }))] + last3;
    json::lemma_member(", \"kind\": "@, "kind"@, ("\""@ + session::alert_name(alert.kind) + "\""@), Json::Text(match alert.kind {
                                        AlertKind::NewProcess => "new_process"@,
                                        AlertKind::NewEndpoint => "new_endpoint"@,
                                        AlertKind::UploadThreshold => "upload_threshold"@,
                                        AlertKind::DownloadThreshold => "download_threshold"@,
                                        AlertKind::TrafficSpike => "traffic_spike"@,
                                        AlertKind::RiskEvent => "risk_event"@,
                                    }), end3, last3);
    let end1 = ", \"occurred_at_ns\": "@ + (text::decimal(alert.occurred_at_unix_nanos as nat) + end2);
    let last1 = seq![("occurred_at_ns"@, Json::Number(alert.occurred_at_unix_nanos as int))] + last2;
    json::lemma_member(", \"occurred_at_ns\": "@, "occurred_at_ns"@, text::decimal(alert.occurred_at_unix_nanos as nat), Json::Number(alert.occurred_at_unix_nanos as int), end2, last2);
    json::lemma_object("\n    {\"id\": "@, "id"@, text::signed_decimal(alert.id as int), Json::Number(alert.id as int), end1, last1);
    assert(alert_json(alert) == "\n    {\"id\": "@ + (text::signed_decimal(alert.id as int) + end1)) by {
        broadcast use json::lemma_grouping;
    }
    assert(seq![("id"@, Json::Number(alert.id as int))] + last1 =~= seq![
        ("id"@, Json::Number(alert.id as int)),
        ("occurred_at_ns"@, Json::Number(alert.occurred_at_unix_nanos as int)),
        ("kind"@, Json::Text(match alert.kind {
                                        AlertKind::NewProcess => "new_process"@,
                                        AlertKind::NewEndpoint => "new_endpoint"@,
                                        AlertKind::UploadThreshold => "upload_threshold"@,
                                        AlertKind::DownloadThreshold => "download_threshold"@,
                                        AlertKind::TrafficSpike => "traffic_spike"@,
                                        AlertKind::RiskEvent => "risk_event"@,
                                    })),
        ("title"@, Json::Text(alert.title@)),
        ("detail"@, Json::Text(alert.detail@)),
        ("process_name"@, json::text_or_null(text::optional(alert.process_name))),
        ("remote_address"@, json::text_or_null(text::optional(alert.remote_address))),
    ]);
}

/// The text of a session's own fields.
spec fn session_object(session: SessionRecord) -> Seq<char> {
    "{\"id\": "@
        + text::signed_decimal(session.id.0 as int)
        + ", \"name\": "@
        + quoting::json_control_string(session.name@)
        + ", \"notes\": "@
        + quoting::json_control_string(session.notes@)
        + ", \"status\": "@
        + ("\""@ + session::status_name(session.status) + "\""@)
        + ", \"started_at_ns\": "@
        + text::decimal(session.started_at_unix_nanos as nat)
        + ", \"ended_at_ns\": "@
        + number_or_null(session.ended_at_unix_nanos)
        + ", \"send_bytes\": "@
        + text::decimal(session.send_bytes as nat)
        + ", \"receive_bytes\": "@
        + text::decimal(session.receive_bytes as nat)
        + ", \"event_count\": "@
        + text::decimal(session.event_count as nat)
        + "}"@
}

/// A session's own fields are read back.
#[verifier::rlimit(60)]
proof fn lemma_session_is_read_back(session: SessionRecord)
    ensures
        json::reads_as(
            session_object(session),
            Json::Object(
                seq![
                    ("id"@, Json::Number(session.id.0 as int)),
                    ("name"@, Json::Text(session.name@)),
                    ("notes"@, Json::Text(session.notes@)),
                    ("status"@, Json::Text(match session.status {
                                        SessionStatus::Recording => "recording"@,
                                        SessionStatus::Completed => "completed"@,
                                        SessionStatus::Interrupted => "interrupted"@,
                                    })),
                    ("started_at_ns"@, Json::Number(session.started_at_unix_nanos as int)),
                    ("ended_at_ns"@, match session.ended_at_unix_nanos {
                                    Some(end) => Json::Number(end as int),
                                    None => Json::Null,
                                }),
                    ("send_bytes"@, Json::Number(session.send_bytes as int)),
                    ("receive_bytes"@, Json::Number(session.receive_bytes as int)),
                    ("event_count"@, Json::Number(session.event_count as int)),
                ],
            ),
        ),
{
    lemma_labels();
    json::lemma_signed_number(session.id.0 as int);
    json::lemma_text(session.name@);
    json::lemma_text(session.notes@);
    lemma_status_names_are_plain(session.status);
    json::lemma_plain(session::status_name(session.status));
    json::lemma_number(session.started_at_unix_nanos as nat);
    lemma_number_or_null(session.ended_at_unix_nanos);
    json::lemma_number(session.send_bytes as nat);
    json::lemma_number(session.receive_bytes as nat);
    json::lemma_number(session.event_count as nat);
    let end9 = "}"@;
    let last9 = Seq::<(Seq<char>, Json)>::empty();
    let end8 = ", \"event_count\": "@ + (text::decimal(session.event_count as nat) + end9);
    let last8 = seq![("event_count"@, Json::Number(session.event_count as int))] + last9;
    json::lemma_member(", \"event_count\": "@, "event_count"@, text::decimal(session.event_count as nat), Json::Number(session.event_count as int), end9, last9);
    let end7 = ", \"receive_bytes\": "@ + (text::decimal(session.receive_bytes as nat) + end8);
    let last7 = seq![("receive_bytes"@, Json::Number(session.receive_bytes as int))] + last8;
    json::lemma_member(", \"receive_bytes\": "@, "receive_bytes"@, text::decimal(session.receive_bytes as nat), Json::Number(session.receive_bytes as int), end8, last8);
    let end6 = ", \"send_bytes\": "@ + (text::decimal(session.send_bytes as nat) + end7);
    let last6 = seq![("send_bytes"@, Json::Number(session.send_bytes as int))] + last7;
    json::lemma_member(", \"send_bytes\": "@, "send_bytes"@, text::decimal(session.send_bytes as nat), Json::Number(session.send_bytes as int), end7, last7);
    let end5 = ", \"ended_at_ns\": "@ + (number_or_null(session.ended_at_unix_nanos) + end6);
    let last5 = seq![("ended_at_ns"@, match session.ended_at_unix_nanos {
                                    Some(end) => Json::Number(end as int),
                                    None => Json::Null,
                                })] + last6;
    json::lemma_member(", \"ended_at_ns\": "@, "ended_at_ns"@, number_or_null(session.ended_at_unix_nanos), match session.ended_at_unix_nanos {
                                    Some(end) => Json::Number(end as int),
                                    None => Json::Null,
                                }, end6, last6);
    let end4 = ", \"started_at_ns\": "@ + (text::decimal(session.started_at_unix_nanos as nat) + end5);
    let last4 = seq![("started_at_ns"@, Json::Number(session.started_at_unix_nanos as int))] + last5;
    json::lemma_member(", \"started_at_ns\": "@, "started_at_ns"@, text::decimal(session.started_at_unix_nanos as nat), Json::Number(session.started_at_unix_nanos as int), end5, last5);
    let end3 = ", \"status\": "@ + (("\""@ + session::status_name(session.status) + "\""@) + end4);
    let last3 = seq![("status"@, Json::Text(match session.status {
                                        SessionStatus::Recording => "recording"@,
                                        SessionStatus::Completed => "completed"@,
                                        SessionStatus::Interrupted => "interrupted"@,
                                    }))] + last4;
    json::lemma_member(", \"status\": "@, "status"@, ("\""@ + session::status_name(session.status) + "\""@), Json::Text(match session.status {
                                        SessionStatus::Recording => "recording"@,
                                        SessionStatus::Completed => "completed"@,
                                        SessionStatus::Interrupted => "interrupted"@,
                                    }), end4, last4);
    let end2 = ", \"notes\": "@ + (quoting::json_control_string(session.notes@) + end3);
    let last2 = seq![("notes"@, Json::Text(session.notes@))] + last3;
    json::lemma_member(", \"notes\": "@, "notes"@, quoting::json_control_string(session.notes@), Json::Text(session.notes@), end3, last3);
    let end1 = ", \"name\": "@ + (quoting::json_control_string(session.name@) + end2);
    let last1 = seq![("name"@, Json::Text(session.name@))] + last2;
    json::lemma_member(", \"name\": "@, "name"@, quoting::json_control_string(session.name@), Json::Text(session.name@), end2, last2);
    json::lemma_object("{\"id\": "@, "id"@, text::signed_decimal(session.id.0 as int), Json::Number(session.id.0 as int), end1, last1);
    assert(session_object(session) == "{\"id\": "@ + (text::signed_decimal(session.id.0 as int) + end1)) by {
        broadcast use json::lemma_grouping;
    }
    assert(seq![("id"@, Json::Number(session.id.0 as int))] + last1 =~= seq![
        ("id"@, Json::Number(session.id.0 as int)),
        ("name"@, Json::Text(session.name@)),
        ("notes"@, Json::Text(session.notes@)),
        ("status"@, Json::Text(match session.status {
                                        SessionStatus::Recording => "recording"@,
                                        SessionStatus::Completed => "completed"@,
                                        SessionStatus::Interrupted => "interrupted"@,
                                    })),
        ("started_at_ns"@, Json::Number(session.started_at_unix_nanos as int)),
        ("ended_at_ns"@, match session.ended_at_unix_nanos {
                                    Some(end) => Json::Number(end as int),
                                    None => Json::Null,
                                }),
        ("send_bytes"@, Json::Number(session.send_bytes as int)),
        ("receive_bytes"@, Json::Number(session.receive_bytes as int)),
        ("event_count"@, Json::Number(session.event_count as int)),
    ]);
}

/// The buckets of a session are read back.
proof fn lemma_buckets_are_read_back(items: Seq<SessionBucket>)
    ensures
        json::reads_as(
            "["@ + (text::joined(items.map_values(|item: SessionBucket| bucket_json(item)), ","@) + "\n  ]"@),
            Json::List(
                items.map_values(
                    |bucket: SessionBucket|
                        Json::Object(
                            seq![
                                ("start_ns"@, Json::Number(bucket.start_unix_nanos as int)),
                                ("send_bytes"@, Json::Number(bucket.send_bytes as int)),
                                ("receive_bytes"@, Json::Number(bucket.receive_bytes as int)),
                                ("event_count"@, Json::Number(bucket.event_count as int)),
                            ],
                        ),
                ),
            ),
        ),
{
    let words = items.map_values(|item: SessionBucket| bucket_json(item));
    let values = items.map_values(
        |bucket: SessionBucket|
            Json::Object(
                seq![
                    ("start_ns"@, Json::Number(bucket.start_unix_nanos as int)),
                    ("send_bytes"@, Json::Number(bucket.send_bytes as int)),
                    ("receive_bytes"@, Json::Number(bucket.receive_bytes as int)),
                    ("event_count"@, Json::Number(bucket.event_count as int)),
                ],
            ),
    );
    assert forall|i: int| 0 <= i < words.len() implies json::reads_as(
        #[trigger] words[i],
        values[i],
    ) by {
        lemma_bucket_is_read_back(items[i]);
    }
    reveal_strlit("[");
    reveal_strlit("\n  ");
    reveal_strlit("\n  ]");
    json::lemma_list("["@, words, values, "\n  "@);
    assert("\n  "@ + seq![']'] =~= "\n  ]"@);
}

/// The processes of a session are read back.
proof fn lemma_processes_are_read_back(items: Seq<ProcessSessionSummary>)
    ensures
        json::reads_as(
            "["@ + (text::joined(items.map_values(|item: ProcessSessionSummary| process_json(item)), ","@) + "\n  ]"@),
            Json::List(
                items.map_values(
                    |process: ProcessSessionSummary|
                        Json::Object(
                            seq![
                                ("pid"@, Json::Number(process.pid as int)),
                                ("started_at_ns"@, Json::Number(process.started_at_unix_nanos as int)),
                                ("name"@, Json::Text(process.name@)),
                                ("image_path"@, json::text_or_null(text::optional(process.image_path))),
                                ("send_bytes"@, Json::Number(process.send_bytes as int)),
                                ("receive_bytes"@, Json::Number(process.receive_bytes as int)),
                                ("connection_count"@, Json::Number(process.connection_count as int)),
                            ],
                        ),
                ),
            ),
        ),
{
    let words = items.map_values(|item: ProcessSessionSummary| process_json(item));
    let values = items.map_values(
        |process: ProcessSessionSummary|
            Json::Object(
                seq![
                    ("pid"@, Json::Number(process.pid as int)),
                    ("started_at_ns"@, Json::Number(process.started_at_unix_nanos as int)),
                    ("name"@, Json::Text(process.name@)),
                    ("image_path"@, json::text_or_null(text::optional(process.image_path))),
                    ("send_bytes"@, Json::Number(process.send_bytes as int)),
                    ("receive_bytes"@, Json::Number(process.receive_bytes as int)),
                    ("connection_count"@, Json::Number(process.connection_count as int)),
                ],
            ),
    );
    assert forall|i: int| 0 <= i < words.len() implies json::reads_as(
        #[trigger] words[i],
        values[i],
    ) by {
        lemma_process_is_read_back(items[i]);
    }
    reveal_strlit("[");
    reveal_strlit("\n  ");
    reveal_strlit("\n  ]");
    json::lemma_list("["@, words, values, "\n  "@);
    assert("\n  "@ + seq![']'] =~= "\n  ]"@);
}

/// The endpoints of a session are read back.
proof fn lemma_endpoints_are_read_back(items: Seq<EndpointSummary>)
    ensures
        json::reads_as(
            "["@ + (text::joined(items.map_values(|item: EndpointSummary| endpoint_json(item)), ","@) + "\n  ]"@),
            Json::List(
                items.map_values(
                    |endpoint: EndpointSummary|
                        Json::Object(
                            seq![
                                ("protocol"@, Json::Text(endpoint.protocol@)),
                                ("remote_address"@, Json::Text(endpoint.remote_address@)),
                                ("process_name"@, Json::Text(endpoint.process_name@)),
                                ("first_seen_ns"@, Json::Number(endpoint.first_seen_unix_nanos as int)),
                                ("last_seen_ns"@, Json::Number(endpoint.last_seen_unix_nanos as int)),
                                ("connection_count"@, Json::Number(endpoint.connection_count as int)),
                            ],
                        ),
                ),
            ),
        ),
{
    let words = items.map_values(|item: EndpointSummary| endpoint_json(item));
    let values = items.map_values(
        |endpoint: EndpointSummary|
            Json::Object(
                seq![
                    ("protocol"@, Json::Text(endpoint.protocol@)),
                    ("remote_address"@, Json::Text(endpoint.remote_address@)),
                    ("process_name"@, Json::Text(endpoint.process_name@)),
                    ("first_seen_ns"@, Json::Number(endpoint.first_seen_unix_nanos as int)),
                    ("last_seen_ns"@, Json::Number(endpoint.last_seen_unix_nanos as int)),
                    ("connection_count"@, Json::Number(endpoint.connection_count as int)),
                ],
            ),
    );
    assert forall|i: int| 0 <= i < words.len() implies json::reads_as(
        #[trigger] words[i],
        values[i],
    ) by {
        lemma_endpoint_is_read_back(items[i]);
    }
    reveal_strlit("[");
    reveal_strlit("\n  ");
    reveal_strlit("\n  ]");
    json::lemma_list("["@, words, values, "\n  "@);
    assert("\n  "@ + seq![']'] =~= "\n  ]"@);
}

/// The alerts of a session are read back.
proof fn lemma_alerts_are_read_back(items: Seq<AlertRecord>)
    ensures
        json::reads_as(
            "["@ + (text::joined(items.map_values(|item: AlertRecord| alert_json(item)), ","@) + "\n  ]"@),
            Json::List(
                items.map_values(
                    |alert: AlertRecord|
                        Json::Object(
                            seq![
                                ("id"@, Json::Number(alert.id as int)),
                                ("occurred_at_ns"@, Json::Number(alert.occurred_at_unix_nanos as int)),
                                ("kind"@, Json::Text(match alert.kind {
                                        AlertKind::NewProcess => "new_process"@,
                                        AlertKind::NewEndpoint => "new_endpoint"@,
                                        AlertKind::UploadThreshold => "upload_threshold"@,
                                        AlertKind::DownloadThreshold => "download_threshold"@,
                                        AlertKind::TrafficSpike => "traffic_spike"@,
                                        AlertKind::RiskEvent => "risk_event"@,
                                    })),
                                ("title"@, Json::Text(alert.title@)),
                                ("detail"@, Json::Text(alert.detail@)),
                                ("process_name"@, json::text_or_null(text::optional(alert.process_name))),
                                ("remote_address"@, json::text_or_null(text::optional(alert.remote_address))),
                            ],
                        ),
                ),
            ),
        ),
{
    let words = items.map_values(|item: AlertRecord| alert_json(item));
    let values = items.map_values(
        |alert: AlertRecord|
            Json::Object(
                seq![
                    ("id"@, Json::Number(alert.id as int)),
                    ("occurred_at_ns"@, Json::Number(alert.occurred_at_unix_nanos as int)),
                    ("kind"@, Json::Text(match alert.kind {
                                        AlertKind::NewProcess => "new_process"@,
                                        AlertKind::NewEndpoint => "new_endpoint"@,
                                        AlertKind::UploadThreshold => "upload_threshold"@,
                                        AlertKind::DownloadThreshold => "download_threshold"@,
                                        AlertKind::TrafficSpike => "traffic_spike"@,
                                        AlertKind::RiskEvent => "risk_event"@,
                                    })),
                    ("title"@, Json::Text(alert.title@)),
                    ("detail"@, Json::Text(alert.detail@)),
                    ("process_name"@, json::text_or_null(text::optional(alert.process_name))),
                    ("remote_address"@, json::text_or_null(text::optional(alert.remote_address))),
                ],
            ),
    );
    assert forall|i: int| 0 <= i < words.len() implies json::reads_as(
        #[trigger] words[i],
        values[i],
    ) by {
        lemma_alert_is_read_back(items[i]);
    }
    reveal_strlit("[");
    reveal_strlit("\n  ");
    reveal_strlit("\n  ]");
    json::lemma_list("["@, words, values, "\n  "@);
    assert("\n  "@ + seq![']'] =~= "\n  ]"@);
}

/// The text of a session and its lists.
spec fn whole_text(
    session: Seq<char>,
    buckets: Seq<char>,
    processes: Seq<char>,
    endpoints: Seq<char>,
    alerts: Seq<char>,
) -> Seq<char> {
    "{\n  \"schema_version\": "@
        + "1"@
        + ",\n  \"session\": "@
        + session
        + ",\n  \"buckets\": "@
        + buckets
        + ",\n  \"processes\": "@
        + processes
        + ",\n  \"endpoints\": "@
        + endpoints
        + ",\n  \"alerts\": "@
        + alerts
        + "\n}"@
}

proof fn lemma_one()
    ensures
        json::reads_as("1"@, Json::Number(1)),
{
    reveal_strlit("1");
    assert(text::decimal(1) =~= "1"@);
    json::lemma_number(1);
}

/// A session and its lists are read as the members that they are.
#[verifier::rlimit(60)]
proof fn lemma_whole_is_read_back(
    session: Seq<char>,
    buckets: Seq<char>,
    processes: Seq<char>,
    endpoints: Seq<char>,
    alerts: Seq<char>,
    session_value: Json,
    buckets_value: Json,
    processes_value: Json,
    endpoints_value: Json,
    alerts_value: Json,
)
    requires
        json::reads_as(session, session_value),
        json::reads_as(buckets, buckets_value),
        json::reads_as(processes, processes_value),
        json::reads_as(endpoints, endpoints_value),
        json::reads_as(alerts, alerts_value),
    ensures
        json::reads_as(
            whole_text(session, buckets, processes, endpoints, alerts),
            Json::Object(
                seq![
                    ("schema_version"@, Json::Number(1)),
                    ("session"@, session_value),
                    ("buckets"@, buckets_value),
                    ("processes"@, processes_value),
                    ("endpoints"@, endpoints_value),
                    ("alerts"@, alerts_value),
                ],
            ),
        ),
{
    lemma_labels();
    lemma_one();
    let end6 = "\n}"@;
    let last6 = Seq::<(Seq<char>, Json)>::empty();
    let end5 = ",\n  \"alerts\": "@ + (alerts + end6);
    let last5 = seq![("alerts"@, alerts_value)] + last6;
    json::lemma_member(",\n  \"alerts\": "@, "alerts"@, alerts, alerts_value, end6, last6);
    let end4 = ",\n  \"endpoints\": "@ + (endpoints + end5);
    let last4 = seq![("endpoints"@, endpoints_value)] + last5;
    json::lemma_member(",\n  \"endpoints\": "@, "endpoints"@, endpoints, endpoints_value, end5, last5);
    let end3 = ",\n  \"processes\": "@ + (processes + end4);
    let last3 = seq![("processes"@, processes_value)] + last4;
    json::lemma_member(",\n  \"processes\": "@, "processes"@, processes, processes_value, end4, last4);
    let end2 = ",\n  \"buckets\": "@ + (buckets + end3);
    let last2 = seq![("buckets"@, buckets_value)] + last3;
    json::lemma_member(",\n  \"buckets\": "@, "buckets"@, buckets, buckets_value, end3, last3);
    let end1 = ",\n  \"session\": "@ + (session + end2);
    let last1 = seq![("session"@, session_value)] + last2;
    json::lemma_member(",\n  \"session\": "@, "session"@, session, session_value, end2, last2);
    json::lemma_object("{\n  \"schema_version\": "@, "schema_version"@, "1"@, Json::Number(1), end1, last1);
    assert(whole_text(session, buckets, processes, endpoints, alerts) == "{\n  \"schema_version\": "@ + ("1"@ + end1)) by {
        broadcast use json::lemma_grouping;
    }
    assert(seq![("schema_version"@, Json::Number(1))] + last1 =~= seq![
        ("schema_version"@, Json::Number(1)),
        ("session"@, session_value),
        ("buckets"@, buckets_value),
        ("processes"@, processes_value),
        ("endpoints"@, endpoints_value),
        ("alerts"@, alerts_value),
    ]);
}

/// The text of a session starts with the version of the format and the session's own fields.
#[verifier::rlimit(60)]
proof fn lemma_session_text(session: SessionRecord)
    ensures
        session_json(session) == "{\n  \"schema_version\": "@ + "1"@ + ",\n  \"session\": "@ + session_object(session) + ",\n  \"buckets\": "@ + "["@,
{
    lemma_pieces();
    assert(session_json(session) == "{\n  \"schema_version\": "@ + "1"@ + ",\n  \"session\": "@ + session_object(session) + ",\n  \"buckets\": "@ + "["@) by {
        broadcast use json::lemma_grouping;
    }
}

/// The JSON of a session is the text of its own fields and of its lists.
#[verifier::rlimit(60)]
proof fn lemma_detail_text(detail: SessionDetail)
    ensures
        detail_json(detail) == whole_text(
            session_object(detail.session),
            "["@ + (text::joined(
                detail.buckets@.map_values(|item: SessionBucket| bucket_json(item)),
                ","@,
            ) + "\n  ]"@),
            "["@ + (text::joined(
                detail.processes@.map_values(|item: ProcessSessionSummary| process_json(item)),
                ","@,
            ) + "\n  ]"@),
            "["@ + (text::joined(
                detail.endpoints@.map_values(|item: EndpointSummary| endpoint_json(item)),
                ","@,
            ) + "\n  ]"@),
            "["@ + (text::joined(
                detail.alerts@.map_values(|item: AlertRecord| alert_json(item)),
                ","@,
            ) + "\n  ]"@),
        ) + "\n"@,
{
    lemma_pieces();
    lemma_session_text(detail.session);
    let buckets = text::joined(detail.buckets@.map_values(|item: SessionBucket| bucket_json(item)), ","@);
    let processes = text::joined(detail.processes@.map_values(|item: ProcessSessionSummary| process_json(item)), ","@);
    let endpoints = text::joined(detail.endpoints@.map_values(|item: EndpointSummary| endpoint_json(item)), ","@);
    let alerts = text::joined(detail.alerts@.map_values(|item: AlertRecord| alert_json(item)), ","@);
    assert(detail_json(detail) == whole_text(
        session_object(detail.session),
        "["@ + (buckets + "\n  ]"@),
        "["@ + (processes + "\n  ]"@),
        "["@ + (endpoints + "\n  ]"@),
        "["@ + (alerts + "\n  ]"@),
    ) + "\n"@) by {
        broadcast use json::lemma_grouping;
    }
}

/// The JSON of a session, read by a reader of the format, is the session: its own fields, and every
/// bucket, process, endpoint and alert in its place, each value under its name.
#[verifier::rlimit(60)]
pub proof fn law_session_json_is_read_back(detail: SessionDetail)
    ensures
        json::read(exported(detail, ExportFormat::Json)) == Some(
            Json::Object(
                seq![
                    ("schema_version"@, Json::Number(1)),
                    (
                        "session"@,
                        Json::Object(
                            seq![
                            ("id"@, Json::Number(detail.session.id.0 as int)),
                            ("name"@, Json::Text(detail.session.name@)),
                            ("notes"@, Json::Text(detail.session.notes@)),
                            ("status"@, Json::Text(match detail.session.status {
                                        SessionStatus::Recording => "recording"@,
                                        SessionStatus::Completed => "completed"@,
                                        SessionStatus::Interrupted => "interrupted"@,
                                    })),
                            ("started_at_ns"@, Json::Number(detail.session.started_at_unix_nanos as int)),
                            ("ended_at_ns"@, match detail.session.ended_at_unix_nanos {
                                    Some(end) => Json::Number(end as int),
                                    None => Json::Null,
                                }),
                            ("send_bytes"@, Json::Number(detail.session.send_bytes as int)),
                            ("receive_bytes"@, Json::Number(detail.session.receive_bytes as int)),
                            ("event_count"@, Json::Number(detail.session.event_count as int)),
                            ],
                        ),
                    ),
                    (
                        "buckets"@,
                        Json::List(
                            detail.buckets@.map_values(
                                |bucket: SessionBucket|
                                    Json::Object(
                                        seq![
                                            ("start_ns"@, Json::Number(bucket.start_unix_nanos as int)),
                                            ("send_bytes"@, Json::Number(bucket.send_bytes as int)),
                                            ("receive_bytes"@, Json::Number(bucket.receive_bytes as int)),
                                            ("event_count"@, Json::Number(bucket.event_count as int)),
                                        ],
                                    ),
                            ),
                        ),
                    ),
                    (
                        "processes"@,
                        Json::List(
                            detail.processes@.map_values(
                                |process: ProcessSessionSummary|
                                    Json::Object(
                                        seq![
                                            ("pid"@, Json::Number(process.pid as int)),
                                            ("started_at_ns"@, Json::Number(process.started_at_unix_nanos as int)),
                                            ("name"@, Json::Text(process.name@)),
                                            ("image_path"@, json::text_or_null(text::optional(process.image_path))),
                                            ("send_bytes"@, Json::Number(process.send_bytes as int)),
                                            ("receive_bytes"@, Json::Number(process.receive_bytes as int)),
                                            ("connection_count"@, Json::Number(process.connection_count as int)),
                                        ],
                                    ),
                            ),
                        ),
                    ),
                    (
                        "endpoints"@,
                        Json::List(
                            detail.endpoints@.map_values(
                                |endpoint: EndpointSummary|
                                    Json::Object(
                                        seq![
                                            ("protocol"@, Json::Text(endpoint.protocol@)),
                                            ("remote_address"@, Json::Text(endpoint.remote_address@)),
                                            ("process_name"@, Json::Text(endpoint.process_name@)),
                                            ("first_seen_ns"@, Json::Number(endpoint.first_seen_unix_nanos as int)),
                                            ("last_seen_ns"@, Json::Number(endpoint.last_seen_unix_nanos as int)),
                                            ("connection_count"@, Json::Number(endpoint.connection_count as int)),
                                        ],
                                    ),
                            ),
                        ),
                    ),
                    (
                        "alerts"@,
                        Json::List(
                            detail.alerts@.map_values(
                                |alert: AlertRecord|
                                    Json::Object(
                                        seq![
                                            ("id"@, Json::Number(alert.id as int)),
                                            ("occurred_at_ns"@, Json::Number(alert.occurred_at_unix_nanos as int)),
                                            ("kind"@, Json::Text(match alert.kind {
                                        AlertKind::NewProcess => "new_process"@,
                                        AlertKind::NewEndpoint => "new_endpoint"@,
                                        AlertKind::UploadThreshold => "upload_threshold"@,
                                        AlertKind::DownloadThreshold => "download_threshold"@,
                                        AlertKind::TrafficSpike => "traffic_spike"@,
                                        AlertKind::RiskEvent => "risk_event"@,
                                    })),
                                            ("title"@, Json::Text(alert.title@)),
                                            ("detail"@, Json::Text(alert.detail@)),
                                            ("process_name"@, json::text_or_null(text::optional(alert.process_name))),
                                            ("remote_address"@, json::text_or_null(text::optional(alert.remote_address))),
                                        ],
                                    ),
                            ),
                        ),
                    ),
                ],
            ),
        ),
{
    lemma_session_is_read_back(detail.session);
    lemma_buckets_are_read_back(detail.buckets@);
    lemma_processes_are_read_back(detail.processes@);
    lemma_endpoints_are_read_back(detail.endpoints@);
    lemma_alerts_are_read_back(detail.alerts@);
    lemma_detail_text(detail);
    let session_value = Json::Object(
        seq![
                            ("id"@, Json::Number(detail.session.id.0 as int)),
                            ("name"@, Json::Text(detail.session.name@)),
                            ("notes"@, Json::Text(detail.session.notes@)),
                            ("status"@, Json::Text(match detail.session.status {
                                        SessionStatus::Recording => "recording"@,
                                        SessionStatus::Completed => "completed"@,
                                        SessionStatus::Interrupted => "interrupted"@,
                                    })),
                            ("started_at_ns"@, Json::Number(detail.session.started_at_unix_nanos as int)),
                            ("ended_at_ns"@, match detail.session.ended_at_unix_nanos {
                                    Some(end) => Json::Number(end as int),
                                    None => Json::Null,
                                }),
                            ("send_bytes"@, Json::Number(detail.session.send_bytes as int)),
                            ("receive_bytes"@, Json::Number(detail.session.receive_bytes as int)),
                            ("event_count"@, Json::Number(detail.session.event_count as int)),
        ],
    );
    let buckets_value = Json::List(
        detail.buckets@.map_values(
            |bucket: SessionBucket|
                                    Json::Object(
                                        seq![
                                            ("start_ns"@, Json::Number(bucket.start_unix_nanos as int)),
                                            ("send_bytes"@, Json::Number(bucket.send_bytes as int)),
                                            ("receive_bytes"@, Json::Number(bucket.receive_bytes as int)),
                                            ("event_count"@, Json::Number(bucket.event_count as int)),
                                        ],
                                    ),
        ),
    );
    let processes_value = Json::List(
        detail.processes@.map_values(
            |process: ProcessSessionSummary|
                                    Json::Object(
                                        seq![
                                            ("pid"@, Json::Number(process.pid as int)),
                                            ("started_at_ns"@, Json::Number(process.started_at_unix_nanos as int)),
                                            ("name"@, Json::Text(process.name@)),
                                            ("image_path"@, json::text_or_null(text::optional(process.image_path))),
                                            ("send_bytes"@, Json::Number(process.send_bytes as int)),
                                            ("receive_bytes"@, Json::Number(process.receive_bytes as int)),
                                            ("connection_count"@, Json::Number(process.connection_count as int)),
                                        ],
                                    ),
        ),
    );
    let endpoints_value = Json::List(
        detail.endpoints@.map_values(
            |endpoint: EndpointSummary|
                                    Json::Object(
                                        seq![
                                            ("protocol"@, Json::Text(endpoint.protocol@)),
                                            ("remote_address"@, Json::Text(endpoint.remote_address@)),
                                            ("process_name"@, Json::Text(endpoint.process_name@)),
                                            ("first_seen_ns"@, Json::Number(endpoint.first_seen_unix_nanos as int)),
                                            ("last_seen_ns"@, Json::Number(endpoint.last_seen_unix_nanos as int)),
                                            ("connection_count"@, Json::Number(endpoint.connection_count as int)),
                                        ],
                                    ),
        ),
    );
    let alerts_value = Json::List(
        detail.alerts@.map_values(
            |alert: AlertRecord|
                                    Json::Object(
                                        seq![
                                            ("id"@, Json::Number(alert.id as int)),
                                            ("occurred_at_ns"@, Json::Number(alert.occurred_at_unix_nanos as int)),
                                            ("kind"@, Json::Text(match alert.kind {
                                        AlertKind::NewProcess => "new_process"@,
                                        AlertKind::NewEndpoint => "new_endpoint"@,
                                        AlertKind::UploadThreshold => "upload_threshold"@,
                                        AlertKind::DownloadThreshold => "download_threshold"@,
                                        AlertKind::TrafficSpike => "traffic_spike"@,
                                        AlertKind::RiskEvent => "risk_event"@,
                                    })),
                                            ("title"@, Json::Text(alert.title@)),
                                            ("detail"@, Json::Text(alert.detail@)),
                                            ("process_name"@, json::text_or_null(text::optional(alert.process_name))),
                                            ("remote_address"@, json::text_or_null(text::optional(alert.remote_address))),
                                        ],
                                    ),
        ),
    );
    lemma_whole_is_read_back(
        session_object(detail.session),
        "["@ + (text::joined(
            detail.buckets@.map_values(|item: SessionBucket| bucket_json(item)),
            ","@,
        ) + "\n  ]"@),
        "["@ + (text::joined(
            detail.processes@.map_values(|item: ProcessSessionSummary| process_json(item)),
            ","@,
        ) + "\n  ]"@),
        "["@ + (text::joined(
            detail.endpoints@.map_values(|item: EndpointSummary| endpoint_json(item)),
            ","@,
        ) + "\n  ]"@),
        "["@ + (text::joined(
            detail.alerts@.map_values(|item: AlertRecord| alert_json(item)),
            ","@,
        ) + "\n  ]"@),
        session_value,
        buckets_value,
        processes_value,
        endpoints_value,
        alerts_value,
    );
    json::lemma_read(
        whole_text(
            session_object(detail.session),
            "["@ + (text::joined(
                detail.buckets@.map_values(|item: SessionBucket| bucket_json(item)),
                ","@,
            ) + "\n  ]"@),
            "["@ + (text::joined(
                detail.processes@.map_values(|item: ProcessSessionSummary| process_json(item)),
                ","@,
            ) + "\n  ]"@),
            "["@ + (text::joined(
                detail.endpoints@.map_values(|item: EndpointSummary| endpoint_json(item)),
                ","@,
            ) + "\n  ]"@),
            "["@ + (text::joined(
                detail.alerts@.map_values(|item: AlertRecord| alert_json(item)),
                ","@,
            ) + "\n  ]"@),
        ),
        Json::Object(
            seq![
                ("schema_version"@, Json::Number(1)),
                ("session"@, session_value),
                ("buckets"@, buckets_value),
                ("processes"@, processes_value),
                ("endpoints"@, endpoints_value),
                ("alerts"@, alerts_value),
            ],
        ),
    );
}

/// The fields of the row of a session, in the order of the columns.
#[verifier::opaque]
pub open spec fn session_fields(session: SessionRecord) -> Seq<Seq<char>> {
    seq![
        "session"@,
        text::decimal(session.started_at_unix_nanos as nat),
        ""@,
        session.name@,
        match session.status {
            SessionStatus::Recording => "recording"@,
            SessionStatus::Completed => "completed"@,
            SessionStatus::Interrupted => "interrupted"@,
        },
        ""@,
        text::decimal(session.send_bytes as nat),
        text::decimal(session.receive_bytes as nat),
        text::decimal(session.event_count as nat),
        ""@,
        "ended_at_ns="@ + (match session.ended_at_unix_nanos {
            Some(end) => "Some("@ + text::decimal(end as nat) + ")"@,
            None => "None"@,
        }) + "; notes="@ + session.notes@,
    ]
}

/// The fields of the row of a bucket, in the order of the columns.
#[verifier::opaque]
pub open spec fn bucket_fields(bucket: SessionBucket) -> Seq<Seq<char>> {
    seq![
        "bucket"@,
        text::decimal(bucket.start_unix_nanos as nat),
        ""@,
        ""@,
        ""@,
        ""@,
        text::decimal(bucket.send_bytes as nat),
        text::decimal(bucket.receive_bytes as nat),
        text::decimal(bucket.event_count as nat),
        ""@,
        ""@,
    ]
}

/// The fields of the row of a process, in the order of the columns.
#[verifier::opaque]
pub open spec fn process_fields(process: ProcessSessionSummary) -> Seq<Seq<char>> {
    seq![
        "process"@,
        ""@,
        text::decimal(process.pid as nat),
        process.name@,
        ""@,
        ""@,
        text::decimal(process.send_bytes as nat),
        text::decimal(process.receive_bytes as nat),
        ""@,
        text::decimal(process.connection_count as nat),
        "started_at_ns="@ + text::decimal(process.started_at_unix_nanos as nat)
            + "; image_path="@ + (match process.image_path {
            Some(path) => path@,
            None => Seq::empty(),
        }),
    ]
}

/// The fields of the row of an endpoint, in the order of the columns.
#[verifier::opaque]
pub open spec fn endpoint_fields(endpoint: EndpointSummary) -> Seq<Seq<char>> {
    seq![
        "endpoint"@,
        ""@,
        ""@,
        endpoint.process_name@,
        endpoint.protocol@,
        endpoint.remote_address@,
        ""@,
        ""@,
        ""@,
        text::decimal(endpoint.connection_count as nat),
        "first_seen_ns="@ + text::decimal(endpoint.first_seen_unix_nanos as nat)
            + "; last_seen_ns="@ + text::decimal(endpoint.last_seen_unix_nanos as nat),
    ]
}

/// The fields of the row of an alert, in the order of the columns.
#[verifier::opaque]
pub open spec fn alert_fields(alert: AlertRecord) -> Seq<Seq<char>> {
    seq![
        "alert"@,
        text::decimal(alert.occurred_at_unix_nanos as nat),
        ""@,
        ""@,
        match alert.kind {
            AlertKind::NewProcess => "new_process"@,
            AlertKind::NewEndpoint => "new_endpoint"@,
            AlertKind::UploadThreshold => "upload_threshold"@,
            AlertKind::DownloadThreshold => "download_threshold"@,
            AlertKind::TrafficSpike => "traffic_spike"@,
            AlertKind::RiskEvent => "risk_event"@,
        },
        ""@,
        ""@,
        ""@,
        ""@,
        ""@,
        ""@ + alert.title@ + ": "@ + alert.detail@ + "; process="@ + (match alert.process_name {
            Some(name) => name@,
            None => Seq::empty(),
        }) + "; remote="@ + (match alert.remote_address {
            Some(remote) => remote@,
            None => Seq::empty(),
        }),
    ]
}

/// How the commas between two fields are put together.
proof fn lemma_commas()
    ensures
        ",,"@ == ","@ + ","@,
        ",,,"@ == ","@ + ","@ + ","@,
        ",,,,"@ == ","@ + ","@ + ","@ + ","@,
        ",,,,,"@ == ","@ + ","@ + ","@ + ","@ + ","@,
        ",,,,,,"@ == ","@ + ","@ + ","@ + ","@ + ","@ + ","@,
        "session,"@ == "session"@ + ","@,
        "bucket,"@ == "bucket"@ + ","@,
        "process,,"@ == "process"@ + ","@ + ","@,
        "endpoint,,,"@ == "endpoint"@ + ","@ + ","@ + ","@,
        "alert,"@ == "alert"@ + ","@,
        ",,\r\n"@ == ","@ + ","@ + "\r\n"@,
{
    assert(",,"@ == ","@ + ","@) by {
        reveal_strlit(",,");
        reveal_strlit(",");
    }
    assert(",,,"@ == ","@ + ","@ + ","@) by {
        reveal_strlit(",,,");
        reveal_strlit(",");
    }
    assert(",,,,"@ == ","@ + ","@ + ","@ + ","@) by {
        reveal_strlit(",,,,");
        reveal_strlit(",");
    }
    assert(",,,,,"@ == ","@ + ","@ + ","@ + ","@ + ","@) by {
        reveal_strlit(",,,,,");
        reveal_strlit(",");
    }
    assert(",,,,,,"@ == ","@ + ","@ + ","@ + ","@ + ","@ + ","@) by {
        reveal_strlit(",,,,,,");
        reveal_strlit(",");
    }
    assert("session,"@ == "session"@ + ","@) by {
        reveal_strlit("session,");
        reveal_strlit("session");
        reveal_strlit(",");
    }
    assert("bucket,"@ == "bucket"@ + ","@) by {
        reveal_strlit("bucket,");
        reveal_strlit("bucket");
        reveal_strlit(",");
    }
    assert("process,,"@ == "process"@ + ","@ + ","@) by {
        reveal_strlit("process,,");
        reveal_strlit("process");
        reveal_strlit(",");
    }
    assert("endpoint,,,"@ == "endpoint"@ + ","@ + ","@ + ","@) by {
        reveal_strlit("endpoint,,,");
        reveal_strlit("endpoint");
        reveal_strlit(",");
    }
    assert("alert,"@ == "alert"@ + ","@) by {
        reveal_strlit("alert,");
        reveal_strlit("alert");
        reveal_strlit(",");
    }
    assert(",,\r\n"@ == ","@ + ","@ + "\r\n"@) by {
        reveal_strlit(",,\r\n");
        reveal_strlit(",");
        reveal_strlit("\r\n");
    }
}

proof fn lemma_bare_words()
    ensures
        table::is_field("session"@, "session"@),
        table::is_field("bucket"@, "bucket"@),
        table::is_field("process"@, "process"@),
        table::is_field("endpoint"@, "endpoint"@),
        table::is_field("alert"@, "alert"@),
{
    assert(table::is_field("session"@, "session"@)) by {
        reveal_strlit("session");
        table::lemma_bare_field("session"@);
    }
    assert(table::is_field("bucket"@, "bucket"@)) by {
        reveal_strlit("bucket");
        table::lemma_bare_field("bucket"@);
    }
    assert(table::is_field("process"@, "process"@)) by {
        reveal_strlit("process");
        table::lemma_bare_field("process"@);
    }
    assert(table::is_field("endpoint"@, "endpoint"@)) by {
        reveal_strlit("endpoint");
        table::lemma_bare_field("endpoint"@);
    }
    assert(table::is_field("alert"@, "alert"@)) by {
        reveal_strlit("alert");
        table::lemma_bare_field("alert"@);
    }
}

proof fn lemma_bare_status(status: SessionStatus)
    ensures
        table::is_field(session::status_name(status), session::status_name(status)),
{
    reveal_strlit("recording");
    reveal_strlit("completed");
    reveal_strlit("interrupted");
    table::lemma_bare_field(session::status_name(status));
}

proof fn lemma_bare_alert(kind: AlertKind)
    ensures
        table::is_field(session::alert_name(kind), session::alert_name(kind)),
{
    reveal_strlit("new_process");
    reveal_strlit("new_endpoint");
    reveal_strlit("upload_threshold");
    reveal_strlit("download_threshold");
    reveal_strlit("traffic_spike");
    reveal_strlit("risk_event");
    table::lemma_bare_field(session::alert_name(kind));
}

proof fn lemma_empty_end()
    ensures
        table::is_row("\r\n"@, seq![""@]),
{
    reveal_strlit("");
    table::lemma_bare_field(""@);
    table::lemma_last_cell(""@, ""@);
    assert(""@ + "\r\n"@ =~= "\r\n"@);
}

/// The names of the columns are read back.
#[verifier::rlimit(60)]
proof fn lemma_heading_is_read_back()
    ensures
        table::is_row(
            "section,start_ns,pid,name,protocol,remote_address,send_bytes,receive_bytes,event_count,connection_count,detail\r\n"@,
            seq![
                "section"@,
                "start_ns"@,
                "pid"@,
                "name"@,
                "protocol"@,
                "remote_address"@,
                "send_bytes"@,
                "receive_bytes"@,
                "event_count"@,
                "connection_count"@,
                "detail"@,
            ],
        ),
{
    assert(table::is_field("section"@, "section"@)) by {
        reveal_strlit("section");
        table::lemma_bare_field("section"@);
    }
    assert(table::is_field("start_ns"@, "start_ns"@)) by {
        reveal_strlit("start_ns");
        table::lemma_bare_field("start_ns"@);
    }
    assert(table::is_field("pid"@, "pid"@)) by {
        reveal_strlit("pid");
        table::lemma_bare_field("pid"@);
    }
    assert(table::is_field("name"@, "name"@)) by {
        reveal_strlit("name");
        table::lemma_bare_field("name"@);
    }
    assert(table::is_field("protocol"@, "protocol"@)) by {
        reveal_strlit("protocol");
        table::lemma_bare_field("protocol"@);
    }
    assert(table::is_field("remote_address"@, "remote_address"@)) by {
        reveal_strlit("remote_address");
        table::lemma_bare_field("remote_address"@);
    }
    assert(table::is_field("send_bytes"@, "send_bytes"@)) by {
        reveal_strlit("send_bytes");
        table::lemma_bare_field("send_bytes"@);
    }
    assert(table::is_field("receive_bytes"@, "receive_bytes"@)) by {
        reveal_strlit("receive_bytes");
        table::lemma_bare_field("receive_bytes"@);
    }
    assert(table::is_field("event_count"@, "event_count"@)) by {
        reveal_strlit("event_count");
        table::lemma_bare_field("event_count"@);
    }
    assert(table::is_field("connection_count"@, "connection_count"@)) by {
        reveal_strlit("connection_count");
        table::lemma_bare_field("connection_count"@);
    }
    assert(table::is_field("detail"@, "detail"@)) by {
        reveal_strlit("detail");
        table::lemma_bare_field("detail"@);
    }
    let row11 = "detail"@ + "\r\n"@;
    let fields11 = seq!["detail"@];
    table::lemma_last_cell("detail"@, "detail"@);
    let row10 = "connection_count"@ + (","@ + row11);
    let fields10 = seq!["connection_count"@] + fields11;
    table::lemma_cell("connection_count"@, "connection_count"@, row11, fields11);
    let row9 = "event_count"@ + (","@ + row10);
    let fields9 = seq!["event_count"@] + fields10;
    table::lemma_cell("event_count"@, "event_count"@, row10, fields10);
    let row8 = "receive_bytes"@ + (","@ + row9);
    let fields8 = seq!["receive_bytes"@] + fields9;
    table::lemma_cell("receive_bytes"@, "receive_bytes"@, row9, fields9);
    let row7 = "send_bytes"@ + (","@ + row8);
    let fields7 = seq!["send_bytes"@] + fields8;
    table::lemma_cell("send_bytes"@, "send_bytes"@, row8, fields8);
    let row6 = "remote_address"@ + (","@ + row7);
    let fields6 = seq!["remote_address"@] + fields7;
    table::lemma_cell("remote_address"@, "remote_address"@, row7, fields7);
    let row5 = "protocol"@ + (","@ + row6);
    let fields5 = seq!["protocol"@] + fields6;
    table::lemma_cell("protocol"@, "protocol"@, row6, fields6);
    let row4 = "name"@ + (","@ + row5);
    let fields4 = seq!["name"@] + fields5;
    table::lemma_cell("name"@, "name"@, row5, fields5);
    let row3 = "pid"@ + (","@ + row4);
    let fields3 = seq!["pid"@] + fields4;
    table::lemma_cell("pid"@, "pid"@, row4, fields4);
    let row2 = "start_ns"@ + (","@ + row3);
    let fields2 = seq!["start_ns"@] + fields3;
    table::lemma_cell("start_ns"@, "start_ns"@, row3, fields3);
    let row1 = "section"@ + (","@ + row2);
    let fields1 = seq!["section"@] + fields2;
    table::lemma_cell("section"@, "section"@, row2, fields2);
    assert("section,start_ns,pid,name,protocol,remote_address,send_bytes,receive_bytes,event_count,connection_count,detail\r\n"@ == row1) by {
        reveal_strlit("section,start_ns,pid,name,protocol,remote_address,send_bytes,receive_bytes,event_count,connection_count,detail\r\n");
        reveal_strlit("section");
        reveal_strlit(",");
        reveal_strlit("start_ns");
        reveal_strlit("pid");
        reveal_strlit("name");
        reveal_strlit("protocol");
        reveal_strlit("remote_address");
        reveal_strlit("send_bytes");
        reveal_strlit("receive_bytes");
        reveal_strlit("event_count");
        reveal_strlit("connection_count");
        reveal_strlit("detail");
        reveal_strlit("\r\n");
        assert("section,start_ns,pid,name,protocol,remote_address,send_bytes,receive_bytes,event_count,connection_count,detail\r\n"@ =~= row1);
    }
    assert(fields1 =~= seq!["section"@, "start_ns"@, "pid"@, "name"@, "protocol"@, "remote_address"@, "send_bytes"@, "receive_bytes"@, "event_count"@, "connection_count"@, "detail"@]);
}

/// The row of a session is read back.
#[verifier::rlimit(60)]
proof fn lemma_session_row_is_read_back(session: SessionRecord)
    ensures
        table::is_row(
            session_row(session),
            seq![
                "session"@,
                text::decimal(session.started_at_unix_nanos as nat),
                ""@,
                session.name@,
                match session.status {
                    SessionStatus::Recording => "recording"@,
                    SessionStatus::Completed => "completed"@,
                    SessionStatus::Interrupted => "interrupted"@,
                },
                ""@,
                text::decimal(session.send_bytes as nat),
                text::decimal(session.receive_bytes as nat),
                text::decimal(session.event_count as nat),
                ""@,
                "ended_at_ns="@ + (match session.ended_at_unix_nanos {
                    Some(end) => "Some("@ + text::decimal(end as nat) + ")"@,
                    None => "None"@,
                }) + "; notes="@ + session.notes@,
            ],
        ),
{
    lemma_commas();
    lemma_bare_words();
    table::lemma_number_field(session.started_at_unix_nanos as nat);
    table::lemma_quoted_field(session.name@);
    lemma_bare_status(session.status);
    table::lemma_number_field(session.send_bytes as nat);
    table::lemma_number_field(session.receive_bytes as nat);
    table::lemma_number_field(session.event_count as nat);
    table::lemma_quoted_field(session_remark(session));
    let row11 = quoting::csv_field(session_remark(session)) + "\r\n"@;
    let fields11 = seq![session_remark(session)];
    table::lemma_last_cell(quoting::csv_field(session_remark(session)), session_remark(session));
    let row10 = ","@ + row11;
    let fields10 = seq![""@] + fields11;
    table::lemma_empty_cell(row11, fields11);
    let row9 = text::decimal(session.event_count as nat) + (","@ + row10);
    let fields9 = seq![text::decimal(session.event_count as nat)] + fields10;
    table::lemma_cell(text::decimal(session.event_count as nat), text::decimal(session.event_count as nat), row10, fields10);
    let row8 = text::decimal(session.receive_bytes as nat) + (","@ + row9);
    let fields8 = seq![text::decimal(session.receive_bytes as nat)] + fields9;
    table::lemma_cell(text::decimal(session.receive_bytes as nat), text::decimal(session.receive_bytes as nat), row9, fields9);
    let row7 = text::decimal(session.send_bytes as nat) + (","@ + row8);
    let fields7 = seq![text::decimal(session.send_bytes as nat)] + fields8;
    table::lemma_cell(text::decimal(session.send_bytes as nat), text::decimal(session.send_bytes as nat), row8, fields8);
    let row6 = ","@ + row7;
    let fields6 = seq![""@] + fields7;
    table::lemma_empty_cell(row7, fields7);
    let row5 = session::status_name(session.status) + (","@ + row6);
    let fields5 = seq![session::status_name(session.status)] + fields6;
    table::lemma_cell(session::status_name(session.status), session::status_name(session.status), row6, fields6);
    let row4 = quoting::csv_field(session.name@) + (","@ + row5);
    let fields4 = seq![session.name@] + fields5;
    table::lemma_cell(quoting::csv_field(session.name@), session.name@, row5, fields5);
    let row3 = ","@ + row4;
    let fields3 = seq![""@] + fields4;
    table::lemma_empty_cell(row4, fields4);
    let row2 = text::decimal(session.started_at_unix_nanos as nat) + (","@ + row3);
    let fields2 = seq![text::decimal(session.started_at_unix_nanos as nat)] + fields3;
    table::lemma_cell(text::decimal(session.started_at_unix_nanos as nat), text::decimal(session.started_at_unix_nanos as nat), row3, fields3);
    let row1 = "session"@ + (","@ + row2);
    let fields1 = seq!["session"@] + fields2;
    table::lemma_cell("session"@, "session"@, row2, fields2);
    assert(session_row(session) == row1) by {
        broadcast use json::lemma_grouping;
    }
    assert(fields1 =~= seq![
        "session"@,
        text::decimal(session.started_at_unix_nanos as nat),
        ""@,
        session.name@,
        match session.status {
            SessionStatus::Recording => "recording"@,
            SessionStatus::Completed => "completed"@,
            SessionStatus::Interrupted => "interrupted"@,
        },
        ""@,
        text::decimal(session.send_bytes as nat),
        text::decimal(session.receive_bytes as nat),
        text::decimal(session.event_count as nat),
        ""@,
        "ended_at_ns="@ + (match session.ended_at_unix_nanos {
            Some(end) => "Some("@ + text::decimal(end as nat) + ")"@,
            None => "None"@,
        }) + "; notes="@ + session.notes@,
    ]);
}

/// The row of a bucket is read back.
#[verifier::rlimit(60)]
proof fn lemma_bucket_row_is_read_back(bucket: SessionBucket)
    ensures
        table::is_row(
            bucket_row(bucket),
            seq![
                "bucket"@,
                text::decimal(bucket.start_unix_nanos as nat),
                ""@,
                ""@,
                ""@,
                ""@,
                text::decimal(bucket.send_bytes as nat),
                text::decimal(bucket.receive_bytes as nat),
                text::decimal(bucket.event_count as nat),
                ""@,
                ""@,
            ],
        ),
{
    lemma_commas();
    lemma_bare_words();
    table::lemma_number_field(bucket.start_unix_nanos as nat);
    table::lemma_number_field(bucket.send_bytes as nat);
    table::lemma_number_field(bucket.receive_bytes as nat);
    table::lemma_number_field(bucket.event_count as nat);
    let row11 = "\r\n"@;
    let fields11 = seq![""@];
    lemma_empty_end();
    let row10 = ","@ + row11;
    let fields10 = seq![""@] + fields11;
    table::lemma_empty_cell(row11, fields11);
    let row9 = text::decimal(bucket.event_count as nat) + (","@ + row10);
    let fields9 = seq![text::decimal(bucket.event_count as nat)] + fields10;
    table::lemma_cell(text::decimal(bucket.event_count as nat), text::decimal(bucket.event_count as nat), row10, fields10);
    let row8 = text::decimal(bucket.receive_bytes as nat) + (","@ + row9);
    let fields8 = seq![text::decimal(bucket.receive_bytes as nat)] + fields9;
    table::lemma_cell(text::decimal(bucket.receive_bytes as nat), text::decimal(bucket.receive_bytes as nat), row9, fields9);
    let row7 = text::decimal(bucket.send_bytes as nat) + (","@ + row8);
    let fields7 = seq![text::decimal(bucket.send_bytes as nat)] + fields8;
    table::lemma_cell(text::decimal(bucket.send_bytes as nat), text::decimal(bucket.send_bytes as nat), row8, fields8);
    let row6 = ","@ + row7;
    let fields6 = seq![""@] + fields7;
    table::lemma_empty_cell(row7, fields7);
    let row5 = ","@ + row6;
    let fields5 = seq![""@] + fields6;
    table::lemma_empty_cell(row6, fields6);
    let row4 = ","@ + row5;
    let fields4 = seq![""@] + fields5;
    table::lemma_empty_cell(row5, fields5);
    let row3 = ","@ + row4;
    let fields3 = seq![""@] + fields4;
    table::lemma_empty_cell(row4, fields4);
    let row2 = text::decimal(bucket.start_unix_nanos as nat) + (","@ + row3);
    let fields2 = seq![text::decimal(bucket.start_unix_nanos as nat)] + fields3;
    table::lemma_cell(text::decimal(bucket.start_unix_nanos as nat), text::decimal(bucket.start_unix_nanos as nat), row3, fields3);
    let row1 = "bucket"@ + (","@ + row2);
    let fields1 = seq!["bucket"@] + fields2;
    table::lemma_cell("bucket"@, "bucket"@, row2, fields2);
    assert(bucket_row(bucket) == row1) by {
        broadcast use json::lemma_grouping;
    }
    assert(fields1 =~= seq![
        "bucket"@,
        text::decimal(bucket.start_unix_nanos as nat),
        ""@,
        ""@,
        ""@,
        ""@,
        text::decimal(bucket.send_bytes as nat),
        text::decimal(bucket.receive_bytes as nat),
        text::decimal(bucket.event_count as nat),
        ""@,
        ""@,
    ]);
}

/// The row of a process is read back.
#[verifier::rlimit(60)]
proof fn lemma_process_row_is_read_back(process: ProcessSessionSummary)
    ensures
        table::is_row(
            process_row(process),
            seq![
                "process"@,
                ""@,
                text::decimal(process.pid as nat),
                process.name@,
                ""@,
                ""@,
                text::decimal(process.send_bytes as nat),
                text::decimal(process.receive_bytes as nat),
                ""@,
                text::decimal(process.connection_count as nat),
                "started_at_ns="@ + text::decimal(process.started_at_unix_nanos as nat)
                    + "; image_path="@ + (match process.image_path {
                    Some(path) => path@,
                    None => Seq::empty(),
                }),
            ],
        ),
{
    lemma_commas();
    lemma_bare_words();
    table::lemma_number_field(process.pid as nat);
    table::lemma_quoted_field(process.name@);
    table::lemma_number_field(process.send_bytes as nat);
    table::lemma_number_field(process.receive_bytes as nat);
    table::lemma_number_field(process.connection_count as nat);
    table::lemma_quoted_field(process_remark(process));
    let row11 = quoting::csv_field(process_remark(process)) + "\r\n"@;
    let fields11 = seq![process_remark(process)];
    table::lemma_last_cell(quoting::csv_field(process_remark(process)), process_remark(process));
    let row10 = text::decimal(process.connection_count as nat) + (","@ + row11);
    let fields10 = seq![text::decimal(process.connection_count as nat)] + fields11;
    table::lemma_cell(text::decimal(process.connection_count as nat), text::decimal(process.connection_count as nat), row11, fields11);
    let row9 = ","@ + row10;
    let fields9 = seq![""@] + fields10;
    table::lemma_empty_cell(row10, fields10);
    let row8 = text::decimal(process.receive_bytes as nat) + (","@ + row9);
    let fields8 = seq![text::decimal(process.receive_bytes as nat)] + fields9;
    table::lemma_cell(text::decimal(process.receive_bytes as nat), text::decimal(process.receive_bytes as nat), row9, fields9);
    let row7 = text::decimal(process.send_bytes as nat) + (","@ + row8);
    let fields7 = seq![text::decimal(process.send_bytes as nat)] + fields8;
    table::lemma_cell(text::decimal(process.send_bytes as nat), text::decimal(process.send_bytes as nat), row8, fields8);
    let row6 = ","@ + row7;
    let fields6 = seq![""@] + fields7;
    table::lemma_empty_cell(row7, fields7);
    let row5 = ","@ + row6;
    let fields5 = seq![""@] + fields6;
    table::lemma_empty_cell(row6, fields6);
    let row4 = quoting::csv_field(process.name@) + (","@ + row5);
    let fields4 = seq![process.name@] + fields5;
    table::lemma_cell(quoting::csv_field(process.name@), process.name@, row5, fields5);
    let row3 = text::decimal(process.pid as nat) + (","@ + row4);
    let fields3 = seq![text::decimal(process.pid as nat)] + fields4;
    table::lemma_cell(text::decimal(process.pid as nat), text::decimal(process.pid as nat), row4, fields4);
    let row2 = ","@ + row3;
    let fields2 = seq![""@] + fields3;
    table::lemma_empty_cell(row3, fields3);
    let row1 = "process"@ + (","@ + row2);
    let fields1 = seq!["process"@] + fields2;
    table::lemma_cell("process"@, "process"@, row2, fields2);
    assert(process_row(process) == row1) by {
        broadcast use json::lemma_grouping;
    }
    assert(fields1 =~= seq![
        "process"@,
        ""@,
        text::decimal(process.pid as nat),
        process.name@,
        ""@,
        ""@,
        text::decimal(process.send_bytes as nat),
        text::decimal(process.receive_bytes as nat),
        ""@,
        text::decimal(process.connection_count as nat),
        "started_at_ns="@ + text::decimal(process.started_at_unix_nanos as nat)
            + "; image_path="@ + (match process.image_path {
            Some(path) => path@,
            None => Seq::empty(),
        }),
    ]);
}

/// The row of an endpoint is read back.
#[verifier::rlimit(60)]
proof fn lemma_endpoint_row_is_read_back(endpoint: EndpointSummary)
    ensures
        table::is_row(
            endpoint_row(endpoint),
            seq![
                "endpoint"@,
                ""@,
                ""@,
                endpoint.process_name@,
                endpoint.protocol@,
                endpoint.remote_address@,
                ""@,
                ""@,
                ""@,
                text::decimal(endpoint.connection_count as nat),
                "first_seen_ns="@ + text::decimal(endpoint.first_seen_unix_nanos as nat)
                    + "; last_seen_ns="@ + text::decimal(endpoint.last_seen_unix_nanos as nat),
            ],
        ),
{
    lemma_commas();
    lemma_bare_words();
    table::lemma_quoted_field(endpoint.process_name@);
    table::lemma_quoted_field(endpoint.protocol@);
    table::lemma_quoted_field(endpoint.remote_address@);
    table::lemma_number_field(endpoint.connection_count as nat);
    table::lemma_quoted_field(endpoint_remark(endpoint));
    let row11 = quoting::csv_field(endpoint_remark(endpoint)) + "\r\n"@;
    let fields11 = seq![endpoint_remark(endpoint)];
    table::lemma_last_cell(quoting::csv_field(endpoint_remark(endpoint)), endpoint_remark(endpoint));
    let row10 = text::decimal(endpoint.connection_count as nat) + (","@ + row11);
    let fields10 = seq![text::decimal(endpoint.connection_count as nat)] + fields11;
    table::lemma_cell(text::decimal(endpoint.connection_count as nat), text::decimal(endpoint.connection_count as nat), row11, fields11);
    let row9 = ","@ + row10;
    let fields9 = seq![""@] + fields10;
    table::lemma_empty_cell(row10, fields10);
    let row8 = ","@ + row9;
    let fields8 = seq![""@] + fields9;
    table::lemma_empty_cell(row9, fields9);
    let row7 = ","@ + row8;
    let fields7 = seq![""@] + fields8;
    table::lemma_empty_cell(row8, fields8);
    let row6 = quoting::csv_field(endpoint.remote_address@) + (","@ + row7);
    let fields6 = seq![endpoint.remote_address@] + fields7;
    table::lemma_cell(quoting::csv_field(endpoint.remote_address@), endpoint.remote_address@, row7, fields7);
    let row5 = quoting::csv_field(endpoint.protocol@) + (","@ + row6);
    let fields5 = seq![endpoint.protocol@] + fields6;
    table::lemma_cell(quoting::csv_field(endpoint.protocol@), endpoint.protocol@, row6, fields6);
    let row4 = quoting::csv_field(endpoint.process_name@) + (","@ + row5);
    let fields4 = seq![endpoint.process_name@] + fields5;
    table::lemma_cell(quoting::csv_field(endpoint.process_name@), endpoint.process_name@, row5, fields5);
    let row3 = ","@ + row4;
    let fields3 = seq![""@] + fields4;
    table::lemma_empty_cell(row4, fields4);
    let row2 = ","@ + row3;
    let fields2 = seq![""@] + fields3;
    table::lemma_empty_cell(row3, fields3);
    let row1 = "endpoint"@ + (","@ + row2);
    let fields1 = seq!["endpoint"@] + fields2;
    table::lemma_cell("endpoint"@, "endpoint"@, row2, fields2);
    assert(endpoint_row(endpoint) == row1) by {
        broadcast use json::lemma_grouping;
    }
    assert(fields1 =~= seq![
        "endpoint"@,
        ""@,
        ""@,
        endpoint.process_name@,
        endpoint.protocol@,
        endpoint.remote_address@,
        ""@,
        ""@,
        ""@,
        text::decimal(endpoint.connection_count as nat),
        "first_seen_ns="@ + text::decimal(endpoint.first_seen_unix_nanos as nat)
            + "; last_seen_ns="@ + text::decimal(endpoint.last_seen_unix_nanos as nat),
    ]);
}

/// The row of an alert is read back.
#[verifier::rlimit(60)]
proof fn lemma_alert_row_is_read_back(alert: AlertRecord)
    ensures
        table::is_row(
            alert_row(alert),
            seq![
                "alert"@,
                text::decimal(alert.occurred_at_unix_nanos as nat),
                ""@,
                ""@,
                match alert.kind {
                    AlertKind::NewProcess => "new_process"@,
                    AlertKind::NewEndpoint => "new_endpoint"@,
                    AlertKind::UploadThreshold => "upload_threshold"@,
                    AlertKind::DownloadThreshold => "download_threshold"@,
                    AlertKind::TrafficSpike => "traffic_spike"@,
                    AlertKind::RiskEvent => "risk_event"@,
                },
                ""@,
                ""@,
                ""@,
                ""@,
                ""@,
                ""@ + alert.title@ + ": "@ + alert.detail@ + "; process="@ + (match alert.process_name {
                    Some(name) => name@,
                    None => Seq::empty(),
                }) + "; remote="@ + (match alert.remote_address {
                    Some(remote) => remote@,
                    None => Seq::empty(),
                }),
            ],
        ),
{
    lemma_commas();
    lemma_bare_words();
    table::lemma_number_field(alert.occurred_at_unix_nanos as nat);
    lemma_bare_alert(alert.kind);
    table::lemma_quoted_field(alert_remark(alert));
    let row11 = quoting::csv_field(alert_remark(alert)) + "\r\n"@;
    let fields11 = seq![alert_remark(alert)];
    table::lemma_last_cell(quoting::csv_field(alert_remark(alert)), alert_remark(alert));
    let row10 = ","@ + row11;
    let fields10 = seq![""@] + fields11;
    table::lemma_empty_cell(row11, fields11);
    let row9 = ","@ + row10;
    let fields9 = seq![""@] + fields10;
    table::lemma_empty_cell(row10, fields10);
    let row8 = ","@ + row9;
    let fields8 = seq![""@] + fields9;
    table::lemma_empty_cell(row9, fields9);
    let row7 = ","@ + row8;
    let fields7 = seq![""@] + fields8;
    table::lemma_empty_cell(row8, fields8);
    let row6 = ","@ + row7;
    let fields6 = seq![""@] + fields7;
    table::lemma_empty_cell(row7, fields7);
    let row5 = session::alert_name(alert.kind) + (","@ + row6);
    let fields5 = seq![session::alert_name(alert.kind)] + fields6;
    table::lemma_cell(session::alert_name(alert.kind), session::alert_name(alert.kind), row6, fields6);
    let row4 = ","@ + row5;
    let fields4 = seq![""@] + fields5;
    table::lemma_empty_cell(row5, fields5);
    let row3 = ","@ + row4;
    let fields3 = seq![""@] + fields4;
    table::lemma_empty_cell(row4, fields4);
    let row2 = text::decimal(alert.occurred_at_unix_nanos as nat) + (","@ + row3);
    let fields2 = seq![text::decimal(alert.occurred_at_unix_nanos as nat)] + fields3;
    table::lemma_cell(text::decimal(alert.occurred_at_unix_nanos as nat), text::decimal(alert.occurred_at_unix_nanos as nat), row3, fields3);
    let row1 = "alert"@ + (","@ + row2);
    let fields1 = seq!["alert"@] + fields2;
    table::lemma_cell("alert"@, "alert"@, row2, fields2);
    assert(alert_row(alert) == row1) by {
        broadcast use json::lemma_grouping;
    }
    assert(fields1 =~= seq![
        "alert"@,
        text::decimal(alert.occurred_at_unix_nanos as nat),
        ""@,
        ""@,
        match alert.kind {
            AlertKind::NewProcess => "new_process"@,
            AlertKind::NewEndpoint => "new_endpoint"@,
            AlertKind::UploadThreshold => "upload_threshold"@,
            AlertKind::DownloadThreshold => "download_threshold"@,
            AlertKind::TrafficSpike => "traffic_spike"@,
            AlertKind::RiskEvent => "risk_event"@,
        },
        ""@,
        ""@,
        ""@,
        ""@,
        ""@,
        ""@ + alert.title@ + ": "@ + alert.detail@ + "; process="@ + (match alert.process_name {
            Some(name) => name@,
            None => Seq::empty(),
        }) + "; remote="@ + (match alert.remote_address {
            Some(remote) => remote@,
            None => Seq::empty(),
        }),
    ]);
}

/// The rows of the buckets are read back.
proof fn lemma_buckets_rows_are_read_back(items: Seq<SessionBucket>)
    ensures
        table::is_table(
            text::flat(items.map_values(|item: SessionBucket| bucket_row(item))),
            items.map_values(|bucket: SessionBucket| bucket_fields(bucket)),
        ),
{
    let parts = items.map_values(|item: SessionBucket| bucket_row(item));
    let rows = items.map_values(|bucket: SessionBucket| bucket_fields(bucket));
    assert forall|i: int| 0 <= i < parts.len() implies table::is_row(
        #[trigger] parts[i],
        rows[i],
    ) by {
        lemma_bucket_row_is_read_back(items[i]);
        reveal(bucket_fields);
    }
    table::lemma_rows(parts, rows);
}

/// The rows of the processes are read back.
proof fn lemma_processes_rows_are_read_back(items: Seq<ProcessSessionSummary>)
    ensures
        table::is_table(
            text::flat(items.map_values(|item: ProcessSessionSummary| process_row(item))),
            items.map_values(|process: ProcessSessionSummary| process_fields(process)),
        ),
{
    let parts = items.map_values(|item: ProcessSessionSummary| process_row(item));
    let rows = items.map_values(|process: ProcessSessionSummary| process_fields(process));
    assert forall|i: int| 0 <= i < parts.len() implies table::is_row(
        #[trigger] parts[i],
        rows[i],
    ) by {
        lemma_process_row_is_read_back(items[i]);
        reveal(process_fields);
    }
    table::lemma_rows(parts, rows);
}

/// The rows of the endpoints are read back.
proof fn lemma_endpoints_rows_are_read_back(items: Seq<EndpointSummary>)
    ensures
        table::is_table(
            text::flat(items.map_values(|item: EndpointSummary| endpoint_row(item))),
            items.map_values(|endpoint: EndpointSummary| endpoint_fields(endpoint)),
        ),
{
    let parts = items.map_values(|item: EndpointSummary| endpoint_row(item));
    let rows = items.map_values(|endpoint: EndpointSummary| endpoint_fields(endpoint));
    assert forall|i: int| 0 <= i < parts.len() implies table::is_row(
        #[trigger] parts[i],
        rows[i],
    ) by {
        lemma_endpoint_row_is_read_back(items[i]);
        reveal(endpoint_fields);
    }
    table::lemma_rows(parts, rows);
}

/// The rows of the alerts are read back.
proof fn lemma_alerts_rows_are_read_back(items: Seq<AlertRecord>)
    ensures
        table::is_table(
            text::flat(items.map_values(|item: AlertRecord| alert_row(item))),
            items.map_values(|alert: AlertRecord| alert_fields(alert)),
        ),
{
    let parts = items.map_values(|item: AlertRecord| alert_row(item));
    let rows = items.map_values(|alert: AlertRecord| alert_fields(alert));
    assert forall|i: int| 0 <= i < parts.len() implies table::is_row(
        #[trigger] parts[i],
        rows[i],
    ) by {
        lemma_alert_row_is_read_back(items[i]);
        reveal(alert_fields);
    }
    table::lemma_rows(parts, rows);
}

/// The CSV of a session, read by a reader of the format, is a row of the names of the columns and a
/// row each of the session, its buckets, its processes, its endpoints and its alerts.
#[verifier::rlimit(60)]
pub proof fn law_session_csv_is_read_back(detail: SessionDetail)
    ensures
        table::read_table(exported(detail, ExportFormat::Csv)) == Some(
            seq![seq![
                "section"@,
                "start_ns"@,
                "pid"@,
                "name"@,
                "protocol"@,
                "remote_address"@,
                "send_bytes"@,
                "receive_bytes"@,
                "event_count"@,
                "connection_count"@,
                "detail"@,
            ]] + seq![session_fields(detail.session)]
                + detail.buckets@.map_values(|bucket: SessionBucket| bucket_fields(bucket))
                + detail.processes@.map_values(|process: ProcessSessionSummary| process_fields(process))
                + detail.endpoints@.map_values(|endpoint: EndpointSummary| endpoint_fields(endpoint))
                + detail.alerts@.map_values(|alert: AlertRecord| alert_fields(alert)),
        ),
{
    lemma_heading_is_read_back();
    lemma_session_row_is_read_back(detail.session);
    reveal(session_fields);
    lemma_buckets_rows_are_read_back(detail.buckets@);
    lemma_processes_rows_are_read_back(detail.processes@);
    lemma_endpoints_rows_are_read_back(detail.endpoints@);
    lemma_alerts_rows_are_read_back(detail.alerts@);
    let text0 = "section,start_ns,pid,name,protocol,remote_address,send_bytes,receive_bytes,event_count,connection_count,detail\r\n"@;
    let text1 = session_row(detail.session);
    let text2 = text::flat(detail.buckets@.map_values(|item: SessionBucket| bucket_row(item)));
    let text3 = text::flat(detail.processes@.map_values(|item: ProcessSessionSummary| process_row(item)));
    let text4 = text::flat(detail.endpoints@.map_values(|item: EndpointSummary| endpoint_row(item)));
    let text5 = text::flat(detail.alerts@.map_values(|item: AlertRecord| alert_row(item)));
    let heading = seq![seq![
        "section"@,
        "start_ns"@,
        "pid"@,
        "name"@,
        "protocol"@,
        "remote_address"@,
        "send_bytes"@,
        "receive_bytes"@,
        "event_count"@,
        "connection_count"@,
        "detail"@,
    ]];
    let buckets = detail.buckets@.map_values(|bucket: SessionBucket| bucket_fields(bucket));
    let processes = detail.processes@.map_values(|process: ProcessSessionSummary| process_fields(process));
    let endpoints = detail.endpoints@.map_values(|endpoint: EndpointSummary| endpoint_fields(endpoint));
    let alerts = detail.alerts@.map_values(|alert: AlertRecord| alert_fields(alert));
    table::lemma_one_row(text0, heading[0]);
    table::lemma_one_row(text1, session_fields(detail.session));
    table::lemma_two_tables(text0, heading, text1, seq![session_fields(detail.session)]);
    table::lemma_two_tables(text0 + text1, heading + seq![session_fields(detail.session)], text2, buckets);
    table::lemma_two_tables(text0 + text1 + text2, heading + seq![session_fields(detail.session)] + buckets, text3, processes);
    table::lemma_two_tables(text0 + text1 + text2 + text3, heading + seq![session_fields(detail.session)] + buckets + processes, text4, endpoints);
    table::lemma_two_tables(text0 + text1 + text2 + text3 + text4, heading + seq![session_fields(detail.session)] + buckets + processes + endpoints, text5, alerts);
    table::lemma_read(text0 + text1 + text2 + text3 + text4 + text5, heading + seq![session_fields(detail.session)] + buckets + processes + endpoints + alerts);
}

/// What stands in the columns of each row of a session's CSV.
pub proof fn law_columns_of_session_rows(
    session: SessionRecord,
    bucket: SessionBucket,
    process: ProcessSessionSummary,
    endpoint: EndpointSummary,
    alert: AlertRecord,
)
    ensures
        session_fields(session) == seq![
            "session"@,
            text::decimal(session.started_at_unix_nanos as nat),
            ""@,
            session.name@,
            match session.status {
                SessionStatus::Recording => "recording"@,
                SessionStatus::Completed => "completed"@,
                SessionStatus::Interrupted => "interrupted"@,
            },
            ""@,
            text::decimal(session.send_bytes as nat),
            text::decimal(session.receive_bytes as nat),
            text::decimal(session.event_count as nat),
            ""@,
            "ended_at_ns="@ + (match session.ended_at_unix_nanos {
                Some(end) => "Some("@ + text::decimal(end as nat) + ")"@,
                None => "None"@,
            }) + "; notes="@ + session.notes@,
        ],
        bucket_fields(bucket) == seq![
            "bucket"@,
            text::decimal(bucket.start_unix_nanos as nat),
            ""@,
            ""@,
            ""@,
            ""@,
            text::decimal(bucket.send_bytes as nat),
            text::decimal(bucket.receive_bytes as nat),
            text::decimal(bucket.event_count as nat),
            ""@,
            ""@,
        ],
        process_fields(process) == seq![
            "process"@,
            ""@,
            text::decimal(process.pid as nat),
            process.name@,
            ""@,
            ""@,
            text::decimal(process.send_bytes as nat),
            text::decimal(process.receive_bytes as nat),
            ""@,
            text::decimal(process.connection_count as nat),
            "started_at_ns="@ + text::decimal(process.started_at_unix_nanos as nat)
                + "; image_path="@ + (match process.image_path {
                Some(path) => path@,
                None => Seq::empty(),
            }),
        ],
        endpoint_fields(endpoint) == seq![
            "endpoint"@,
            ""@,
            ""@,
            endpoint.process_name@,
            endpoint.protocol@,
            endpoint.remote_address@,
            ""@,
            ""@,
            ""@,
            text::decimal(endpoint.connection_count as nat),
            "first_seen_ns="@ + text::decimal(endpoint.first_seen_unix_nanos as nat)
                + "; last_seen_ns="@ + text::decimal(endpoint.last_seen_unix_nanos as nat),
        ],
        alert_fields(alert) == seq![
            "alert"@,
            text::decimal(alert.occurred_at_unix_nanos as nat),
            ""@,
            ""@,
            match alert.kind {
                AlertKind::NewProcess => "new_process"@,
                AlertKind::NewEndpoint => "new_endpoint"@,
                AlertKind::UploadThreshold => "upload_threshold"@,
                AlertKind::DownloadThreshold => "download_threshold"@,
                AlertKind::TrafficSpike => "traffic_spike"@,
                AlertKind::RiskEvent => "risk_event"@,
            },
            ""@,
            ""@,
            ""@,
            ""@,
            ""@,
            ""@ + alert.title@ + ": "@ + alert.detail@ + "; process="@ + (match alert.process_name {
                Some(name) => name@,
                None => Seq::empty(),
            }) + "; remote="@ + (match alert.remote_address {
                Some(remote) => remote@,
                None => Seq::empty(),
            }),
        ],
{
    reveal(session_fields);
    reveal(bucket_fields);
    reveal(process_fields);
    reveal(endpoint_fields);
    reveal(alert_fields);
}

/// The rows of a report: a process with its name, number, bytes sent, bytes received and
/// connections; an endpoint with its protocol, address, process and connections; an alert with its
/// title and its words.
pub proof fn law_rows_of_a_report(
    process: ProcessSessionSummary,
    endpoint: EndpointSummary,
    alert: AlertRecord,
)
    ensures
        process_line(process) == "| "@ + quoting::markdown_cell(process.name@) + " | "@
            + text::decimal(process.pid as nat) + " | "@ + text::decimal(process.send_bytes as nat)
            + " B | "@ + text::decimal(process.receive_bytes as nat) + " B | "@ + text::decimal(
            process.connection_count as nat,
        ) + " |\n"@,
        endpoint_line(endpoint) == "| "@ + quoting::markdown_cell(endpoint.protocol@) + " | "@
            + quoting::markdown_cell(endpoint.remote_address@) + " | "@ + quoting::markdown_cell(
            endpoint.process_name@,
        ) + " | "@ + text::decimal(endpoint.connection_count as nat) + " |\n"@,
        alert_line(alert) == "- **"@ + quoting::markdown_cell(alert.title@) + "**："@
            + quoting::markdown_cell(alert.detail@) + "\n"@,
{
}

/// A report of a session without alerts says so, and one with alerts lists each in its place.
pub proof fn law_reports_list_their_alerts(detail: SessionDetail)
    ensures
        ({
            let lists = report_head(detail) + text::flat(
                detail.processes@.map_values(|item: ProcessSessionSummary| process_line(item)),
            ) + "\n## 远程端点\n\n| 协议 | 地址 | 进程 | 连接 |\n|---|---|---|---:|\n"@ + text::flat(
                detail.endpoints@.map_values(|item: EndpointSummary| endpoint_line(item)),
            ) + "\n## 提醒\n\n"@;
            &&& detail.alerts@.len() == 0 ==> exported(detail, ExportFormat::Markdown) == lists
                + "无。\n"@
            &&& detail.alerts@.len() > 0 ==> exported(detail, ExportFormat::Markdown) == lists
                + text::flat(detail.alerts@.map_values(|item: AlertRecord| alert_line(item)))
        }),
{
}

} // verus!
