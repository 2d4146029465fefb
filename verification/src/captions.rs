//! The captions and cells of the window's pages.
use crate::address;
use crate::calendar;
use crate::export;
use crate::labels;
use crate::model;
use crate::model::TransportProtocol;
use crate::session::{SessionDetail, SessionRecord, SessionStatus};
use crate::snapshot::{
    CaptureRestriction, CaptureStatus, ConnectionDetailSnapshot, ProcessTrafficSnapshot,
};
use crate::text;
use vstd::prelude::*;

verus! {

/// When a session ended, or that it has not.
pub open spec fn end_text(record: SessionRecord) -> Seq<char> {
    match record.ended_at_unix_nanos {
        Some(at) => calendar::timestamp_text(at),
        None => "进行中"@,
    }
}

/// When a session ended, or that it has not.
pub fn end_label(record: &SessionRecord) -> (text: String)
    ensures
        text@ == end_text(*record),
{
    match record.ended_at_unix_nanos {
        Some(at) => calendar::format_timestamp(at),
        None => "进行中".to_owned(),
    }
}

/// How long a session has lasted at a moment.
pub open spec fn lasting_text(record: SessionRecord, now: u64) -> Seq<char> {
    calendar::duration_text(
        record.started_at_unix_nanos,
        match record.ended_at_unix_nanos {
            Some(at) => at,
            None => now,
        },
    )
}

/// How long a session has lasted at a moment.
pub fn lasting_label(record: &SessionRecord, now: u64) -> (text: String)
    ensures
        text@ == lasting_text(*record, now),
{
    let end: u64 = match record.ended_at_unix_nanos {
        Some(at) => at,
        None => now,
    };
    calendar::format_duration(record.started_at_unix_nanos, end)
}

/// The cells of a session's row: its name, status, bytes sent and received, start, end and
/// duration.
pub open spec fn session_cell_texts(record: SessionRecord, now: u64) -> Seq<Seq<char>> {
    seq![
        record.name@,
        labels::status_text(record.status),
        labels::bytes_text(record.send_bytes),
        labels::bytes_text(record.receive_bytes),
        calendar::timestamp_text(record.started_at_unix_nanos),
        end_text(record),
        lasting_text(record, now),
    ]
}

/// The cells of a session's row.
pub fn session_cells(record: &SessionRecord, now: u64) -> (cells: Vec<String>)
    ensures
        text::texts(cells@) == session_cell_texts(*record, now),
{
    let mut cells: Vec<String> = Vec::new();
    cells.push(record.name.clone());
    cells.push(labels::session_status_label(record.status).to_owned());
    cells.push(labels::format_bytes(record.send_bytes));
    cells.push(labels::format_bytes(record.receive_bytes));
    cells.push(calendar::format_timestamp(record.started_at_unix_nanos));
    cells.push(end_label(record));
    cells.push(lasting_label(record, now));
    assert(text::texts(cells@) =~= session_cell_texts(*record, now));
    cells
}

/// Whether a session may be deleted: one that is being recorded may not.
pub fn can_delete(record: &SessionRecord) -> (r: bool)
    ensures
        r == (record.status != SessionStatus::Recording),
{
    record.status != SessionStatus::Recording
}

/// The session that is being recorded.
pub fn active_label(record: &SessionRecord) -> (text: String)
    ensures
        text@ == "#"@ + text::signed_decimal(record.id.0 as int) + "  "@ + record.name@,
{
    let mut text = "#".to_owned();
    text.append(record.id.text().as_str());
    text.append("  ");
    text.append(record.name.as_str());
    text
}

/// The heading of the history.
pub fn history_label(sessions: usize) -> (text: String)
    ensures
        text@ == "历史会话  "@ + text::decimal(sessions as nat),
{
    let mut text = "历史会话  ".to_owned();
    text::put_number(&mut text, sessions as u64);
    text
}

/// What is said of sessions that were recovered.
pub fn recovered_label(sessions: usize) -> (text: String)
    ensures
        text@ == "已恢复 "@ + text::decimal(sessions as nat) + " 个异常中断会话"@,
{
    let mut text = "已恢复 ".to_owned();
    text::put_number(&mut text, sessions as u64);
    text.append(" 个异常中断会话");
    text
}

/// The first line under the name of a session.
pub fn detail_label(detail: &SessionDetail) -> (text: String)
    ensures
        text@ == labels::status_text(detail.session.status) + " · "@
            + text::decimal(detail.buckets@.len() as nat) + " 个采样点 · "@
            + text::decimal(detail.alerts@.len() as nat) + " 条提醒"@,
{
    let mut text = labels::session_status_label(detail.session.status).to_owned();
    text.append(" · ");
    text::put_number(&mut text, detail.buckets.len() as u64);
    text.append(" 个采样点 · ");
    text::put_number(&mut text, detail.alerts.len() as u64);
    text.append(" 条提醒");
    text
}

/// The second line under the name of a session.
pub fn times_label(record: &SessionRecord, now: u64) -> (text: String)
    ensures
        text@ == "开始 "@ + calendar::timestamp_text(record.started_at_unix_nanos)
            + "  ·  结束 "@ + end_text(*record) + "  ·  持续 "@ + lasting_text(*record, now),
{
    let mut text = "开始 ".to_owned();
    text.append(calendar::format_timestamp(record.started_at_unix_nanos).as_str());
    text.append("  ·  结束 ");
    text.append(end_label(record).as_str());
    text.append("  ·  持续 ");
    text.append(lasting_label(record, now).as_str());
    text
}

/// The times of a session that is to be deleted.
pub fn deletion_label(record: &SessionRecord, now: u64) -> (text: String)
    ensures
        text@ == calendar::timestamp_text(record.started_at_unix_nanos) + " → "@
            + end_text(*record) + " · "@ + lasting_text(*record, now),
{
    let mut text = calendar::format_timestamp(record.started_at_unix_nanos);
    text.append(" → ");
    text.append(end_label(record).as_str());
    text.append(" · ");
    text.append(lasting_label(record, now).as_str());
    text
}

/// What is said once the deletion of a session was asked for.
pub fn deleted_label(name: &str) -> (text: String)
    ensures
        text@ == "已提交删除：“"@ + name@ + "”"@,
{
    let mut text = "已提交删除：“".to_owned();
    text.append(name);
    text.append("”");
    text
}

/// What is said once an export was asked for.
pub fn exported_label(path: &str) -> (text: String)
    ensures
        text@ == "已提交导出："@ + path@,
{
    let mut text = "已提交导出：".to_owned();
    text.append(path);
    text
}

/// The notes of a session, or a dash.
pub fn notes_label(notes: &str) -> (text: String)
    ensures
        text@ == "备注："@ + (if notes@.len() == 0 {
            "—"@
        } else {
            notes@
        }),
{
    let mut text = "备注：".to_owned();
    proof {
        reveal_strlit("");
        assert(notes@.len() == 0 ==> notes@ =~= ""@);
    }
    if text::equal(notes, "") {
        text.append("—");
    } else {
        text.append(notes);
    }
    text
}

/// A session among those to choose from.
pub fn choice_label(record: &SessionRecord) -> (text: String)
    ensures
        text@ == record.name@ + "  ·  "@
            + calendar::timestamp_text(record.started_at_unix_nanos),
{
    let mut text = record.name.clone();
    text.append("  ·  ");
    text.append(calendar::format_timestamp(record.started_at_unix_nanos).as_str());
    text
}

/// What the heading of a curve says of it.
pub fn curve_label(saved: usize, visible: usize, y_max: u64) -> (text: String)
    ensures
        text@ == "已保存 "@ + text::decimal(saved as nat) + " 个 · 当前显示 "@
            + text::decimal(visible as nat) + " 个 · 无降采样 · 纵轴 0 – "@
            + labels::rate_text(y_max),
{
    let mut text = "已保存 ".to_owned();
    text::put_number(&mut text, saved as u64);
    text.append(" 个 · 当前显示 ");
    text::put_number(&mut text, visible as u64);
    text.append(" 个 · 无降采样 · 纵轴 0 – ");
    text.append(labels::format_rate(y_max).as_str());
    text
}

/// A row of the comparison of two sessions.
pub struct Comparison {
    pub label: &'static str,
    pub left: String,
    pub right: String,
    pub difference: String,
}

/// Whether a row compares two amounts.
pub open spec fn compares(
    row: Comparison,
    label: Seq<char>,
    left: u64,
    right: u64,
    bytes: bool,
) -> bool {
    &&& row.label@ == label
    &&& row.left@ == labels::amount_text(left, bytes)
    &&& row.right@ == labels::amount_text(right, bytes)
    &&& row.difference@ == labels::difference_text(left, right, bytes)
}

fn comparison(label: &'static str, left: u64, right: u64, bytes: bool) -> (row: Comparison)
    ensures
        compares(row, label@, left, right, bytes),
{
    Comparison {
        label,
        left: labels::format_amount(left, bytes),
        right: labels::format_amount(right, bytes),
        difference: labels::format_difference(left, right, bytes),
    }
}

/// The comparison of two sessions: what they sent and received, and how many processes, endpoints
/// and alerts they have.
pub fn compare_sessions(left: &SessionDetail, right: &SessionDetail) -> (rows: Vec<Comparison>)
    ensures
        rows@.len() == 5,
        compares(rows@[0], "上传"@, left.session.send_bytes, right.session.send_bytes, true),
        compares(rows@[1], "下载"@, left.session.receive_bytes, right.session.receive_bytes, true),
        compares(
            rows@[2],
            "进程数"@,
            left.processes@.len() as u64,
            right.processes@.len() as u64,
            false,
        ),
        compares(
            rows@[3],
            "端点数"@,
            left.endpoints@.len() as u64,
            right.endpoints@.len() as u64,
            false,
        ),
        compares(
            rows@[4],
            "提醒数"@,
            left.alerts@.len() as u64,
            right.alerts@.len() as u64,
            false,
        ),
{
    let mut rows: Vec<Comparison> = Vec::new();
    rows.push(comparison("上传", left.session.send_bytes, right.session.send_bytes, true));
    rows.push(comparison("下载", left.session.receive_bytes, right.session.receive_bytes, true));
    rows.push(
        comparison("进程数", left.processes.len() as u64, right.processes.len() as u64, false),
    );
    rows.push(
        comparison("端点数", left.endpoints.len() as u64, right.endpoints.len() as u64, false),
    );
    rows.push(comparison("提醒数", left.alerts.len() as u64, right.alerts.len() as u64, false));
    rows
}

/// What is said of samples that were not stored.
pub fn unsaved_label(samples: u64) -> (text: String)
    ensures
        text@ == "有 "@ + text::decimal(samples as nat)
            + " 次定时采样未写入历史记录；实时界面仍可继续查看。请停止录制并检查磁盘或系统负载。"@,
{
    let mut text = "有 ".to_owned();
    text::put_number(&mut text, samples);
    text.append(" 次定时采样未写入历史记录；实时界面仍可继续查看。请停止录制并检查磁盘或系统负载。");
    text
}

/// How many live events are shown.
pub fn events_label(events: usize) -> (text: String)
    ensures
        text@ == "最近 "@ + text::decimal(events as nat) + " 条"@,
{
    let mut text = "最近 ".to_owned();
    text::put_number(&mut text, events as u64);
    text.append(" 条");
    text
}

/// The score of an event.
pub fn score_label(score: u32) -> (text: String)
    ensures
        text@ == text::decimal(score as nat) + " 分"@,
{
    let mut text = text::decimal_text(score as u64);
    text.append(" 分");
    text
}

/// How many alerts of a session are shown.
pub fn alerts_label(alerts: usize) -> (text: String)
    ensures
        text@ == text::decimal(alerts as nat) + " 条提醒"@,
{
    let mut text = text::decimal_text(alerts as u64);
    text.append(" 条提醒");
    text
}

/// How many alerts of a session are left out.
pub fn hidden_label(alerts: usize) -> (text: String)
    ensures
        text@ == "已隐藏 "@ + text::decimal(alerts as nat) + " 条旧版重复记录"@,
{
    let mut text = "已隐藏 ".to_owned();
    text::put_number(&mut text, alerts as u64);
    text.append(" 条旧版重复记录");
    text
}

/// The process of an alert.
pub fn alert_process_label(process: &str) -> (text: String)
    ensures
        text@ == "进程  "@ + process@,
{
    let mut text = "进程  ".to_owned();
    text.append(process);
    text
}

/// The endpoint of an alert.
pub fn alert_remote_label(remote: &str) -> (text: String)
    ensures
        text@ == "远程端点  "@ + remote@,
{
    let mut text = "远程端点  ".to_owned();
    text.append(remote);
    text
}

/// Why capture is restricted, in a sentence.
pub fn restriction_detail(reason: CaptureRestriction) -> (text: &'static str)
    ensures
        text@ == (match reason {
            CaptureRestriction::PermissionRequired =>
                "当前没有管理员或 Performance Log Users 权限。进程与连接仍可查看，实时流量暂不可用。"@,
            CaptureRestriction::SessionAlreadyExists =>
                "本项目采集 Session 已存在。界面保持只读受限模式，不会停止其他 ETW Session。"@,
        }),
{
    match reason {
        CaptureRestriction::PermissionRequired => {
            "当前没有管理员或 Performance Log Users 权限。进程与连接仍可查看，实时流量暂不可用。"
        },
        CaptureRestriction::SessionAlreadyExists => {
            "本项目采集 Session 已存在。界面保持只读受限模式，不会停止其他 ETW Session。"
        },
    }
}

/// The badge of the capture: that it is being prepared, runs or is restricted.
pub fn capture_badge(status: Option<CaptureStatus>) -> (text: &'static str)
    ensures
        text@ == (match status {
            None => "正在初始化"@,
            Some(CaptureStatus::Available) => "● 正在采集"@,
            Some(CaptureStatus::Restricted(_)) => "● 受限模式"@,
        }),
{
    match status {
        None => "正在初始化",
        Some(CaptureStatus::Available) => "● 正在采集",
        Some(CaptureStatus::Restricted(_)) => "● 受限模式",
    }
}

/// The cells of a process's row: its name, number, rates, bytes in all and connections.
pub open spec fn process_cell_texts(process: ProcessTrafficSnapshot) -> Seq<Seq<char>> {
    seq![
        labels::process_name_text(text::optional(process.name), process.pid),
        text::decimal(process.pid as nat),
        labels::rate_text(process.send_bytes_per_second),
        labels::rate_text(process.receive_bytes_per_second),
        labels::bytes_text(
            model::saturated(process.send_bytes_total + process.receive_bytes_total),
        ),
        text::decimal(process.connection_count as nat),
    ]
}

/// The cells of a process's row.
pub fn process_cells(process: &ProcessTrafficSnapshot) -> (cells: Vec<String>)
    ensures
        text::texts(cells@) == process_cell_texts(*process),
{
    let total: u64 = process.send_bytes_total.saturating_add(process.receive_bytes_total);
    let mut cells: Vec<String> = Vec::new();
    cells.push(labels::process_name(&process.name, process.pid));
    cells.push(text::decimal_text(process.pid as u64));
    cells.push(labels::format_rate(process.send_bytes_per_second));
    cells.push(labels::format_rate(process.receive_bytes_per_second));
    cells.push(labels::format_bytes(total));
    cells.push(text::decimal_text(process.connection_count as u64));
    assert(text::texts(cells@) =~= process_cell_texts(*process));
    cells
}

/// The cells of a connection's row: its protocol, owner, process number, local and remote address
/// and state, a dash where there is none.
pub open spec fn connection_cell_texts(detail: ConnectionDetailSnapshot) -> Seq<Seq<char>> {
    let connection = detail.connection;
    seq![
        match connection.protocol {
            TransportProtocol::Tcp => "Tcp"@,
            TransportProtocol::Udp => "Udp"@,
        },
        labels::owner_text(detail),
        text::decimal(connection.pid as nat),
        address::socket_text(connection.local),
        match connection.remote {
            Some(remote) => address::socket_text(remote),
            None => "—"@,
        },
        match connection.tcp_state {
            Some(state) => export::tcp_state_name(state),
            None => "—"@,
        },
    ]
}

/// The cells of a connection's row.
pub fn connection_cells(detail: &ConnectionDetailSnapshot) -> (cells: Vec<String>)
    ensures
        text::texts(cells@) == connection_cell_texts(*detail),
{
    let connection = &detail.connection;
    let mut cells: Vec<String> = Vec::new();
    cells.push(
        match connection.protocol {
            TransportProtocol::Tcp => "Tcp".to_owned(),
            TransportProtocol::Udp => "Udp".to_owned(),
        },
    );
    cells.push(labels::connection_owner_label(detail));
    cells.push(text::decimal_text(connection.pid as u64));
    cells.push(connection.local.text());
    cells.push(
        match connection.remote {
            Some(remote) => remote.text(),
            None => "—".to_owned(),
        },
    );
    cells.push(
        match connection.tcp_state {
            Some(state) => export::tcp_state(state),
            None => "—".to_owned(),
        },
    );
    assert(text::texts(cells@) =~= connection_cell_texts(*detail));
    cells
}

/// The lines of a process's details: its name and number, its path, what it sent and received in
/// all, and its connections.
pub open spec fn process_detail_texts(process: ProcessTrafficSnapshot) -> Seq<Seq<char>> {
    seq![
        labels::process_name_text(text::optional(process.name), process.pid) + " · PID "@
            + text::decimal(process.pid as nat),
        match text::optional(process.image_path) {
            Some(path) => path,
            None => "路径不可用"@,
        },
        "累计上传 "@ + labels::bytes_text(process.send_bytes_total),
        "累计下载 "@ + labels::bytes_text(process.receive_bytes_total),
        "连接 "@ + text::decimal(process.connection_count as nat),
    ]
}

/// The lines of a process's details.
pub fn process_details(process: &ProcessTrafficSnapshot) -> (lines: Vec<String>)
    ensures
        text::texts(lines@) == process_detail_texts(*process),
{
    let mut title = labels::process_name(&process.name, process.pid);
    title.append(" · PID ");
    text::put_number(&mut title, process.pid as u64);
    let path = match &process.image_path {
        Some(path) => path.clone(),
        None => "路径不可用".to_owned(),
    };
    let mut sent = "累计上传 ".to_owned();
    sent.append(labels::format_bytes(process.send_bytes_total).as_str());
    let mut received = "累计下载 ".to_owned();
    received.append(labels::format_bytes(process.receive_bytes_total).as_str());
    let mut connections = "连接 ".to_owned();
    text::put_number(&mut connections, process.connection_count as u64);
    let mut lines: Vec<String> = Vec::new();
    lines.push(title);
    lines.push(path);
    lines.push(sent);
    lines.push(received);
    lines.push(connections);
    assert(text::texts(lines@) =~= process_detail_texts(*process));
    lines
}

/// What stands in the columns of the rows that are shown: of a process its name, number, rates sent
/// and received, bytes in all and connections; of a session its name, state, bytes sent and
/// received, start, end and duration.
pub proof fn law_columns_of_shown_rows(
    process: ProcessTrafficSnapshot,
    record: SessionRecord,
    now: u64,
)
    ensures
        process_cell_texts(process).len() == 6,
        process.name matches Some(name) ==> process_cell_texts(process)[0] == name@,
        process_cell_texts(process)[1] == text::decimal(process.pid as nat),
        process_cell_texts(process)[2] == labels::bytes_text(process.send_bytes_per_second)
            + "/s"@,
        process_cell_texts(process)[3] == labels::bytes_text(process.receive_bytes_per_second)
            + "/s"@,
        process.send_bytes_total + process.receive_bytes_total <= u64::MAX ==> process_cell_texts(
            process,
        )[4] == labels::bytes_text(
            (process.send_bytes_total + process.receive_bytes_total) as u64,
        ),
        process_cell_texts(process)[5] == text::decimal(process.connection_count as nat),
        session_cell_texts(record, now).len() == 7,
        session_cell_texts(record, now)[0] == record.name@,
        session_cell_texts(record, now)[1] == labels::status_text(record.status),
        session_cell_texts(record, now)[2] == labels::bytes_text(record.send_bytes),
        session_cell_texts(record, now)[3] == labels::bytes_text(record.receive_bytes),
        session_cell_texts(record, now)[4] == calendar::timestamp_text(
            record.started_at_unix_nanos,
        ),
        record.ended_at_unix_nanos matches Some(end) ==> session_cell_texts(record, now)[5]
            == calendar::timestamp_text(end),
        record.ended_at_unix_nanos matches Some(end) ==> session_cell_texts(record, now)[6]
            == calendar::duration_text(record.started_at_unix_nanos, end),
        record.ended_at_unix_nanos is None ==> session_cell_texts(record, now)[6]
            == calendar::duration_text(record.started_at_unix_nanos, now),
{
}

/// What stands in the columns of a connection that is shown.
pub proof fn law_columns_of_shown_connections(detail: ConnectionDetailSnapshot)
    ensures
        connection_cell_texts(detail).len() == 6,
        connection_cell_texts(detail)[0] == (if detail.connection.protocol is Tcp {
            "Tcp"@
        } else {
            "Udp"@
        }),
        connection_cell_texts(detail)[1] == labels::owner_text(detail),
        connection_cell_texts(detail)[2] == text::decimal(detail.connection.pid as nat),
        connection_cell_texts(detail)[3] == address::socket_text(detail.connection.local),
        detail.connection.remote matches Some(remote) ==> connection_cell_texts(detail)[4]
            == address::socket_text(remote),
        detail.connection.remote is None ==> connection_cell_texts(detail)[4] == "—"@,
        detail.connection.tcp_state is None ==> connection_cell_texts(detail)[5] == "—"@,
{
}

} // verus!
