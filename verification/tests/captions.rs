use procnet::address::{IpAddr, SocketAddr};
use procnet::captions::{
    active_label, alerts_label, can_delete, capture_badge, choice_label, compare_sessions,
    connection_cells, curve_label, deleted_label, deletion_label, detail_label, events_label,
    exported_label, hidden_label, history_label, notes_label, process_cells, process_details,
    recovered_label, restriction_detail, score_label, session_cells, times_label, unsaved_label,
};
use procnet::model::{
    ConnectionSnapshot, ProcessIconState, TcpConnectionState, TransportProtocol,
};
use procnet::session::{SessionBucket, SessionDetail, SessionId, SessionRecord, SessionStatus};
use procnet::snapshot::{
    CaptureRestriction, CaptureStatus, ConnectionDetailSnapshot, ConnectionOwnerStatus,
    ProcessTrafficSnapshot,
};

fn record(ended: Option<u64>) -> SessionRecord {
    SessionRecord {
        id: SessionId(7),
        name: "demo".to_owned(),
        notes: String::new(),
        started_at_unix_nanos: 0,
        ended_at_unix_nanos: ended,
        status: if ended.is_some() { SessionStatus::Completed } else { SessionStatus::Recording },
        send_bytes: 2048,
        receive_bytes: 5,
        event_count: 1,
    }
}

fn detail(ended: Option<u64>, buckets: u64) -> SessionDetail {
    SessionDetail {
        session: record(ended),
        buckets: (0..buckets)
            .map(|start| SessionBucket {
                start_unix_nanos: start,
                send_bytes: 0,
                receive_bytes: 0,
                event_count: 0,
            })
            .collect(),
        processes: vec![],
        endpoints: vec![],
        alerts: vec![],
    }
}

#[test]
fn a_session_is_shown_in_cells() {
    assert_eq!(
        session_cells(&record(Some(61_000_000_000)), 9),
        vec![
            "demo".to_owned(),
            "已完成".to_owned(),
            "2.0 KiB".to_owned(),
            "5 B".to_owned(),
            "1970-01-01 08:00:00".to_owned(),
            "1970-01-01 08:01:01".to_owned(),
            "00:01:01".to_owned(),
        ]
    );
    let cells = session_cells(&record(None), 5_000_000_000);
    assert_eq!(cells[1], "正在录制");
    assert_eq!(cells[5], "进行中");
    assert_eq!(cells[6], "00:00:05");
    assert!(can_delete(&record(Some(1))));
    assert!(!can_delete(&record(None)));
}

#[test]
fn captions_hold_names_and_numbers() {
    assert_eq!(active_label(&record(None)), "#7  demo");
    assert_eq!(history_label(3), "历史会话  3");
    assert_eq!(recovered_label(2), "已恢复 2 个异常中断会话");
    assert_eq!(detail_label(&detail(Some(1), 4)), "已完成 · 4 个采样点 · 0 条提醒");
    assert_eq!(
        times_label(&record(Some(61_000_000_000)), 0),
        "开始 1970-01-01 08:00:00  ·  结束 1970-01-01 08:01:01  ·  持续 00:01:01"
    );
    assert_eq!(
        deletion_label(&record(None), 1_000_000_000),
        "1970-01-01 08:00:00 → 进行中 · 00:00:01"
    );
    assert_eq!(deleted_label("demo"), "已提交删除：“demo”");
    assert_eq!(exported_label("a.md"), "已提交导出：a.md");
    assert_eq!(notes_label(""), "备注：—");
    assert_eq!(notes_label("x"), "备注：x");
    assert_eq!(choice_label(&record(None)), "demo  ·  1970-01-01 08:00:00");
    assert_eq!(
        curve_label(180, 60, 1_048_576),
        "已保存 180 个 · 当前显示 60 个 · 无降采样 · 纵轴 0 – 1.0 MiB/s"
    );
    assert_eq!(
        unsaved_label(4),
        "有 4 次定时采样未写入历史记录；实时界面仍可继续查看。请停止录制并检查磁盘或系统负载。"
    );
    assert_eq!(events_label(5), "最近 5 条");
    assert_eq!(score_label(60), "60 分");
    assert_eq!(alerts_label(1), "1 条提醒");
    assert_eq!(hidden_label(8), "已隐藏 8 条旧版重复记录");
}

#[test]
fn sessions_are_compared_amount_by_amount() {
    let left = detail(Some(1), 0);
    let mut right = detail(Some(1), 0);
    right.session.send_bytes = 1024;
    right.session.receive_bytes = 6;
    let rows = compare_sessions(&left, &right);
    assert_eq!(rows.len(), 5);
    assert_eq!(rows[0].label, "上传");
    assert_eq!(rows[0].left, "2.0 KiB");
    assert_eq!(rows[0].right, "1.0 KiB");
    assert_eq!(rows[0].difference, "−1.0 KiB");
    assert_eq!(rows[1].difference, "+1 B");
    assert_eq!(rows[2].difference, "+0");
}

#[test]
fn the_capture_is_described() {
    assert_eq!(capture_badge(None), "正在初始化");
    assert_eq!(capture_badge(Some(CaptureStatus::Available)), "● 正在采集");
    let reason = CaptureRestriction::PermissionRequired;
    assert_eq!(capture_badge(Some(CaptureStatus::Restricted(reason))), "● 受限模式");
    assert!(restriction_detail(reason).starts_with("当前没有管理员"));
    assert!(restriction_detail(CaptureRestriction::SessionAlreadyExists)
        .starts_with("本项目采集 Session 已存在"));
}

#[test]
fn processes_and_connections_are_shown_in_cells() {
    let process = ProcessTrafficSnapshot {
        pid: 42,
        process_key: None,
        name: None,
        image_path: None,
        icon: ProcessIconState::NotLoaded,
        send_bytes_total: u64::MAX,
        receive_bytes_total: 1,
        send_bytes_per_second: 10,
        receive_bytes_per_second: 1024,
        connection_count: 3,
        last_timestamp_unix_nanos: 0,
    };
    assert_eq!(
        process_cells(&process),
        vec![
            "PID 42".to_owned(),
            "42".to_owned(),
            "10 B/s".to_owned(),
            "1.0 KiB/s".to_owned(),
            "17179869183.9 GiB".to_owned(),
            "3".to_owned(),
        ]
    );
    assert_eq!(process_details(&process)[0], "PID 42 · PID 42");
    assert_eq!(process_details(&process)[1], "路径不可用");
    assert_eq!(process_details(&process)[3], "累计下载 1 B");
    let local = SocketAddr::new(IpAddr::from_v4_octets([127, 0, 0, 1]), 80);
    let mut connection = ConnectionDetailSnapshot {
        connection: ConnectionSnapshot {
            protocol: TransportProtocol::Tcp,
            local,
            remote: Some(local),
            tcp_state: Some(TcpConnectionState::Unknown(99)),
            pid: 0,
            process_key: None,
            owner_name: None,
        },
        owner_status: ConnectionOwnerStatus::ProcessExited,
        process_name: None,
        process_image_path: None,
    };
    assert_eq!(
        connection_cells(&connection),
        vec![
            "Tcp".to_owned(),
            "连接已结束".to_owned(),
            "0".to_owned(),
            "127.0.0.1:80".to_owned(),
            "127.0.0.1:80".to_owned(),
            "Unknown(99)".to_owned(),
        ]
    );
    connection.connection.remote = None;
    connection.connection.tcp_state = None;
    assert_eq!(connection_cells(&connection)[4], "—");
    assert_eq!(connection_cells(&connection)[5], "—");
}
