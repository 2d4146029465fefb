use procnet::address::{IpAddr, SocketAddr};
use procnet::calendar::{civil_date, format_duration, format_timestamp};
use procnet::controller::SessionUiState;
use procnet::duration::Duration;
use procnet::labels::{
    connection_owner_label, export_file_name, format_bytes, format_difference, format_rate,
    lost_events_label, process_name, risk_level_label, session_name_for, session_status_label,
};
use procnet::launch::{
    asks_to_stop, handoff_state, handoff_step, parse_smoke_options, relaunch_elevated,
    relaunch_unelevated, HandoffState, HandoffStep,
};
use procnet::model::{
    ConnectionSnapshot, ProcessIconState, TcpConnectionState, TransportProtocol,
};
use procnet::picture::{encode_picture, icon_fits, pixel_bytes};
use procnet::plot::{nice_curve_ceiling, session_window_start, SessionCurveView};
use procnet::recording::LiveRiskEvent;
use procnet::risk::RiskLevel;
use procnet::rows::{
    connection_rows, contains, find_words, next_popup, process_rows, process_search_text,
    rows_for, visible_alerts, ProcessSort,
};
use procnet::session::{
    AlertKind, AlertRecord, SessionBucket, SessionId, SessionRecord, SessionStatus,
};
use procnet::snapshot::{
    ConnectionDetailSnapshot, ConnectionOwnerStatus, ProcessTrafficSnapshot,
};
use procnet::window::{
    can_compare, close_step, initial_page, page_heading, picture_due, seed_step, without_session,
    CloseStep, Page, RefreshCount, SeedStep,
};

#[test]
fn elevated_handoff_waits_then_recovers_one_exact_orphan() {
    assert_eq!(handoff_step(HandoffState::Waiting), HandoffStep::Wait);
    assert_eq!(handoff_step(HandoffState::Orphan), HandoffStep::Recover);
    assert_eq!(handoff_step(HandoffState::RecoveryAttempted), HandoffStep::Return);
}

#[test]
fn handoff_never_recovers_without_marker_conflict_or_live_caller() {
    assert_eq!(handoff_step(HandoffState::Inactive), HandoffStep::Return);
    assert_eq!(handoff_step(HandoffState::Cancelled), HandoffStep::Return);
    assert_eq!(handoff_state(false, true, false, false, false), HandoffState::Inactive);
    assert_eq!(handoff_state(true, false, false, false, false), HandoffState::Inactive);
    assert_eq!(handoff_state(true, true, true, false, false), HandoffState::Cancelled);
    assert_eq!(handoff_state(true, true, false, true, false), HandoffState::RecoveryAttempted);
    assert_eq!(handoff_state(true, true, false, false, true), HandoffState::Waiting);
    assert_eq!(handoff_state(true, true, false, false, false), HandoffState::Orphan);
}

#[test]
fn smoke_duration_is_explicitly_bounded() {
    assert_eq!(
        parse_smoke_options(vec!["--smoke-seconds".to_owned(), "5".to_owned()]).0,
        Some(Duration::from_secs(5))
    );
    assert_eq!(
        parse_smoke_options(vec!["--smoke-seconds".to_owned(), "0".to_owned()]).0,
        None
    );
    assert_eq!(
        parse_smoke_options(vec!["--smoke-seconds".to_owned(), "601".to_owned()]).0,
        None
    );
    assert!(
        parse_smoke_options(vec!["--elevated-handoff".to_owned()]).4,
        "the elevated restart marker must reach the collector handoff"
    );
}

#[test]
fn smoke_options_are_found_anywhere() {
    let words = ["--page", "about", "--screenshot", "a.png", "--smoke-report", "r.txt", "--page"];
    let options = parse_smoke_options(words.iter().map(|word| (*word).to_owned()).collect());
    assert_eq!(options.0, None);
    assert_eq!(options.1.as_deref(), Some("r.txt"));
    assert_eq!(options.2.as_deref(), Some("a.png"));
    assert_eq!(options.3.as_deref(), Some("about"));
    assert!(!options.4);
    assert_eq!(parse_smoke_options(vec!["--page".to_owned()]).3, None);
}

#[test]
fn byte_labels_are_compact_and_stable() {
    assert_eq!(format_bytes(0), "0 B");
    assert_eq!(format_bytes(1_024), "1.0 KiB");
    assert_eq!(format_rate(1_048_576), "1.0 MiB/s");
    assert_eq!(format_bytes(1_536), "1.5 KiB");
    assert_eq!(format_bytes(u64::MAX), "17179869183.9 GiB");
}

#[test]
fn timestamps_use_calendar_dates() {
    assert_eq!(format_timestamp(0), "1970-01-01 08:00:00");
    assert_eq!(format_timestamp(1_735_689_599_000_000_000), "2025-01-01 07:59:59");
    assert_eq!(format_timestamp(951_782_400_000_000_000), "2000-02-29 08:00:00");
    assert_eq!(civil_date(213_504), (2554, 7, 22));
    assert_eq!(civil_date(47_541), (2100, 3, 1));
}

#[test]
fn durations_are_stable_and_saturating() {
    assert_eq!(format_duration(0, 3_661_000_000_000), "01:01:01");
    assert_eq!(format_duration(0, 90_061_000_000_000), "1天 01:01:01");
    assert_eq!(format_duration(20, 10), "00:00:00");
}

#[test]
fn session_curve_keeps_all_samples_addressable_in_fixed_windows() {
    assert_eq!(session_window_start(30, 0, true), 0);
    assert_eq!(session_window_start(180, 0, true), 120);
    assert_eq!(session_window_start(180, 25, false), 25);
    assert_eq!(session_window_start(180, 999, false), 120);
}

#[test]
fn session_curve_uses_stable_human_scale_steps() {
    assert_eq!(nice_curve_ceiling(65_536), 100_000);
    assert_eq!(nice_curve_ceiling(100_001), 200_000);
}

#[test]
fn session_curve_axis_fits_the_smallest_and_the_largest_value() {
    assert_eq!(nice_curve_ceiling(0), 1);
    assert_eq!(nice_curve_ceiling(5), 5);
    assert_eq!(nice_curve_ceiling(6), 10);
    assert_eq!(nice_curve_ceiling(10_000_000_000_000_000_000), 10_000_000_000_000_000_000);
    assert_eq!(nice_curve_ceiling(10_000_000_000_000_000_001), u64::MAX);
}

fn bucket(start: u64, bytes: u64) -> SessionBucket {
    SessionBucket { start_unix_nanos: start, send_bytes: bytes, receive_bytes: 0, event_count: 1 }
}

#[test]
fn the_shown_window_follows_until_it_is_moved() {
    let mut view = SessionCurveView::default();
    let buckets: Vec<SessionBucket> = (0..100).map(|i| bucket(i, 90_000)).collect();
    let window = view.show(SessionId(1), 7, &buckets);
    assert_eq!((window.start, window.end, window.maximum_start), (40, 100, 40));
    assert_eq!((window.range_start, window.range_end), (40, 99));
    assert_eq!(view.y_max, 100_000);
    view.move_to(3, 40);
    let calm: Vec<SessionBucket> = (0..100).map(|i| bucket(i, 1)).collect();
    let window = view.show(SessionId(1), 7, &calm);
    assert_eq!((window.start, window.end), (3, 63));
    assert_eq!(view.y_max, 100_000);
    view.return_to_latest(40);
    assert!(view.follow_latest);
    let window = view.show(SessionId(2), 7, &Vec::new());
    assert_eq!((window.start, window.end, window.range_start, window.range_end), (0, 0, 7, 7));
}

fn process(pid: u32, name: Option<&str>, send: u64, receive: u64) -> ProcessTrafficSnapshot {
    ProcessTrafficSnapshot {
        pid,
        process_key: None,
        name: name.map(str::to_owned),
        image_path: None,
        icon: ProcessIconState::NotLoaded,
        send_bytes_total: 0,
        receive_bytes_total: 0,
        send_bytes_per_second: send,
        receive_bytes_per_second: receive,
        connection_count: pid as usize,
        last_timestamp_unix_nanos: 0,
    }
}

#[test]
fn process_rows_are_searched_and_ordered() {
    let processes = [
        process(1, Some("Alpha.exe"), 5, 0),
        process(2, None, 900, 900),
        process(3, Some("BETA.exe"), 1, 9),
        process(4, Some("gamma.exe"), 5, 0),
    ];
    assert_eq!(process_rows(&processes, "", ProcessSort::Rate), vec![2, 0, 3]);
    assert_eq!(process_rows(&processes, "", ProcessSort::Send), vec![0, 3, 2]);
    assert_eq!(process_rows(&processes, "", ProcessSort::Connections), vec![3, 2, 0]);
    assert_eq!(process_rows(&processes, "beta", ProcessSort::Receive), vec![2]);
    assert_eq!(process_rows(&processes, "ALPHA", ProcessSort::Receive), vec![0]);
    assert_eq!(process_search_text(&processes[0]), "1 Alpha.exe ");
    let words: Vec<String> = ["x", "x", "y", "xy"].iter().map(|w| (*w).to_owned()).collect();
    assert_eq!(rows_for(&processes, &words, "x", ProcessSort::Rate), vec![0, 3]);
    assert_eq!(find_words(&words, "y"), vec![2, 3]);
    assert!(contains("abcabd", "abd"));
    assert!(!contains("ab", "abc"));
    assert!(contains("ab", ""));
}

fn detail(pid: u32, name: Option<&str>, status: ConnectionOwnerStatus) -> ConnectionDetailSnapshot {
    ConnectionDetailSnapshot {
        connection: ConnectionSnapshot {
            protocol: TransportProtocol::Tcp,
            local: SocketAddr::new(IpAddr::from_v4_octets([127, 0, 0, 1]), 80),
            remote: Some(SocketAddr::new(IpAddr::from_v4_octets([10, 0, 0, 9]), 443)),
            tcp_state: Some(TcpConnectionState::Established),
            pid,
            process_key: None,
            owner_name: None,
        },
        process_name: name.map(str::to_owned),
        process_image_path: None,
        owner_status: status,
    }
}

#[test]
fn connection_rows_are_searched_and_labelled() {
    let details = [
        detail(7, Some("Web.exe"), ConnectionOwnerStatus::Matched),
        detail(8, None, ConnectionOwnerStatus::NameOnly),
        detail(0, None, ConnectionOwnerStatus::ProcessExited),
        detail(9, Some("gone.exe"), ConnectionOwnerStatus::ProcessExited),
    ];
    assert_eq!(connection_rows(&details, "WEB"), vec![0]);
    assert_eq!(connection_rows(&details, "some(10.0.0.9:443)"), vec![0, 1, 2, 3]);
    assert_eq!(connection_rows(&details, "none"), Vec::<usize>::new());
    assert_eq!(connection_owner_label(&details[0]), "Web.exe");
    assert_eq!(connection_owner_label(&details[1]), "PID 8");
    assert_eq!(connection_owner_label(&details[2]), "连接已结束");
    assert_eq!(connection_owner_label(&details[3]), "进程已结束 · PID 9");
}

fn alert(kind: AlertKind) -> AlertRecord {
    AlertRecord {
        id: 1,
        session_id: SessionId(1),
        occurred_at_unix_nanos: 1,
        kind,
        title: String::new(),
        detail: String::new(),
        process_name: None,
        remote_address: None,
    }
}

#[test]
fn scored_alerts_hide_the_others() {
    let mixed = vec![
        alert(AlertKind::NewProcess),
        alert(AlertKind::RiskEvent),
        alert(AlertKind::TrafficSpike),
    ];
    assert_eq!(visible_alerts(&mixed), (vec![1], 2));
    let plain = vec![alert(AlertKind::NewProcess), alert(AlertKind::TrafficSpike)];
    assert_eq!(visible_alerts(&plain), (vec![0, 1], 0));
}

fn risk(id: u64, level: RiskLevel) -> LiveRiskEvent {
    LiveRiskEvent {
        id,
        occurred_at_unix_nanos: 1,
        level,
        score: 1,
        title: String::new(),
        detail: String::new(),
        process_name: String::new(),
        remote_address: None,
    }
}

#[test]
fn the_newest_high_risk_is_shown_once() {
    let events = vec![
        risk(1, RiskLevel::High),
        risk(2, RiskLevel::High),
        risk(3, RiskLevel::Attention),
    ];
    assert_eq!(next_popup(&events, 0).unwrap().id, 2);
    assert!(next_popup(&events, 2).is_none());
}

fn record(id: i64, name: &str) -> SessionRecord {
    SessionRecord {
        id: SessionId(id),
        name: name.to_owned(),
        notes: String::new(),
        started_at_unix_nanos: 1,
        ended_at_unix_nanos: None,
        status: SessionStatus::Completed,
        send_bytes: 0,
        receive_bytes: 0,
        event_count: 0,
    }
}

#[test]
fn labels_are_exact() {
    let mut state = SessionUiState::default();
    state.sessions = vec![record(1, "one"), record(2, "two")];
    assert_eq!(session_name_for(&state, Some(SessionId(2))), "two");
    assert_eq!(session_name_for(&state, Some(SessionId(3))), "选择会话");
    assert_eq!(session_name_for(&state, None), "选择会话");
    assert_eq!(format_difference(1, 2_049, true), "+2.0 KiB");
    assert_eq!(format_difference(9, 4, false), "−5");
    assert_eq!(process_name(&None, 4), "PID 4");
    assert_eq!(session_status_label(SessionStatus::Interrupted), "异常中断");
    assert_eq!(risk_level_label(RiskLevel::High), "高风险");
    assert_eq!(lost_events_label(1, 2), "队列已满丢失 1，停止后到达 2。");
    assert_eq!(export_file_name(SessionId(-3), "md"), "session--3.md");
    assert_eq!(
        seed_step(Page::Compare, &state),
        SeedStep::Compare(SessionId(1), SessionId(2))
    );
    assert_eq!(seed_step(Page::Alerts, &state), SeedStep::Select(SessionId(1)));
    assert_eq!(seed_step(Page::About, &state), SeedStep::Done);
}

#[test]
fn the_window_decides_when_to_close() {
    assert_eq!(close_step(false, true, false), CloseStep::StopRecording);
    assert_eq!(close_step(true, true, false), CloseStep::WaitForPicture);
    assert_eq!(close_step(true, false, false), CloseStep::ReportAndClose);
    assert_eq!(close_step(true, false, true), CloseStep::Nothing);
    let mut count = RefreshCount::new();
    count.see(None);
    count.see(Some(5));
    count.see(Some(5));
    count.see(Some(6));
    assert_eq!(count.refreshes, 2);
    assert!(picture_due(count.refreshes, false));
    assert!(!picture_due(count.refreshes, true));
    assert_eq!(initial_page(&Some("alerts".to_owned())), Page::Alerts);
    assert_eq!(initial_page(&Some("nowhere".to_owned())), Page::Overview);
    assert_eq!(page_heading(Page::Settings), "设置");
    assert!(can_compare(Some(SessionId(1)), Some(SessionId(2))));
    assert!(!can_compare(Some(SessionId(1)), Some(SessionId(1))));
    assert_eq!(without_session(Some(SessionId(1)), SessionId(1)), None);
}

#[test]
fn pictures_become_png_files() {
    let pixels = [[1, 2, 3, 4], [5, 6, 7, 8]];
    assert_eq!(pixel_bytes(&pixels), vec![1, 2, 3, 4, 5, 6, 7, 8]);
    let file = encode_picture(&pixels, 2, 1).unwrap();
    assert_eq!(&file[..8], &[137, 80, 78, 71, 13, 10, 26, 10]);
    let decoder = png::Decoder::new(std::io::Cursor::new(file));
    let mut reader = decoder.read_info().unwrap();
    let mut read = vec![0; reader.output_buffer_size().unwrap()];
    let info = reader.next_frame(&mut read).unwrap();
    assert_eq!((info.width, info.height), (2, 1));
    assert_eq!(&read[..info.buffer_size()], &[1, 2, 3, 4, 5, 6, 7, 8]);
    assert!(encode_picture(&pixels, 0, 1).is_err());
    assert!(encode_picture(&pixels, 3, 1).is_err());
    assert!(icon_fits(32, 32, 4096));
    assert!(!icon_fits(32, 32, 4095));
}

#[test]
fn relaunches_are_explained() {
    assert!(relaunch_elevated(33, 0).is_ok());
    assert_eq!(
        relaunch_elevated(5, 1223).unwrap_err(),
        "管理员授权已取消；当前窗口仍保持受限模式"
    );
    assert_eq!(
        relaunch_elevated(5, 2).unwrap_err(),
        "无法以管理员身份重新启动（ShellExecuteW=5，Win32=2）"
    );
    assert_eq!(
        relaunch_unelevated(-1, 2).unwrap_err(),
        "无法通过 Windows Shell 以普通权限重新启动（ShellExecuteW=-1，Win32=2）"
    );
    assert!(asks_to_stop(0) && asks_to_stop(1) && !asks_to_stop(2));
}
