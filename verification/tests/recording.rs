use procnet::controller::RecordingController;
use procnet::database::Database;
use procnet::model::{ProcessIconState, ProcessKey};
use procnet::recording::{show_events, LiveRiskEvent};
use procnet::risk::RiskLevel;
use procnet::runtime::{ApplicationRuntime, Moment};
use procnet::session::{
    AlertKind, AlertRecord, EndpointSummary, ExportFormat, ProcessSessionSummary, SessionBucket,
    SessionDetail, SessionId, SessionRecord, SessionRepository, SessionStatus,
};
use procnet::settings::V2Settings;
use procnet::snapshot::{ApplicationSnapshot, ProcessTrafficSnapshot};
use std::sync::{Arc, Mutex};

/// A database that several owners share; exports are kept in memory.
#[derive(Clone)]
struct Shared {
    database: Arc<Mutex<Database>>,
    exports: Arc<Mutex<Vec<(String, String)>>>,
    calls: Arc<Mutex<Vec<String>>>,
}

impl Shared {
    fn new() -> Shared {
        Shared {
            database: Arc::new(Mutex::new(Database::open_in_memory())),
            exports: Arc::new(Mutex::new(Vec::new())),
            calls: Arc::new(Mutex::new(Vec::new())),
        }
    }

    fn note(&self, call: String) {
        self.calls.lock().unwrap().push(call);
    }

    fn take_calls(&self) -> Vec<String> {
        self.calls.lock().unwrap().split_off(0)
    }

    fn newest(&self) -> SessionRecord {
        self.database.lock().unwrap().list_sessions(1).remove(0)
    }
}

impl SessionRepository for Shared {
    fn recover_interrupted(&self, timestamp: u64) -> Result<usize, String> {
        self.note(format!("recover {timestamp}"));
        self.database
            .lock()
            .unwrap()
            .recover_interrupted_sessions(timestamp)
            .map_err(|error| error.message())
    }

    fn start_session(&self, name: &str, notes: &str, timestamp: u64) -> Result<SessionId, String> {
        self.note(format!("start {name} {timestamp}"));
        self.database
            .lock()
            .unwrap()
            .start_session(name, notes, timestamp)
            .map_err(|error| error.message())
    }

    fn finish_session(
        &self,
        id: SessionId,
        timestamp: u64,
        status: SessionStatus,
    ) -> Result<bool, String> {
        self.note(format!("finish {} {timestamp}", id.0));
        self.database
            .lock()
            .unwrap()
            .finish_session(id, timestamp, status)
            .map_err(|error| error.message())
    }

    fn append_batch(
        &self,
        id: SessionId,
        buckets: &[SessionBucket],
        processes: &[ProcessSessionSummary],
        endpoints: &[EndpointSummary],
        alerts: &[AlertRecord],
    ) -> Result<(), String> {
        self.note(format!("append {} {} {}", id.0, buckets[0].start_unix_nanos, alerts.len()));
        self.database
            .lock()
            .unwrap()
            .append_batch(id, buckets, processes, endpoints, alerts)
            .map_err(|error| error.message())
    }

    fn list_sessions(&self, limit: usize) -> Result<Vec<SessionRecord>, String> {
        self.note(format!("list {limit}"));
        Ok(self.database.lock().unwrap().list_sessions(limit))
    }

    fn detail(&self, id: SessionId) -> Result<Option<SessionDetail>, String> {
        Ok(self.database.lock().unwrap().detail(id))
    }

    fn delete_session(&self, id: SessionId) -> Result<bool, String> {
        self.note(format!("delete {}", id.0));
        Ok(self.database.lock().unwrap().delete_session(id))
    }

    fn delete_sessions_ended_before(&self, cutoff: u64) -> Result<usize, String> {
        self.database
            .lock()
            .unwrap()
            .delete_sessions_ended_before(cutoff)
            .map_err(|error| error.message())
    }

    fn setting(&self, key: &str) -> Result<Option<String>, String> {
        self.note(format!("setting {key}"));
        Ok(self.database.lock().unwrap().setting(key))
    }

    fn set_setting(&self, key: &str, value: &str) -> Result<(), String> {
        self.database.lock().unwrap().set_setting(key, value);
        Ok(())
    }

    fn export_session(&self, id: SessionId, format: ExportFormat, path: &str) -> Result<(), String> {
        let detail = self
            .database
            .lock()
            .unwrap()
            .detail(id)
            .ok_or_else(|| format!("session {} does not exist", id.text()))?;
        let contents = procnet::session_export::render_session(&detail, format);
        self.exports.lock().unwrap().push((path.to_owned(), contents));
        Ok(())
    }
}

fn blank_snapshot() -> ApplicationSnapshot {
    let runtime = ApplicationRuntime::start(4, Moment { unix_nanos: 1, steady_nanos: 0 }).unwrap();
    runtime.snapshot_reader().snapshot(1)
}

fn busy_snapshot(second: u64) -> ApplicationSnapshot {
    let mut snapshot = blank_snapshot();
    snapshot.network_rate.sampled_at_unix_nanos = second * 1_000_000_000;
    snapshot.process_traffic = vec![ProcessTrafficSnapshot {
        pid: 42,
        process_key: Some(ProcessKey { pid: 42, started_at_unix_nanos: 2_000_000_000 }),
        name: Some("fixture.exe".to_owned()),
        image_path: None,
        icon: ProcessIconState::NotLoaded,
        send_bytes_total: second * 100,
        receive_bytes_total: second * 100,
        send_bytes_per_second: 100,
        receive_bytes_per_second: 100,
        connection_count: 1,
        last_timestamp_unix_nanos: second * 1_000_000_000,
    }];
    snapshot.network_rate.send_bytes_per_second = 100;
    snapshot.network_rate.receive_bytes_per_second = 100;
    snapshot
}

fn low_thresholds() -> V2Settings {
    V2Settings {
        upload_alert_bytes_per_second: 100,
        download_alert_bytes_per_second: 100,
        ..V2Settings::default()
    }
}

#[test]
fn recording_controller_persists_and_completes_a_session() {
    let database = Shared::new();
    let mut controller = RecordingController::start(database.clone(), 10);
    controller.start_recording("integration", "end-to-end", 100);

    let mut snapshot = blank_snapshot();
    snapshot.network_rate.sampled_at_unix_nanos = 1_000_000_000;
    snapshot.network_rate.send_bytes_per_second = 123;
    snapshot.network_rate.receive_bytes_per_second = 456;
    snapshot.events_processed = 2;
    controller.try_record(snapshot);
    controller.stop_recording(2_000_000_000);

    let session = database.newest();
    assert_eq!(session.status, SessionStatus::Completed);
    assert_eq!(
        (session.send_bytes, session.receive_bytes, session.event_count),
        (123, 456, 2)
    );
    assert_eq!(database.database.lock().unwrap().session_buckets(session.id).len(), 1);
}

#[test]
fn recording_controller_keeps_resolved_process_metadata_after_process_exit() {
    let database = Shared::new();
    let mut controller = RecordingController::start(database.clone(), 10);
    controller.start_recording("metadata", "process exit", 100);

    let mut alive = blank_snapshot();
    alive.network_rate.sampled_at_unix_nanos = 1_000_000_000;
    alive.process_traffic = vec![ProcessTrafficSnapshot {
        pid: 42,
        process_key: Some(ProcessKey { pid: 42, started_at_unix_nanos: 500 }),
        name: Some("procnet-fixture.exe".to_owned()),
        image_path: Some("C:\\demo\\procnet-fixture.exe".to_owned()),
        icon: ProcessIconState::NotLoaded,
        send_bytes_total: 100,
        receive_bytes_total: 100,
        send_bytes_per_second: 100,
        receive_bytes_per_second: 100,
        connection_count: 1,
        last_timestamp_unix_nanos: 1_000_000_000,
    }];
    controller.try_record(alive);

    let mut exited = blank_snapshot();
    exited.network_rate.sampled_at_unix_nanos = 2_000_000_000;
    exited.process_traffic = vec![ProcessTrafficSnapshot {
        pid: 42,
        process_key: None,
        name: None,
        image_path: None,
        icon: ProcessIconState::NotLoaded,
        send_bytes_total: 200,
        receive_bytes_total: 200,
        send_bytes_per_second: 0,
        receive_bytes_per_second: 0,
        connection_count: 0,
        last_timestamp_unix_nanos: 1_000_000_000,
    }];
    controller.try_record(exited);
    controller.stop_recording(3_000_000_000);

    let session = database.newest();
    assert_eq!(session.status, SessionStatus::Completed);
    let processes = database.database.lock().unwrap().session_processes(session.id);
    assert_eq!(processes.len(), 1);
    assert_eq!(processes[0].name, "procnet-fixture.exe");
    assert_eq!(processes[0].started_at_unix_nanos, 500);
    assert_eq!(
        processes[0].image_path.as_deref(),
        Some("C:\\demo\\procnet-fixture.exe")
    );
}

#[test]
fn recording_controller_persists_alerts_end_to_end() {
    let database = Shared::new();
    let mut controller = RecordingController::start(database.clone(), 10);
    controller.save_settings(low_thresholds());
    controller.start_recording("alerts", "end-to-end", 100);

    let mut baseline = blank_snapshot();
    baseline.network_rate.sampled_at_unix_nanos = 1_000_000_000;
    controller.try_record(baseline);
    for second in 2..=4 {
        controller.try_record(busy_snapshot(second));
    }
    controller.stop_recording(5_000_000_000);

    let session = database.newest();
    let alerts = database.database.lock().unwrap().session_alerts(session.id);
    assert_eq!(session.status, SessionStatus::Completed);
    assert_eq!(alerts.len(), 2);
    assert!(alerts.iter().all(|alert| alert.kind == AlertKind::RiskEvent));
    assert!(alerts.iter().any(|alert| alert.title == "高风险网络活动"));
}

#[test]
fn high_risk_live_activity_creates_and_completes_an_automatic_event_session() {
    let database = Shared::new();
    let mut controller = RecordingController::start(database.clone(), 10);
    controller.save_settings(low_thresholds());

    let mut baseline = blank_snapshot();
    baseline.network_rate.sampled_at_unix_nanos = 1_000_000_000;
    controller.try_record(baseline);
    for second in 2..=4 {
        controller.try_record(busy_snapshot(second));
    }
    let mut after = blank_snapshot();
    after.network_rate.sampled_at_unix_nanos = 65_000_000_000;
    controller.try_record(after);

    let session = database.newest();
    assert_eq!(session.status, SessionStatus::Completed);
    assert!(session.name.starts_with("自动高风险事件"));
    let stored = database.database.lock().unwrap();
    assert!(stored.session_buckets(session.id).len() >= 4);
    assert!(stored
        .session_alerts(session.id)
        .iter()
        .any(|alert| alert.kind == AlertKind::RiskEvent));
    assert!(controller
        .state()
        .live_risk_events
        .iter()
        .any(|event| event.level == RiskLevel::High));
}

#[test]
fn recording_controller_delete_clears_selected_and_comparison_state() {
    let database = Shared::new();
    let left = database.start_session("left", "", 100).unwrap();
    let right = database.start_session("right", "", 110).unwrap();
    database.finish_session(left, 120, SessionStatus::Completed).unwrap();
    database.finish_session(right, 130, SessionStatus::Completed).unwrap();
    let mut controller = RecordingController::start(database.clone(), 200);
    controller.select(left);
    controller.compare(left, right);
    assert!(controller.state().selected.is_some());
    assert!(controller.state().compare_left.is_some());
    controller.delete_session(left);
    let state = controller.state();
    assert!(state.sessions.iter().all(|session| session.id != left));
    assert!(state.selected.is_none());
    assert!(state.compare_left.is_none());
    assert!(state.compare_right.is_none());
    assert!(database.database.lock().unwrap().session(left).is_none());
}

#[test]
fn a_session_in_progress_is_not_deleted() {
    let database = Shared::new();
    let mut controller = RecordingController::start(database.clone(), 10);
    controller.start_recording("busy", "", 100);
    let id = database.newest().id;
    controller.delete_session(id);
    assert!(database.database.lock().unwrap().session(id).is_some());
    assert!(controller.state().last_error.is_some());
    assert_eq!(controller.state().active.as_ref().map(|session| session.id), Some(id));
}

#[test]
fn settings_are_read_again_at_the_next_start() {
    let database = Shared::new();
    let mut controller = RecordingController::start(database.clone(), 10);
    assert_eq!(controller.state().settings, V2Settings::default());
    controller.save_settings(V2Settings { retention_days: 7, spike_multiplier: 9, ..low_thresholds() });
    let controller = RecordingController::start(database.clone(), 20);
    assert_eq!(
        controller.state().settings,
        V2Settings { retention_days: 7, spike_multiplier: 9, ..low_thresholds() }
    );
}

#[test]
fn what_was_left_recording_is_interrupted_at_the_next_start() {
    let database = Shared::new();
    let mut controller = RecordingController::start(database.clone(), 10);
    controller.start_recording("crashed", "", 100);
    let controller = RecordingController::start(database.clone(), 500);
    assert_eq!(controller.state().recovered_sessions, 1);
    let record = database.newest();
    assert_eq!(record.status, SessionStatus::Interrupted);
    assert_eq!(record.ended_at_unix_nanos, Some(500));
}

#[test]
fn sessions_past_their_days_are_forgotten() {
    let database = Shared::new();
    let day: u64 = 86_400_000_000_000;
    let old = database.start_session("old", "", 1).unwrap();
    database.finish_session(old, 2, SessionStatus::Completed).unwrap();
    let young = database.start_session("young", "", 30 * day).unwrap();
    database.finish_session(young, 30 * day + 1, SessionStatus::Completed).unwrap();
    let mut controller = RecordingController::start(database.clone(), 31 * day);
    controller.apply_retention(31 * day);
    let stored = database.database.lock().unwrap();
    assert!(stored.session(old).is_none());
    assert!(stored.session(young).is_some());
}

#[test]
fn an_export_of_no_session_is_told_as_an_error() {
    let database = Shared::new();
    let mut controller = RecordingController::start(database.clone(), 10);
    controller.export_session(SessionId(9), ExportFormat::Json, "out.json");
    assert_eq!(
        controller.state().last_error.as_deref(),
        Some("session 9 does not exist")
    );
    let id = database.start_session("kept", "", 5).unwrap();
    controller.export_session(id, ExportFormat::Csv, "out.csv");
    let exports = database.exports.lock().unwrap();
    assert_eq!(exports.len(), 1);
    assert_eq!(exports[0].0, "out.csv");
    assert!(exports[0].1.starts_with("section,"));
}

#[test]
fn a_snapshot_without_room_is_counted() {
    let mut controller = RecordingController::start(Shared::new(), 10);
    controller.count_dropped();
    controller.count_dropped();
    assert_eq!(controller.state().persistence_queue_dropped, 2);
}

#[test]
fn the_repository_is_asked_no_more_than_is_needed() {
    let database = Shared::new();
    let mut controller = RecordingController::start(database.clone(), 10);
    assert_eq!(
        database.take_calls(),
        vec![
            "recover 10",
            "setting retention_days",
            "setting upload_alert_bps",
            "setting download_alert_bps",
            "setting spike_multiplier",
            "setting alert_new_process",
            "setting alert_new_endpoint",
            "list 500",
        ]
    );
    controller.start_recording(" busy ", "", 100);
    let id = database.newest().id;
    assert_eq!(database.take_calls(), vec!["start busy 100", "list 500"]);
    controller.start_recording("again", "", 101);
    controller.delete_session(id);
    assert_eq!(database.take_calls(), Vec::<String>::new());

    let mut snapshot = blank_snapshot();
    snapshot.network_rate.sampled_at_unix_nanos = 2_000_000_000;
    controller.try_record(snapshot.clone());
    assert_eq!(
        database.take_calls(),
        vec![format!("append {} 2000000000 0", id.0), "list 500".to_owned()]
    );
    snapshot.network_rate.sampled_at_unix_nanos = 2_900_000_000;
    controller.try_record(snapshot);
    assert_eq!(database.take_calls(), Vec::<String>::new());

    controller.stop_recording(200);
    controller.stop_recording(201);
    assert_eq!(
        database.take_calls(),
        vec![format!("finish {} 200", id.0), "list 500".to_owned()]
    );
    controller.delete_session(id);
    assert_eq!(
        database.take_calls(),
        vec![format!("delete {}", id.0), "list 500".to_owned()]
    );
    controller.delete_session(id);
    assert_eq!(database.take_calls(), vec![format!("delete {}", id.0)]);
}

#[test]
fn a_high_risk_hands_over_what_was_kept_the_oldest_first() {
    let database = Shared::new();
    let mut controller = RecordingController::start(database.clone(), 10);
    controller.save_settings(low_thresholds());
    let mut baseline = blank_snapshot();
    baseline.network_rate.sampled_at_unix_nanos = 1_000_000_000;
    controller.try_record(baseline);
    database.take_calls();
    for second in 2..=4 {
        controller.try_record(busy_snapshot(second));
    }
    let id = database.newest().id.0;
    assert_eq!(
        database.take_calls(),
        vec![
            "start 自动高风险事件 · fixture.exe 1000000000".to_owned(),
            "list 500".to_owned(),
            format!("append {id} 1000000000 0"),
            format!("append {id} 2000000000 0"),
            format!("append {id} 3000000000 0"),
            format!("append {id} 4000000000 1"),
            "list 500".to_owned(),
        ]
    );
    let mut calm = blank_snapshot();
    calm.network_rate.sampled_at_unix_nanos = 63_999_999_999;
    controller.try_record(calm.clone());
    assert_eq!(
        database.take_calls(),
        vec![format!("append {id} 63000000000 0"), "list 500".to_owned()]
    );
    calm.network_rate.sampled_at_unix_nanos = 64_000_000_000;
    controller.try_record(calm);
    assert_eq!(
        database.take_calls(),
        vec![
            format!("append {id} 64000000000 0"),
            "list 500".to_owned(),
            format!("finish {id} 64000000000"),
            "list 500".to_owned(),
        ]
    );
}

#[test]
fn only_the_newest_risk_events_are_shown() {
    let event = |id: u64| LiveRiskEvent {
        id,
        occurred_at_unix_nanos: id,
        level: RiskLevel::High,
        score: 60,
        title: String::new(),
        detail: String::new(),
        process_name: String::new(),
        remote_address: None,
    };
    let mut shown: Vec<LiveRiskEvent> = (0..250).map(event).collect();
    show_events(&mut shown, &[]);
    assert_eq!((shown.len(), shown[0].id), (200, 50));
    show_events(&mut shown, &[event(250), event(251)]);
    assert_eq!((shown.len(), shown[0].id, shown[199].id), (200, 52, 251));
}
