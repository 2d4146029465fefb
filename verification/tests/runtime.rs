use procnet::address::{IpAddr, SocketAddr};
use procnet::curve::TrafficCurve;
use procnet::duration::Duration;
use procnet::export::{render_snapshot_csv, render_snapshot_json};
use procnet::model::{
    ConnectionSnapshot, NetworkEvent, ProcessIconState, ProcessKey, ProcessSnapshot,
    SystemSnapshot, TcpConnectionState, TrafficDirection, TransportProtocol,
};
use procnet::quoting::{put_json, put_json_control, put_markdown, write_csv_row};
use procnet::runtime::{
    validate_config, ApplicationRuntime, EventIngress, Moment, SubmitOutcome,
    SystemSnapshotPublisher,
};
use procnet::snapshot::{
    rank, recent_curve, ApplicationSnapshot, CaptureRestriction, CaptureStatus,
    ConnectionOwnerStatus, ProcessTrafficSnapshot, RuntimeConfig,
};

const NOW: u64 = 1_700_000_000_000_000_000;

fn moment(millis: u64) -> Moment {
    Moment { unix_nanos: NOW + millis * 1_000_000, steady_nanos: millis * 1_000_000 }
}

fn local(port: u16) -> SocketAddr {
    SocketAddr::new(IpAddr::from_v4_octets([127, 0, 0, 1]), port)
}

fn event(bytes: u64) -> NetworkEvent {
    NetworkEvent {
        timestamp_unix_nanos: NOW.saturating_add(bytes),
        pid: 7,
        protocol: TransportProtocol::Tcp,
        direction: TrafficDirection::Send,
        source: local(40_000),
        destination: local(39_001),
        bytes,
    }
}

/// Lets the runtime work for a while, one millisecond at a time.
fn work(runtime: &mut ApplicationRuntime, from: u64, until: u64) {
    for millis in from..=until {
        while runtime.process_next(moment(millis)) {}
        if runtime.is_due(moment(millis)) {
            runtime.publish(moment(millis));
        }
    }
}

#[test]
fn full_channel_drops_without_blocking() {
    let mut ingress = EventIngress::new(&RuntimeConfig::bounded(1));
    assert_eq!(ingress.try_submit(event(1)), SubmitOutcome::Accepted);
    assert_eq!(ingress.try_submit(event(2)), SubmitOutcome::DroppedFull);
}

#[test]
fn stop_drains_accepted_events_and_returns_final_snapshot() {
    let mut runtime = ApplicationRuntime::start(4, moment(0)).unwrap();
    let ingress = runtime.ingress();
    assert_eq!(ingress.try_submit(event(100)), SubmitOutcome::Accepted);
    assert_eq!(ingress.try_submit(event(200)), SubmitOutcome::Accepted);

    let final_snapshot = runtime.stop(moment(1));
    assert!(!final_snapshot.running);
    assert_eq!(final_snapshot.events_received, 2);
    assert_eq!(final_snapshot.events_accepted, 2);
    assert_eq!(final_snapshot.events_processed, 2);
    assert_eq!(final_snapshot.queue_depth, 0);
    assert_eq!(final_snapshot.flows.len(), 1);
    assert_eq!(final_snapshot.flows[0].bytes, 300);
    assert_eq!(final_snapshot.curve.events_accepted, 2);
    assert_eq!(final_snapshot.curve.bytes_accepted, 300);
    assert_eq!(final_snapshot.curve.events_late_dropped, 0);
    assert_eq!(runtime.try_submit(event(1)), SubmitOutcome::Stopped);
}

#[test]
fn zero_capacity_is_rejected() {
    assert!(ApplicationRuntime::start(0, moment(0)).is_err());
}

#[test]
fn every_bound_of_a_configuration_is_checked() {
    let usual = RuntimeConfig::bounded(4);
    assert!(validate_config(&usual).is_ok());
    let no_interval = RuntimeConfig { snapshot_interval: Duration::from_secs(0), ..usual };
    let no_timeout = RuntimeConfig { flow_idle_timeout: Duration::from_secs(0), ..usual };
    let no_flows = RuntimeConfig { maximum_flows: 0, ..usual };
    let no_width = RuntimeConfig { curve_bucket_width: Duration::from_secs(0), ..usual };
    let no_buckets = RuntimeConfig { curve_maximum_buckets: 0, ..usual };
    for wrong in [no_interval, no_timeout, no_flows, no_width, no_buckets] {
        assert!(!validate_config(&wrong).unwrap_err().message().is_empty());
    }
}

#[test]
fn concurrent_stop_processes_every_accepted_event() {
    let mut runtime = ApplicationRuntime::start(8, moment(0)).unwrap();
    for value in 1..=10_000 {
        let _ = runtime.try_submit(event(value));
        if value % 7 == 0 {
            let _ = runtime.process_next(moment(1));
        }
    }
    let final_snapshot = runtime.stop(moment(2));
    assert_eq!(final_snapshot.events_accepted, final_snapshot.events_processed);
    assert_eq!(final_snapshot.queue_depth, 0);
}

#[test]
fn snapshot_publication_caps_flow_count() {
    let mut runtime = ApplicationRuntime::start_with_config(
        RuntimeConfig {
            queue_capacity: 16,
            snapshot_interval: Duration::from_millis(5),
            flow_idle_timeout: Duration::from_secs(1),
            maximum_flows: 2,
            curve_bucket_width: Duration::from_secs(1),
            curve_maximum_buckets: 10,
        },
        moment(0),
    )
    .unwrap();
    for pid in 1..=3 {
        let mut item = event(1);
        item.pid = pid;
        assert_eq!(runtime.ingress().try_submit(item), SubmitOutcome::Accepted);
    }
    work(&mut runtime, 1, 30);
    let bounded = runtime.snapshot(NOW + 30_000_000);
    assert_eq!(bounded.flows.len(), 2);
    assert_eq!(bounded.maximum_flows, 2);
    let final_snapshot = runtime.stop(moment(31));
    assert_eq!(final_snapshot.events_accepted, 3);
    assert_eq!(final_snapshot.events_processed, 3);
}

#[test]
fn snapshot_publication_expires_idle_flows() {
    let mut runtime = ApplicationRuntime::start_with_config(
        RuntimeConfig {
            queue_capacity: 4,
            snapshot_interval: Duration::from_millis(2),
            flow_idle_timeout: Duration::from_millis(10),
            maximum_flows: 4,
            curve_bucket_width: Duration::from_secs(1),
            curve_maximum_buckets: 10,
        },
        moment(0),
    )
    .unwrap();
    assert_eq!(runtime.ingress().try_submit(event(1)), SubmitOutcome::Accepted);
    work(&mut runtime, 1, 50);
    let expired = runtime.snapshot(NOW + 50_000_000);
    assert!(expired.flows.is_empty());
    assert_eq!(expired.events_processed, 1);
    let _ = runtime.stop(moment(51));
}

#[test]
fn restricted_capture_status_keeps_runtime_alive_and_is_read_only() {
    let mut runtime = ApplicationRuntime::start(4, moment(0)).unwrap();
    runtime.set_capture_status(CaptureStatus::Restricted(CaptureRestriction::PermissionRequired));
    let snapshot = runtime.snapshot_reader().snapshot(NOW);
    assert!(snapshot.running);
    assert_eq!(
        snapshot.capture_status,
        CaptureStatus::Restricted(CaptureRestriction::PermissionRequired)
    );
    assert_eq!(snapshot.events_received, 0);

    let stopped = runtime.stop(moment(1));
    assert!(!stopped.running);
    assert_eq!(stopped.capture_status, snapshot.capture_status);
}

fn empty_system(captured_at_unix_nanos: u64) -> SystemSnapshot {
    SystemSnapshot {
        captured_at_unix_nanos,
        process_names: Vec::new(),
        processes: Vec::new(),
        connections: Vec::new(),
    }
}

#[test]
fn system_snapshot_is_owned_and_visible_to_readers() {
    let mut runtime = ApplicationRuntime::start(4, moment(0)).unwrap();
    runtime.publish_system_snapshot(empty_system(123));
    let published = runtime.snapshot_reader().snapshot(NOW).system.unwrap();
    assert_eq!(published.captured_at_unix_nanos, 123);

    runtime.publish_system_snapshot(empty_system(456));
    assert_eq!(published.captured_at_unix_nanos, 123);
    assert_eq!(
        runtime.snapshot_reader().snapshot(NOW).system.unwrap().captured_at_unix_nanos,
        456
    );
    let _ = runtime.stop(moment(1));
}

#[test]
fn flow_attribution_rejects_a_reused_pid() {
    let mut runtime = ApplicationRuntime::start_with_config(
        RuntimeConfig {
            queue_capacity: 4,
            snapshot_interval: Duration::from_millis(2),
            flow_idle_timeout: Duration::from_secs(1),
            maximum_flows: 4,
            curve_bucket_width: Duration::from_secs(1),
            curve_maximum_buckets: 10,
        },
        moment(0),
    )
    .unwrap();
    let item = event(10);
    assert_eq!(runtime.ingress().try_submit(item.clone()), SubmitOutcome::Accepted);
    work(&mut runtime, 1, 20);
    let original =
        ProcessKey { pid: item.pid, started_at_unix_nanos: item.timestamp_unix_nanos - 1 };
    runtime.publish_system_snapshot(SystemSnapshot {
        captured_at_unix_nanos: item.timestamp_unix_nanos + 1,
        process_names: vec![(item.pid, "original.exe".to_owned())],
        processes: vec![ProcessSnapshot {
            key: original,
            name: "original.exe".to_owned(),
            image_path: None,
            icon: ProcessIconState::NotLoaded,
        }],
        connections: Vec::new(),
    });
    assert_eq!(runtime.snapshot(NOW + 20).flows[0].process_key, Some(original));

    runtime.publish_system_snapshot(SystemSnapshot {
        captured_at_unix_nanos: item.timestamp_unix_nanos + 20,
        process_names: vec![(item.pid, "replacement.exe".to_owned())],
        processes: vec![ProcessSnapshot {
            key: ProcessKey {
                pid: item.pid,
                started_at_unix_nanos: item.timestamp_unix_nanos + 10,
            },
            name: "replacement.exe".to_owned(),
            image_path: None,
            icon: ProcessIconState::NotLoaded,
        }],
        connections: Vec::new(),
    });
    assert_eq!(runtime.snapshot(NOW + 20).flows[0].process_key, None);
    let _ = runtime.stop(moment(21));
}

#[test]
fn runtime_curve_preserves_accepted_and_late_byte_conservation() {
    let mut runtime = ApplicationRuntime::start_with_config(
        RuntimeConfig {
            queue_capacity: 8,
            snapshot_interval: Duration::from_millis(2),
            flow_idle_timeout: Duration::from_secs(1),
            maximum_flows: 4,
            curve_bucket_width: Duration::from_nanos(10),
            curve_maximum_buckets: 3,
        },
        moment(0),
    )
    .unwrap();
    let mut item = event(100);
    item.timestamp_unix_nanos = 10;
    assert_eq!(runtime.ingress().try_submit(item.clone()), SubmitOutcome::Accepted);
    item.timestamp_unix_nanos = 50;
    item.bytes = 500;
    assert_eq!(runtime.ingress().try_submit(item.clone()), SubmitOutcome::Accepted);
    item.timestamp_unix_nanos = 0;
    item.bytes = 7;
    assert_eq!(runtime.ingress().try_submit(item), SubmitOutcome::Accepted);
    let stopped = runtime.stop(moment(1));
    assert_eq!(stopped.events_accepted, 3);
    assert_eq!(stopped.events_processed, 3);
    assert_eq!(stopped.curve.events_received, 3);
    assert_eq!(stopped.curve.events_accepted, 2);
    assert_eq!(stopped.curve.events_late_dropped, 1);
    assert_eq!(stopped.curve.bytes_received, 607);
    assert_eq!(stopped.curve.bytes_accepted, 600);
    assert_eq!(stopped.curve.bytes_late_dropped, 7);
    assert_eq!(stopped.curve.buckets.len(), 3);
}

#[test]
fn recent_curve_contains_at_most_sixty_one_second_buckets() {
    let mut curve = TrafficCurve::new(1_000_000_000, 100).unwrap();
    for second in 0..=60 {
        let mut item = event(1);
        item.timestamp_unix_nanos = second * 1_000_000_000;
        let _ = curve.record(&item);
    }
    let recent = recent_curve(&curve.snapshot(), Duration::from_secs(60));
    assert_eq!(recent.maximum_buckets, 60);
    assert_eq!(recent.buckets.len(), 60);
    assert_eq!(recent.buckets[0].start_unix_nanos, 1_000_000_000);
    assert_eq!(recent.buckets[59].start_unix_nanos, 60_000_000_000);
}

#[test]
fn curve_clock_advances_through_idle_publications() {
    let mut runtime = ApplicationRuntime::start_with_config(
        RuntimeConfig {
            queue_capacity: 4,
            snapshot_interval: Duration::from_millis(2),
            flow_idle_timeout: Duration::from_secs(1),
            maximum_flows: 4,
            curve_bucket_width: Duration::from_millis(10),
            curve_maximum_buckets: 10,
        },
        moment(0),
    )
    .unwrap();
    assert_eq!(runtime.ingress().try_submit(event(100)), SubmitOutcome::Accepted);
    work(&mut runtime, 1, 60);

    let snapshot = runtime.snapshot(NOW + 60_000_000);
    assert!(snapshot.curve.buckets.len() >= 4);
    let first = snapshot.curve.buckets.first().unwrap();
    let last = snapshot.curve.buckets.last().unwrap();
    assert!(last.start_unix_nanos > first.start_unix_nanos);
    assert_eq!(last.send_bytes, 0);
    assert_eq!(last.receive_bytes, 0);
    assert_eq!(snapshot.curve.events_accepted, 1);
    let _ = runtime.stop(moment(61));
}

#[test]
fn process_ranking_and_connection_details_are_joined_in_application() {
    let mut runtime = ApplicationRuntime::start_with_config(
        RuntimeConfig {
            queue_capacity: 4,
            snapshot_interval: Duration::from_millis(2),
            flow_idle_timeout: Duration::from_secs(1),
            maximum_flows: 4,
            curve_bucket_width: Duration::from_secs(1),
            curve_maximum_buckets: 60,
        },
        moment(0),
    )
    .unwrap();
    let item = event(321);
    let key = ProcessKey { pid: item.pid, started_at_unix_nanos: item.timestamp_unix_nanos - 1 };
    assert_eq!(runtime.ingress().try_submit(item.clone()), SubmitOutcome::Accepted);
    work(&mut runtime, 1, 20);
    let process = || ProcessSnapshot {
        key,
        name: "ranked.exe".to_owned(),
        image_path: Some("C:\\ranked.exe".to_owned()),
        icon: ProcessIconState::NotLoaded,
    };
    runtime.publish_system_snapshot(SystemSnapshot {
        captured_at_unix_nanos: item.timestamp_unix_nanos - 1,
        process_names: vec![(item.pid, "ranked.exe".to_owned())],
        processes: vec![process()],
        connections: Vec::new(),
    });
    let early = runtime.snapshot(NOW + 20_000_000);
    assert_eq!(early.process_traffic[0].process_key, None);
    assert_eq!(early.process_traffic[0].name.as_deref(), Some("ranked.exe"));

    runtime.publish_system_snapshot(SystemSnapshot {
        captured_at_unix_nanos: item.timestamp_unix_nanos + 1,
        process_names: vec![(item.pid, "ranked.exe".to_owned())],
        processes: vec![process()],
        connections: vec![ConnectionSnapshot {
            protocol: TransportProtocol::Tcp,
            local: item.source,
            remote: Some(item.destination),
            tcp_state: Some(TcpConnectionState::Established),
            pid: item.pid,
            process_key: Some(key),
            owner_name: Some("ranked.exe".to_owned()),
        }],
    });

    let snapshot = runtime.snapshot(NOW + 20_000_000);
    assert_eq!(snapshot.process_traffic.len(), 1);
    let ranked = &snapshot.process_traffic[0];
    assert_eq!(ranked.process_key, Some(key));
    assert_eq!(ranked.name.as_deref(), Some("ranked.exe"));
    assert_eq!(ranked.send_bytes_total, 321);
    assert_eq!(ranked.send_bytes_per_second, 321);
    assert_eq!(ranked.connection_count, 1);
    assert_eq!(snapshot.network_rate.send_bytes_per_second, 321);
    assert_eq!(snapshot.connection_details.len(), 1);
    assert_eq!(snapshot.connection_details[0].process_name.as_deref(), Some("ranked.exe"));
    assert_eq!(snapshot.connection_details[0].owner_status, ConnectionOwnerStatus::Matched);
    let _ = runtime.stop(moment(21));
}

#[test]
fn icons_are_merged_into_the_published_tables() {
    let key = ProcessKey { pid: 7, started_at_unix_nanos: 1 };
    let process = |icon| ProcessSnapshot {
        key,
        name: "a.exe".to_owned(),
        image_path: Some("C:\\a.exe".to_owned()),
        icon,
    };
    let mut publisher = SystemSnapshotPublisher::new();
    let mut tables = empty_system(5);
    tables.processes = vec![process(ProcessIconState::NotLoaded)];
    publisher.publish(tables.clone());
    tables.processes[0].icon = ProcessIconState::Unavailable;
    publisher.merge_process_icons(&tables);
    let mut runtime = ApplicationRuntime::start(1, moment(0)).unwrap();
    runtime.publish_system_snapshot(empty_system(1));
    runtime.system_snapshot_publisher().publish(empty_system(9));
    assert_eq!(runtime.snapshot(NOW).system.unwrap().captured_at_unix_nanos, 9);
    assert_eq!(runtime.remaining_nanos(moment(0)), 100_000_000);
}

fn exported_snapshot() -> ApplicationSnapshot {
    let mut runtime = ApplicationRuntime::start(4, moment(0)).unwrap();
    let event_time = NOW;
    let key = ProcessKey { pid: 7, started_at_unix_nanos: event_time - 1 };
    runtime.publish_system_snapshot(SystemSnapshot {
        captured_at_unix_nanos: event_time + 1,
        process_names: vec![(7, "fixture.exe".to_owned())],
        processes: vec![ProcessSnapshot {
            key,
            name: "quoted,\"进程\n.exe".to_owned(),
            image_path: Some("C:\\测试\\app.exe".to_owned()),
            icon: ProcessIconState::NotLoaded,
        }],
        connections: vec![ConnectionSnapshot {
            protocol: TransportProtocol::Tcp,
            local: local(39_001),
            remote: None,
            tcp_state: Some(TcpConnectionState::Listen),
            pid: 7,
            process_key: Some(key),
            owner_name: Some("fixture.exe".to_owned()),
        }],
    });
    assert_eq!(
        runtime.ingress().try_submit(NetworkEvent {
            timestamp_unix_nanos: event_time,
            pid: 7,
            protocol: TransportProtocol::Tcp,
            direction: TrafficDirection::Send,
            source: local(40_000),
            destination: local(39_001),
            bytes: 123,
        }),
        SubmitOutcome::Accepted
    );
    runtime.stop(moment(1))
}

#[test]
fn json_and_csv_are_deterministic_and_escape_text() {
    let snapshot = exported_snapshot();
    let json = render_snapshot_json(&snapshot);
    assert_eq!(json, render_snapshot_json(&snapshot));
    assert!(json.contains("quoted,\\\"进程\\n.exe"));
    assert!(json.contains("C:\\\\测试\\\\app.exe"));
    assert!(json.contains("\"bytes\":123"));
    assert!(json.contains("\"process_traffic\""));
    assert!(json.contains("\"send_bytes_total\":123"));
    assert!(json.contains("\"recent_60_seconds\""));
    assert!(json.contains("\"network_rate\""));
    assert!(json.contains("\"process_name\":\"quoted,"));

    let csv = render_snapshot_csv(&snapshot);
    assert_eq!(csv, render_snapshot_csv(&snapshot));
    assert!(csv.contains("\"quoted,\"\"进程\n.exe\""));
    assert!(csv.contains("\"flow\""));
    assert!(csv.contains("\"curve\""));
    assert!(csv.contains("\"process\""));
    assert!(csv.contains("\"connection\""));
    assert!(csv.contains("\"process_traffic\""));
    assert!(csv.contains("\"recent_curve\""));
    assert!(csv.contains("\"network_rate\""));
}

#[test]
fn exports_do_not_depend_on_the_order_of_lists() {
    let mut snapshot = exported_snapshot();
    let mut flow = snapshot.flows[0].clone();
    flow.key.pid = 3;
    snapshot.flows.push(flow);
    let system = snapshot.system.as_mut().unwrap();
    let mut process = system.processes[0].clone();
    process.key.pid = 3;
    system.processes.push(process);
    let mut connection = system.connections[0].clone();
    connection.protocol = TransportProtocol::Udp;
    connection.pid = 3;
    system.connections.push(connection);
    let mut turned = snapshot.clone();
    turned.flows.reverse();
    let system = turned.system.as_mut().unwrap();
    system.processes.reverse();
    system.connections.reverse();
    assert_ne!(snapshot.flows, turned.flows);
    let json = render_snapshot_json(&snapshot);
    assert_eq!(json, render_snapshot_json(&turned));
    let csv = render_snapshot_csv(&snapshot);
    assert_eq!(csv, render_snapshot_csv(&turned));
    assert!(csv.find("\"flow\",\"3\"").unwrap() < csv.find("\"flow\",\"7\"").unwrap());
    assert_eq!(csv.matches("\"flow\"").count(), 2);
    assert_eq!(csv.matches("\"process\"").count(), 2);
    assert_eq!(csv.matches("\"connection\"").count(), 2);
}

#[test]
fn processes_are_ranked_by_rate_traffic_and_number() {
    let row = |pid: u32, rate: u64, total: u64| ProcessTrafficSnapshot {
        pid,
        process_key: None,
        name: None,
        image_path: None,
        icon: ProcessIconState::NotLoaded,
        send_bytes_total: total,
        receive_bytes_total: 0,
        send_bytes_per_second: rate,
        receive_bytes_per_second: 0,
        connection_count: 0,
        last_timestamp_unix_nanos: 0,
    };
    let rows = vec![row(9, 1, 5), row(2, 1, 5), row(4, 7, 1), row(5, 1, 6), row(2, 1, 5)];
    let numbers: Vec<u32> = rank(&rows).iter().map(|row| row.pid).collect();
    assert_eq!(numbers, vec![4, 5, 2, 2, 9]);
}

#[test]
fn quoted_text_keeps_every_character() {
    let text = "a\"\\\n\r\t\u{8}\u{c}\u{1}\u{7f}进";
    let mut of_a_snapshot = String::from("x:");
    put_json(&mut of_a_snapshot, text);
    assert_eq!(
        of_a_snapshot,
        "x:\"a\\\"\\\\\\n\\r\\t\\b\\f\\u0001\u{7f}进\""
    );
    let mut of_a_session = String::new();
    put_json_control(&mut of_a_session, text);
    assert_eq!(
        of_a_session,
        "\"a\\\"\\\\\\n\\r\\t\\u0008\\u000c\\u0001\\u007f进\""
    );
    let row = write_csv_row(&vec!["a,b".to_owned(), "say \"hi\"\r\n".to_owned(), String::new()]);
    assert_eq!(row, "\"a,b\",\"say \"\"hi\"\"\r\n\",\"\"\r\n");
    let mut cell = String::new();
    put_markdown(&mut cell, "a|b\nc");
    assert_eq!(cell, "a\\|b c");
}
