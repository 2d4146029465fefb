use procnet::address::{IpAddr, SocketAddr};
use procnet::aggregator::TrafficAggregator;
use procnet::alert::{AlertEvaluator, AlertObservation, AlertPolicy};
use procnet::curve::{CurveRecordOutcome, TrafficCurve};
use procnet::duration::Duration;
use procnet::model::{
    ConnectionSnapshot, NetworkEvent, ProcessIconState, ProcessKey, ProcessSnapshot,
    TcpConnectionState, TrafficDirection, TransportProtocol,
};
use procnet::risk::{
    ProcessRiskObservation, RiskEvaluator, RiskLevel, RiskObservation, RiskPolicy,
};
use procnet::session::AlertKind;
use procnet::session::SessionStatus;
use procnet::tracker::ProcessTrafficTracker;
use procnet::PROJECT_NAME;

fn local(port: u16) -> SocketAddr {
    SocketAddr::new(IpAddr::from_v4_octets([127, 0, 0, 1]), port)
}

fn event(timestamp: u64, pid: u32, bytes: u64) -> NetworkEvent {
    NetworkEvent {
        timestamp_unix_nanos: timestamp,
        pid,
        protocol: TransportProtocol::Tcp,
        direction: TrafficDirection::Send,
        source: local(40_000),
        destination: local(39_001),
        bytes,
    }
}

#[test]
fn project_name_is_stable() {
    assert_eq!(PROJECT_NAME, "ProcNet Recorder");
}

#[test]
fn aggregator_groups_by_pid_direction_and_endpoints() {
    let mut aggregator = TrafficAggregator::default();
    let event = NetworkEvent {
        timestamp_unix_nanos: 10,
        pid: 42,
        protocol: TransportProtocol::Tcp,
        direction: TrafficDirection::Send,
        source: local(40_000),
        destination: local(39_001),
        bytes: 100,
    };
    aggregator.record(&event);
    aggregator.record(&NetworkEvent { timestamp_unix_nanos: 20, bytes: 200, ..event });

    let snapshot = aggregator.snapshot();
    assert_eq!(snapshot.len(), 1);
    assert_eq!(snapshot[0].events, 2);
    assert_eq!(snapshot[0].bytes, 300);
    assert_eq!(snapshot[0].first_timestamp_unix_nanos, 10);
    assert_eq!(snapshot[0].last_timestamp_unix_nanos, 20);
}

#[test]
fn aggregator_does_not_depend_on_the_order_of_events() {
    let events = [event(30, 7, 5), event(10, 8, 1), event(20, 7, u64::MAX), event(40, 7, 9)];
    let mut forwards = TrafficAggregator::default();
    let mut backwards = TrafficAggregator::default();
    for at in 0..events.len() {
        forwards.record(&events[at]);
        backwards.record(&events[events.len() - 1 - at]);
    }
    assert_eq!(forwards.snapshot(), backwards.snapshot());
    let flow = &forwards.snapshot()[0];
    assert_eq!((flow.events, flow.bytes), (3, u64::MAX));
    assert_eq!((flow.first_timestamp_unix_nanos, flow.last_timestamp_unix_nanos), (20, 40));
}

#[test]
fn aggregator_expires_and_caps_flows_deterministically() {
    let mut aggregator = TrafficAggregator::default();
    for (pid, timestamp) in [(1, 10), (2, 20), (3, 30)] {
        aggregator.record(&event(timestamp, pid, 1));
    }
    aggregator.retain_since(20);
    aggregator.trim_to_maximum(1);
    let flows = aggregator.snapshot();
    assert_eq!(flows.len(), 1);
    assert_eq!(flows[0].key.pid, 3);
}

#[test]
fn process_key_prevents_pid_reuse_from_matching_connections() {
    let old = ProcessKey { pid: 42, started_at_unix_nanos: 100 };
    let replacement = ProcessKey { pid: 42, started_at_unix_nanos: 200 };
    assert_ne!(old, replacement);

    let process = ProcessSnapshot {
        key: replacement,
        name: "replacement.exe".to_owned(),
        image_path: None,
        icon: ProcessIconState::NotLoaded,
    };
    let connection = ConnectionSnapshot {
        protocol: TransportProtocol::Tcp,
        local: local(39_001),
        remote: None,
        tcp_state: Some(TcpConnectionState::Listen),
        pid: 42,
        process_key: Some(old),
        owner_name: Some("replacement.exe".to_owned()),
    };
    assert_eq!(connection.local.text(), "127.0.0.1:39001");
    assert_ne!(connection.process_key, Some(process.key));
}

#[test]
fn traffic_curve_fills_gaps_caps_history_and_accounts_late_events() {
    let mut curve = TrafficCurve::new(10, 3).unwrap();
    let mut item = NetworkEvent {
        timestamp_unix_nanos: 10,
        pid: 1,
        protocol: TransportProtocol::Tcp,
        direction: TrafficDirection::Send,
        source: local(1),
        destination: local(2),
        bytes: 100,
    };
    assert_eq!(item.source.text(), "127.0.0.1:1");
    assert_eq!(item.destination.text(), "127.0.0.1:2");
    assert_eq!(curve.record(&item), CurveRecordOutcome::Accepted);
    item.timestamp_unix_nanos = 30;
    item.direction = TrafficDirection::Receive;
    item.bytes = 300;
    assert_eq!(curve.record(&item), CurveRecordOutcome::Accepted);
    let filled = curve.snapshot();
    assert_eq!(filled.buckets.len(), 3);
    assert_eq!(filled.buckets[1].start_unix_nanos, 20);
    assert_eq!(filled.buckets[1].send_bytes, 0);
    assert_eq!(filled.buckets[1].receive_bytes, 0);

    item.timestamp_unix_nanos = 0;
    item.bytes = 7;
    assert_eq!(curve.record(&item), CurveRecordOutcome::LateDropped);
    item.timestamp_unix_nanos = 50;
    item.bytes = 500;
    assert_eq!(curve.record(&item), CurveRecordOutcome::Accepted);
    let bounded = curve.snapshot();
    assert_eq!(
        bounded.buckets.iter().map(|bucket| bucket.start_unix_nanos).collect::<Vec<_>>(),
        vec![30, 40, 50]
    );
    assert_eq!(bounded.events_received, 4);
    assert_eq!(bounded.events_accepted, 3);
    assert_eq!(bounded.events_late_dropped, 1);
    assert_eq!(bounded.bytes_received, 907);
    assert_eq!(bounded.bytes_accepted, 900);
    assert_eq!(bounded.bytes_late_dropped, 7);

    curve.advance_to(70);
    let advanced = curve.snapshot();
    assert_eq!(
        advanced.buckets.iter().map(|bucket| bucket.start_unix_nanos).collect::<Vec<_>>(),
        vec![50, 60, 70]
    );
    assert_eq!(advanced.buckets[2].send_bytes, 0);
    assert_eq!(advanced.buckets[2].receive_bytes, 0);
    assert_eq!(advanced.events_received, bounded.events_received);
    assert_eq!(advanced.bytes_received, bounded.bytes_received);
}

#[test]
fn process_rates_are_fixed_width_and_become_zero_in_the_next_bucket() {
    let mut tracker = ProcessTrafficTracker::new(1_000_000_000).unwrap();
    let mut item = NetworkEvent {
        timestamp_unix_nanos: 2_100_000_000,
        pid: 7,
        protocol: TransportProtocol::Tcp,
        direction: TrafficDirection::Send,
        source: local(1),
        destination: local(2),
        bytes: 250,
    };
    assert_eq!(item.source.text(), "127.0.0.1:1");
    assert_eq!(item.destination.text(), "127.0.0.1:2");
    tracker.record(&item);
    item.direction = TrafficDirection::Receive;
    item.bytes = 125;
    tracker.record(&item);

    let active = tracker.snapshot_at(2_500_000_000);
    assert_eq!(active.len(), 1);
    assert_eq!(active[0].send_bytes_per_second, 250);
    assert_eq!(active[0].receive_bytes_per_second, 125);
    assert_eq!(active[0].send_bytes_total, 250);
    assert_eq!(active[0].receive_bytes_total, 125);

    let idle = tracker.snapshot_at(4_000_000_000);
    assert_eq!(idle[0].send_bytes_per_second, 0);
    assert_eq!(idle[0].receive_bytes_per_second, 0);
    assert_eq!(idle[0].send_bytes_total, 250);
}

#[test]
fn process_rates_are_those_of_the_bucket_of_the_sample() {
    let mut tracker = ProcessTrafficTracker::new(1_000_000_000).unwrap();
    tracker.record(&NetworkEvent {
        timestamp_unix_nanos: 2_100_000_000,
        pid: 7,
        protocol: TransportProtocol::Tcp,
        direction: TrafficDirection::Send,
        source: local(1),
        destination: local(2),
        bytes: 250,
    });
    assert_eq!(tracker.snapshot_at(2_999_999_999)[0].send_bytes_per_second, 250);
    for time in [1_999_999_999, 3_000_000_000, 3_500_000_000, 4_000_000_000] {
        let sampled = tracker.snapshot_at(time);
        assert_eq!(sampled.len(), 1);
        assert_eq!(sampled[0].send_bytes_per_second, 0);
        assert_eq!(sampled[0].receive_bytes_per_second, 0);
        assert_eq!(sampled[0].send_bytes_total, 250);
    }
}

#[test]
fn curves_and_trackers_need_a_width() {
    assert!(TrafficCurve::new(0, 3).is_none());
    assert!(TrafficCurve::new(10, 0).is_none());
    assert!(ProcessTrafficTracker::new(0).is_none());
}

#[test]
fn counters_hold_at_their_largest_value() {
    let mut aggregator = TrafficAggregator::default();
    aggregator.record(&event(1, 1, u64::MAX));
    aggregator.record(&event(2, 1, 5));
    assert_eq!(aggregator.snapshot()[0].bytes, u64::MAX);
    let mut tracker = ProcessTrafficTracker::new(10).unwrap();
    tracker.record(&event(1, 1, u64::MAX));
    tracker.record(&event(2, 1, 5));
    assert_eq!(tracker.snapshot_at(5)[0].send_bytes_total, u64::MAX);
}

#[test]
fn forgetting_twice_is_forgetting_once() {
    let mut aggregator = TrafficAggregator::default();
    for (pid, timestamp) in [(1, 10), (2, 20), (3, 30)] {
        aggregator.record(&event(timestamp, pid, 1));
    }
    aggregator.retain_since(20);
    let once = aggregator.snapshot();
    aggregator.retain_since(20);
    assert_eq!(once, aggregator.snapshot());
    assert_eq!(once.len(), 2);
}

#[test]
fn a_quiet_process_has_no_rate_but_keeps_its_totals() {
    let mut tracker = ProcessTrafficTracker::new(10).unwrap();
    tracker.record(&event(1, 9, 70));
    tracker.trim_to_maximum(4);
    let later = tracker.snapshot_at(1_000);
    assert_eq!(later[0].send_bytes_per_second, 0);
    assert_eq!(later[0].send_bytes_total, 70);
    tracker.retain_since(2);
    assert!(tracker.snapshot_at(1_000).is_empty());
}

#[test]
fn addresses_are_written_as_usual() {
    assert_eq!(IpAddr::from_v4_octets([192, 168, 0, 1]).text(), "192.168.0.1");
    let loopback = IpAddr::from_v6_octets([0, 0, 0, 0, 0, 0, 0, 0, 0, 0, 0, 0, 0, 0, 0, 1]);
    assert_eq!(loopback.text(), "::1");
    assert_eq!(SocketAddr::new(loopback, 39_004).text(), "[::1]:39004");
    let documentation =
        IpAddr::from_v6_octets([0x20, 1, 0xd, 0xb8, 0, 0, 0, 0, 0, 1, 0, 0, 0, 0, 0, 1]);
    assert_eq!(documentation.text(), "2001:db8::1:0:0:1");
    let mapped = IpAddr::from_v6_octets([0, 0, 0, 0, 0, 0, 0, 0, 0, 0, 255, 255, 10, 0, 0, 1]);
    assert_eq!(mapped.text(), "::ffff:10.0.0.1");
    let link_local = [0xfe, 0x80, 0, 0, 0, 0, 0, 0, 0, 0, 0, 0, 0, 0, 0, 1];
    assert_eq!(SocketAddr::new_v6(link_local, 80, 0, 0).text(), "[fe80::1]:80");
    assert_eq!(SocketAddr::new_v6(link_local, 80, 7, 12).text(), "[fe80::1%12]:80");
    assert_eq!(
        SocketAddr::new_v6(link_local, 80, 0, 0),
        SocketAddr::new(IpAddr::from_v6_octets(link_local), 80)
    );
    assert_ne!(
        SocketAddr::new_v6(link_local, 80, 0, 1),
        SocketAddr::new_v6(link_local, 80, 0, 2)
    );
    assert_ne!(
        SocketAddr::new_v6(link_local, 80, 1, 1),
        SocketAddr::new_v6(link_local, 80, 2, 1)
    );
}

#[test]
fn lengths_of_time_are_exact() {
    assert_eq!(Duration::from_secs(3).as_nanos(), 3_000_000_000);
    assert_eq!(Duration::from_millis(1_500).as_secs(), 1);
    assert_eq!(Duration::from_nanos(1_999_999).as_millis(), 1);
    assert!(Duration::from_nanos(0).is_zero());
    assert_eq!(Duration::from_secs(u64::MAX).clamped_nanos(), u64::MAX);
}

#[test]
fn stored_names_are_read_back() {
    for status in [SessionStatus::Recording, SessionStatus::Completed, SessionStatus::Interrupted] {
        assert_eq!(SessionStatus::parse(status.as_str()), Some(status));
    }
    for kind in [
        AlertKind::NewProcess,
        AlertKind::NewEndpoint,
        AlertKind::UploadThreshold,
        AlertKind::DownloadThreshold,
        AlertKind::TrafficSpike,
        AlertKind::RiskEvent,
    ] {
        assert_eq!(AlertKind::parse(kind.as_str()), Some(kind));
    }
    assert_eq!(SessionStatus::parse("gone"), None);
    assert_eq!(AlertKind::parse(""), None);
}

fn observation(
    send: u64,
    receive: u64,
    processes: &[&str],
    endpoints: &[(&str, &str)],
) -> AlertObservation {
    AlertObservation {
        timestamp_unix_nanos: 1,
        send_bytes_per_second: send,
        receive_bytes_per_second: receive,
        process_names: processes.iter().map(|value| (*value).to_owned()).collect(),
        endpoints: endpoints
            .iter()
            .map(|(process, remote)| ((*process).to_owned(), (*remote).to_owned()))
            .collect(),
    }
}

#[test]
fn evaluator_suppresses_initial_inventory_and_repeated_thresholds() {
    let mut evaluator = AlertEvaluator::new(AlertPolicy {
        new_process: true,
        new_endpoint: true,
        upload_threshold: 100,
        download_threshold: 200,
        spike_multiplier: 4,
    });
    assert!(evaluator.evaluate(&observation(0, 0, &["a"], &[("a", "one")])).is_empty());
    let signals = evaluator.evaluate(&observation(
        100,
        0,
        &["a", "b"],
        &[("a", "one"), ("b", "two")],
    ));
    assert!(signals.iter().any(|signal| signal.kind == AlertKind::NewProcess));
    assert!(signals.iter().any(|signal| signal.kind == AlertKind::NewEndpoint));
    assert!(signals.iter().any(|signal| signal.kind == AlertKind::UploadThreshold));
    assert!(!evaluator
        .evaluate(&observation(150, 0, &["a", "b"], &[("a", "one"), ("b", "two")]))
        .iter()
        .any(|signal| signal.kind == AlertKind::UploadThreshold));
}

fn risk_observation(
    second: u64,
    identity: &str,
    send: u64,
    receive: u64,
    endpoints: &[&str],
) -> RiskObservation {
    RiskObservation {
        timestamp_unix_nanos: second * 1_000_000_000,
        processes: vec![ProcessRiskObservation {
            identity: identity.to_owned(),
            name: identity.to_owned(),
            send_bytes_per_second: send,
            receive_bytes_per_second: receive,
            remote_addresses: endpoints.iter().map(|value| (*value).to_owned()).collect(),
        }],
    }
}

fn risk_policy() -> RiskPolicy {
    RiskPolicy {
        new_process: true,
        new_endpoint: true,
        upload_threshold: 100,
        download_threshold: 200,
        spike_multiplier: 4,
    }
}

#[test]
fn risk_evaluator_suppresses_inventory_then_combines_sustained_novel_activity() {
    let mut evaluator = RiskEvaluator::new(risk_policy());
    assert!(evaluator.evaluate(&risk_observation(100, "known", 0, 0, &["one"])).is_empty());
    let first = evaluator.evaluate(&risk_observation(101, "new", 100, 200, &["two"]));
    assert_eq!(first.len(), 1);
    assert_eq!(first[0].level, RiskLevel::Information);
    assert!(evaluator.evaluate(&risk_observation(102, "new", 100, 200, &["two"])).is_empty());
    let third = evaluator.evaluate(&risk_observation(103, "new", 100, 200, &["two"]));
    assert_eq!(third.len(), 1);
    assert_eq!(third[0].level, RiskLevel::High);
    assert!(third[0].score >= 60);
}

#[test]
fn sustained_upload_from_known_process_is_attention_not_high_risk() {
    let mut evaluator = RiskEvaluator::new(risk_policy());
    evaluator.evaluate(&risk_observation(100, "known", 0, 0, &["one"]));
    evaluator.evaluate(&risk_observation(101, "known", 100, 0, &["one"]));
    evaluator.evaluate(&risk_observation(102, "known", 100, 0, &["one"]));
    let signals = evaluator.evaluate(&risk_observation(103, "known", 100, 0, &["one"]));
    assert_eq!(signals.len(), 1);
    assert_eq!(signals[0].level, RiskLevel::Attention);
    assert_eq!(signals[0].score, 40);
}

#[test]
fn risk_is_not_repeated_while_it_cools_down() {
    let mut evaluator = RiskEvaluator::new(risk_policy());
    evaluator.evaluate(&risk_observation(100, "known", 0, 0, &["one"]));
    for second in 101..104 {
        evaluator.evaluate(&risk_observation(second, "known", 100, 0, &["one"]));
    }
    assert!(evaluator.evaluate(&risk_observation(104, "known", 100, 0, &["one"])).is_empty());
    assert!(evaluator.evaluate(&risk_observation(222, "known", 100, 0, &["one"])).is_empty());
    assert_eq!(evaluator.evaluate(&risk_observation(223, "known", 100, 0, &["one"])).len(), 1);
    let mut policy = risk_policy();
    policy.upload_threshold = 1_000;
    evaluator.set_policy(policy);
    assert!(evaluator.evaluate(&risk_observation(900, "known", 100, 0, &["one"])).is_empty());
}

#[test]
fn risk_is_repeated_when_its_level_rises() {
    let mut evaluator = RiskEvaluator::new(risk_policy());
    evaluator.evaluate(&risk_observation(100, "known", 0, 0, &["one"]));
    for second in 101..103 {
        assert!(evaluator
            .evaluate(&risk_observation(second, "known", 100, 0, &["one"]))
            .is_empty());
    }
    let first = evaluator.evaluate(&risk_observation(103, "known", 100, 0, &["one"]));
    assert_eq!(first[0].level, RiskLevel::Attention);
    for second in 104..106 {
        assert!(evaluator
            .evaluate(&risk_observation(second, "known", 100, 200, &["one"]))
            .is_empty());
    }
    let second = evaluator.evaluate(&risk_observation(106, "known", 100, 200, &["one"]));
    assert_eq!((second[0].level, second[0].score), (RiskLevel::High, 65));
    assert!(evaluator
        .evaluate(&risk_observation(225, "known", 100, 200, &["one"]))
        .is_empty());
    assert_eq!(
        evaluator.evaluate(&risk_observation(226, "known", 100, 200, &["one"])).len(),
        1
    );
}

#[test]
fn a_copied_evaluator_goes_on_by_itself() {
    let mut evaluator = RiskEvaluator::new(risk_policy());
    evaluator.evaluate(&risk_observation(100, "known", 0, 0, &["one"]));
    evaluator.evaluate(&risk_observation(101, "known", 100, 0, &["one"]));
    evaluator.evaluate(&risk_observation(102, "known", 100, 0, &["one"]));
    let mut copy = evaluator.clone();
    assert_eq!(format!("{copy:?}"), format!("{evaluator:?}"));
    let expected = evaluator.evaluate(&risk_observation(103, "known", 100, 0, &["one"]));
    assert_eq!(copy.evaluate(&risk_observation(103, "known", 100, 0, &["one"])), expected);
    assert_eq!(expected.len(), 1);
    let mut alerts = AlertEvaluator::new(AlertPolicy {
        new_process: true,
        new_endpoint: true,
        upload_threshold: 100,
        download_threshold: 200,
        spike_multiplier: 4,
    });
    alerts.evaluate(&observation(0, 0, &["a"], &[("a", "one")]));
    let mut copied = alerts.clone();
    let changed = observation(100, 0, &["a", "b"], &[("a", "one"), ("b", "two")]);
    assert_eq!(copied.evaluate(&changed), alerts.evaluate(&changed));
}
