use procnet::address::{IpAddr, SocketAddr};
use procnet::cleanup::{properties_layout, MAX_LOG_FILE_NAME_CHARS, MAX_SESSION_NAME_CHARS};
use procnet::etw::{
    eligible_direction, normalize_port, require_statistics, AddressFamily, EtwProbeError,
    EtwProbeErrorKind, NativeTraceStatistics, NetworkDirection, NetworkPayload, NetworkProtocol,
    ProbeState, RawPayload, TraceFailure, HRESULT_ACCESS_DENIED,
};
use procnet::icons::{drawn_icon, icon_state, rgba_pixels, NativeIcon, ProcessIconCache};
use procnet::model::{
    ProcessIconState, ProcessKey, ProcessSnapshot, SystemSnapshot, TcpConnectionState,
    TransportProtocol,
};
use procnet::project_name;
use procnet::report::{ipv4_line, statistics_line, stop_line, summary_line};
use procnet::system::{
    join_snapshot, tcp_state, NativeConnection, NativeProcess, NativeProtocol, SystemSnapshotError,
};
use procnet::tables::{
    filetime_to_unix_nanos, order_connections, order_processes, row_count, tcp4_connection,
    udp6_connection, TableQuery, TableStep, Tcp4Row, Udp6Row, FILETIME_UNIX_EPOCH_TICKS,
};
use procnet::wide::{decode, encode, encode_wide, first_units, utf16_z};

#[test]
fn platform_layer_depends_inward_on_core() {
    assert_eq!(project_name(), "ProcNet Recorder");
}

#[test]
fn provider_port_is_converted_from_network_byte_order() {
    assert_eq!(normalize_port(22_936), 39_001);
    assert_eq!(normalize_port(15_845), 58_685);
}

#[test]
fn probe_errors_classify_access_denied_and_session_conflict() {
    let denied = EtwProbeError::from_trace("start", TraceFailure::Io(Some(5)), String::new());
    assert_eq!(denied.kind(), EtwProbeErrorKind::AccessDenied);

    let denied_hresult = TraceFailure::Io(Some(i32::from_ne_bytes(
        HRESULT_ACCESS_DENIED.to_ne_bytes(),
    )));
    assert_eq!(
        EtwProbeError::from_trace("start", denied_hresult, String::new()).kind(),
        EtwProbeErrorKind::AccessDenied
    );

    let conflict = EtwProbeError::from_trace("start", TraceFailure::AlreadyExists, String::new());
    assert_eq!(conflict.kind(), EtwProbeErrorKind::SessionAlreadyExists);

    for other in [TraceFailure::Io(None), TraceFailure::Io(Some(2)), TraceFailure::Other] {
        let error = EtwProbeError::from_trace("start", other, "why".to_owned());
        assert_eq!(error.kind(), EtwProbeErrorKind::Other);
        assert_eq!(error.message(), "ETW start failed: why");
    }
}

#[test]
fn properties_buffer_uses_computed_contiguous_offsets() {
    let name = encode_wide("ProcNetRecorder-V0-TcpIp-Probe").unwrap();
    assert_eq!(name.last(), Some(&0));
    let structure_size = 120;
    let layout = properties_layout(structure_size, 8).unwrap();
    let expected_log_offset = structure_size + (MAX_SESSION_NAME_CHARS + 1) * 2;
    let minimum_size = expected_log_offset + (MAX_LOG_FILE_NAME_CHARS + 1) * 2;

    assert_eq!(layout.logger_name_offset as usize, structure_size);
    assert_eq!(layout.log_file_name_offset as usize, expected_log_offset);
    assert!(layout.buffer_size as usize >= minimum_size);
    assert_eq!(layout.buffer_size as usize, layout.word_count * 8);
    assert_eq!(properties_layout(usize::MAX, 8), Err(534));
    assert_eq!(encode_wide("a\0b"), Err(87));
    assert_eq!(encode_wide(&"x".repeat(1_025)), Err(87));
    assert_eq!(encode_wide(&"x".repeat(1_024)).unwrap().len(), 1_025);
}

#[test]
fn wide_text_is_read_back() {
    for text in ["", "plain", "进程 🦀 Ω"] {
        let units = encode(text);
        assert_eq!(units, text.encode_utf16().collect::<Vec<_>>());
        assert_eq!(decode(&units), text);
    }
    for broken in [vec![0xD83E], vec![0xDC00, 65], vec![0xD83E, 66, 0xD83E, 0xDD80]] {
        assert_eq!(decode(&broken), String::from_utf16_lossy(&broken));
    }
    assert_eq!(utf16_z(&[72, 105, 0, 88]), "Hi");
    assert_eq!(utf16_z(&[72, 105]), "Hi");
    assert_eq!(first_units(&[72, 105, 0], 1), "H");
    assert_eq!(first_units(&[72, 105], 9), "Hi");
}

fn local(port: u16) -> SocketAddr {
    SocketAddr::new(IpAddr::from_v4_octets([127, 0, 0, 1]), port)
}

#[test]
fn joins_connections_only_to_real_process_start_times() {
    let snapshot = join_snapshot(
        999,
        vec![
            NativeProcess {
                pid: 7,
                started_at_unix_nanos: Some(123),
                name: "fixture.exe".to_owned(),
                image_path: Some("C:\\fixture.exe".to_owned()),
            },
            NativeProcess {
                pid: 8,
                started_at_unix_nanos: None,
                name: "protected.exe".to_owned(),
                image_path: None,
            },
        ],
        vec![
            NativeConnection {
                protocol: NativeProtocol::Tcp,
                local: local(39_001),
                remote: Some(local(40_000)),
                tcp_state: Some(5),
                pid: 7,
            },
            NativeConnection {
                protocol: NativeProtocol::Udp,
                local: local(39_002),
                remote: None,
                tcp_state: None,
                pid: 8,
            },
        ],
    );
    assert_eq!(snapshot.captured_at_unix_nanos, 999);
    assert_eq!(snapshot.processes[0].key.started_at_unix_nanos, 123);
    assert_eq!(snapshot.connections[0].protocol, TransportProtocol::Tcp);
    assert_eq!(snapshot.connections[0].local.text(), "127.0.0.1:39001");
    assert_eq!(snapshot.connections[0].remote.unwrap().text(), "127.0.0.1:40000");
    assert_eq!(snapshot.connections[0].tcp_state, Some(TcpConnectionState::Established));
    assert_eq!(snapshot.connections[0].process_key, Some(snapshot.processes[0].key));
    assert_eq!(snapshot.connections[1].local.text(), "127.0.0.1:39002");
    assert_eq!(snapshot.connections[1].process_key, None);
    assert_eq!(snapshot.connections[1].owner_name.as_deref(), Some("protected.exe"));
    assert_eq!(snapshot.processes.len(), 1);
    assert!(snapshot.process_names.contains(&(8, "protected.exe".to_owned())));
}

#[test]
fn preserves_unknown_tcp_states() {
    assert_eq!(tcp_state(77), TcpConnectionState::Unknown(77));
}

#[test]
fn known_tcp_states_are_named() {
    assert_eq!(tcp_state(1), TcpConnectionState::Closed);
    assert_eq!(tcp_state(12), TcpConnectionState::DeleteTcb);
    assert_eq!(SystemSnapshotError::new("why".to_owned()).message(), "why");
}

#[test]
fn tables_are_put_in_order() {
    let process = |pid, started| NativeProcess {
        pid,
        started_at_unix_nanos: started,
        name: String::new(),
        image_path: None,
    };
    let list = order_processes(vec![process(9, Some(1)), process(2, Some(5)), process(2, None)]);
    assert_eq!(
        list.iter().map(|p| (p.pid, p.started_at_unix_nanos)).collect::<Vec<_>>(),
        vec![(2, None), (2, Some(5)), (9, Some(1))]
    );
    let connection = |pid, protocol, port| NativeConnection {
        protocol,
        local: local(port),
        remote: None,
        tcp_state: None,
        pid,
    };
    let list = order_connections(vec![
        connection(1, NativeProtocol::Udp, 1),
        connection(1, NativeProtocol::Tcp, 9),
        connection(1, NativeProtocol::Tcp, 3),
        connection(0, NativeProtocol::Udp, 7),
    ]);
    assert_eq!(list.iter().map(|c| c.local.port).collect::<Vec<_>>(), vec![7, 3, 9, 1]);
}

#[test]
fn rows_are_read_exactly() {
    let row = Tcp4Row {
        local_address: u32::from_le_bytes([10, 0, 0, 1]),
        local_port: 22_936,
        remote_address: u32::from_le_bytes([192, 168, 1, 2]),
        remote_port: 0xFFFF_0000 + 15_845,
        state: 5,
        pid: 4,
    };
    let connection = tcp4_connection(&row);
    assert_eq!(connection.local.text(), "10.0.0.1:39001");
    assert_eq!(connection.remote.unwrap().text(), "192.168.1.2:58685");
    let mut loopback = [0; 16];
    loopback[15] = 1;
    let row = Udp6Row { local_address: loopback, local_port: 22_936, pid: 4 };
    assert_eq!(udp6_connection(&row).local.text(), "[::1]:39001");
    assert_eq!(row_count(116, 100, 2, 8, 32), Ok(2));
    assert_eq!(
        row_count(116, 100, 3, 8, 32).unwrap_err(),
        "IP Helper row count exceeds the returned allocation"
    );
    assert_eq!(
        row_count(99, 100, 0, 8, 32).unwrap_err(),
        "IP Helper row pointer precedes its allocation"
    );
    assert_eq!(
        row_count(100, 100, 2, usize::MAX, 32).unwrap_err(),
        "IP Helper row byte count overflowed"
    );
    assert_eq!(
        row_count(usize::MAX, 1, 1, 8, 32).unwrap_err(),
        "IP Helper table byte count overflowed"
    );
}

#[test]
fn tables_are_asked_for_a_bounded_number_of_times() {
    assert!(TableQuery::sized(5, 0).unwrap_err().ends_with("Win32 error 5"));
    let mut query = TableQuery::sized(122, 17).unwrap();
    assert_eq!(query.buffer(8), Ok((3, 24)));
    assert_eq!(TableQuery { byte_count: 0, attempts_left: 1 }.buffer(8), Ok((1, 8)));
    let mut asked = 1;
    loop {
        match query.answered(122, 40) {
            TableStep::Again(next) => query = next,
            TableStep::Failed(reason) => {
                assert_eq!(reason, "IP Helper table kept growing across bounded query retries");
                break;
            }
            TableStep::Done => panic!("the table never fits"),
        }
        asked += 1;
    }
    assert_eq!(asked, 4);
    assert_eq!(query.answered(0, 0), TableStep::Done);
    assert!(matches!(query.answered(87, 0), TableStep::Failed(_)));
}

#[test]
fn file_times_become_unix_times() {
    let epoch = FILETIME_UNIX_EPOCH_TICKS;
    let split = |ticks: u64| ((ticks >> 32) as u32, ticks as u32);
    let (high, low) = split(epoch);
    assert_eq!(filetime_to_unix_nanos(high, low), 0);
    let (high, low) = split(epoch + 7);
    assert_eq!(filetime_to_unix_nanos(high, low), 700);
    assert_eq!(filetime_to_unix_nanos(0, 0), 0);
    assert_eq!(filetime_to_unix_nanos(u32::MAX, u32::MAX), u64::MAX);
}

#[test]
fn pixels_are_swapped_and_made_opaque() {
    assert_eq!(rgba_pixels(&[1, 2, 3, 0, 4, 5, 6, 0, 9]), vec![3, 2, 1, 255, 6, 5, 4, 255]);
    assert_eq!(rgba_pixels(&[1, 2, 3, 0, 4, 5, 6, 7]), vec![3, 2, 1, 0, 6, 5, 4, 7]);
    assert_eq!(drawn_icon(&[0; 4096]).rgba.len(), 32 * 32 * 4);
}

fn tables(paths: &[Option<&str>]) -> SystemSnapshot {
    SystemSnapshot {
        captured_at_unix_nanos: 1,
        process_names: Vec::new(),
        processes: paths
            .iter()
            .map(|path| ProcessSnapshot {
                key: ProcessKey { pid: 1, started_at_unix_nanos: 1 },
                name: String::new(),
                image_path: path.map(str::to_owned),
                icon: ProcessIconState::NotLoaded,
            })
            .collect(),
        connections: Vec::new(),
    }
}

#[test]
fn pictures_are_looked_for_once_and_reused() {
    let mut snapshot = tables(&[Some("a"), None, Some("b"), Some("a"), Some("c")]);
    let mut cache = ProcessIconCache::default();
    assert_eq!(cache.wanted(&snapshot, 2), vec!["a".to_owned(), "b".to_owned()]);
    let icon = NativeIcon { width: 32, height: 32, rgba: vec![0; 32 * 32 * 4] };
    cache.enrich(
        &mut snapshot,
        vec![
            ("a".to_owned(), icon_state(Ok(Some(icon)))),
            ("b".to_owned(), icon_state(Err("no".to_owned()))),
        ],
    );
    let ProcessIconState::Available(shown) = &snapshot.processes[0].icon else {
        panic!("current executable icon was unavailable");
    };
    assert_eq!((shown.width, shown.height, shown.rgba.len()), (32, 32, 32 * 32 * 4));
    assert_eq!(snapshot.processes[1].icon, ProcessIconState::Unavailable);
    assert_eq!(snapshot.processes[2].icon, ProcessIconState::Unavailable);
    assert_eq!(snapshot.processes[3].icon, snapshot.processes[0].icon);
    assert_eq!(snapshot.processes[4].icon, ProcessIconState::NotLoaded);
    assert_eq!(cache.wanted(&snapshot, 5), vec!["c".to_owned()]);
    snapshot.processes[0].icon = ProcessIconState::NotLoaded;
    cache.enrich(&mut snapshot, Vec::new());
    assert!(matches!(snapshot.processes[0].icon, ProcessIconState::Available(_)));
    assert_eq!(icon_state(Ok(None)), ProcessIconState::Unavailable);
}

fn payload(pid: u32, size: u32, source: u16, destination: u16) -> NetworkPayload {
    NetworkPayload::from_raw(RawPayload {
        pid,
        size,
        destination_address: IpAddr::from_v4_octets([127, 0, 0, 1]),
        source_address: IpAddr::from_v4_octets([127, 0, 0, 1]),
        destination_port: destination.swap_bytes(),
        source_port: source.swap_bytes(),
    })
}

fn statistics() -> NativeTraceStatistics {
    NativeTraceStatistics {
        buffer_size_kb: 64,
        minimum_buffers: 64,
        maximum_buffers: 128,
        active_buffers: 1,
        free_buffers: 2,
        events_lost: 3,
        buffers_written: 4,
        log_buffers_lost: 5,
        real_time_buffers_lost: 6,
    }
}

#[test]
fn payloads_are_counted_forwarded_and_summed() {
    let mut probe = ProbeState::new(vec![39_001], true);
    assert_eq!(probe.observe(), 1);
    assert!(probe.schema_resolved(1));
    assert!(!probe.schema_resolved(33));
    assert!(probe.schema_failed(32));
    let direction = eligible_direction(AddressFamily::V4, 2, 10).unwrap();
    assert_eq!(direction, NetworkDirection::Send);
    assert_eq!(eligible_direction(AddressFamily::V6, 2, 27), Some(NetworkDirection::Receive));
    assert_eq!(eligible_direction(AddressFamily::V4, 1, 10), None);
    assert_eq!(eligible_direction(AddressFamily::V6, 2, 10), None);
    let outcome = probe.payload_parsed(
        NetworkProtocol::Tcp,
        AddressFamily::V4,
        direction,
        &payload(7, 100, 39_001, 5),
        42,
    );
    let event = outcome.event.unwrap();
    assert_eq!((event.timestamp_unix_nanos, event.pid, event.bytes), (42, 7, 100));
    assert_eq!(
        outcome.line.unwrap(),
        "ETW_IPV4_PAYLOAD ordinal=1 protocol=tcp direction=send pid=7 size=100 \
         source=127.0.0.1:39001 destination=127.0.0.1:5"
    );
    let ignored = probe.payload_parsed(
        NetworkProtocol::Tcp,
        AddressFamily::V4,
        NetworkDirection::Receive,
        &payload(7, 100, 6, 5),
        43,
    );
    assert!(ignored.event.is_none() && ignored.line.is_none());
    probe.payload_parsed(
        NetworkProtocol::Tcp,
        AddressFamily::V4,
        direction,
        &payload(7, 11, 39_001, 5),
        44,
    );
    assert_eq!(
        probe.payload_failed(NetworkProtocol::Udp, AddressFamily::V6, 26, 2, "PID: no").unwrap(),
        "ETW_IPV6_PAYLOAD_ERROR ordinal=1 opcode=26 version=2 detail=PID: no"
    );
    let summary = probe.summary(true, statistics());
    assert_eq!(summary.tcp_ipv4_payloads_parsed, 3);
    assert_eq!(summary.tcp_send_ipv4_parsed, 2);
    assert_eq!(summary.tcp_recv_ipv4_parsed, 1);
    assert_eq!(summary.udp_ipv6_payload_errors, 1);
    assert_eq!(summary.ipv4_aggregates.len(), 1);
    assert_eq!((summary.ipv4_aggregates[0].events, summary.ipv4_aggregates[0].bytes), (2, 111));
    assert!(summary.ipv6_aggregates.is_empty());
    assert_eq!(summary.session_statistics.events_lost, 3);
    assert_eq!(summary.session_statistics.application_queue_capacity, 0);
    assert_eq!(
        ipv4_line(&summary.ipv4_aggregates[0]),
        "ETW_TCP_IPV4_AGGREGATE pid=7 direction=send source=127.0.0.1:39001 \
         destination=127.0.0.1:5 events=2 bytes=111"
    );
    assert_eq!(stop_line(&summary), "ETW_PROBE_STOP stop_reason=console_ctrl_c");
    assert!(summary_line(&summary)
        .starts_with("ETW_PROBE_SUMMARY events_observed=1 schemas_resolved=2 schema_errors=1"));
    assert!(statistics_line(&summary).ends_with("application_events_dropped=0 aggregate_keys=1"));
}

#[test]
fn without_ports_everything_is_forwarded_and_nothing_summed() {
    let mut probe = ProbeState::new(Vec::new(), false);
    let outcome = probe.payload_parsed(
        NetworkProtocol::Udp,
        AddressFamily::V4,
        NetworkDirection::Receive,
        &payload(1, 2, 3, 4),
        5,
    );
    assert!(outcome.event.is_some());
    assert!(outcome.line.is_none());
    assert!(probe.summary(false, statistics()).ipv4_aggregates.is_empty());
}

#[test]
fn statistics_must_be_there_before_the_stop() {
    assert_eq!(require_statistics(Ok(Some(statistics()))), Ok(statistics()));
    assert_eq!(
        require_statistics(Ok(None)).unwrap_err().message(),
        "ETW statistics query failed: Session disappeared before stop"
    );
    assert_eq!(
        require_statistics(Err(5)).unwrap_err().message(),
        "ETW statistics query failed: Win32 error 5"
    );
}
