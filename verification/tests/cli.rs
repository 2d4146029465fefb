use procnet::address::{IpAddr, SocketAddr};
use procnet::cleanup::{
    cleanup_target, control_result, session_present, CleanupPreparation, CleanupResult,
    CleanupStop, ControlResult, EtwCleanupError, PROJECT_ETW_SESSION_NAME,
};
use procnet::etw::{EtwProbeError, EtwProbeErrorKind, TraceFailure};
use procnet::model::{
    ConnectionSnapshot, FlowKey, FlowSnapshot, ProcessIconState, ProcessKey, ProcessSnapshot,
    SystemSnapshot, TcpConnectionState, TrafficBucket, TrafficDirection, TransportProtocol,
};
use procnet::options::{
    help_text, parse_cleanup_session, parse_cli_command, parse_export_options, parse_port,
    parse_probe_options, parse_runtime_options, probe_exit_code, probe_start_line,
    restricted_status, runtime_start_line, CliCommand, CommandError, ExportFormat, RuntimeOptions,
};
use procnet::report::{
    bucket_line, cleanup_line, connection_line, connection_line_with, exported_line, flow_line,
    process_line, process_line_with, show_optional, system_line,
};
use procnet::snapshot::{CaptureRestriction, CaptureStatus};

fn words(list: &[&str]) -> Vec<String> {
    list.iter().map(|word| (*word).to_owned()).collect()
}

#[test]
fn probe_duration_is_bounded() {
    assert!(parse_probe_options(&["--seconds".to_owned(), "0".to_owned()]).is_err());
    assert!(parse_probe_options(&["--seconds".to_owned(), "301".to_owned()]).is_err());
    assert_eq!(
        parse_probe_options(&["--seconds".to_owned(), "7".to_owned()]),
        Ok((7, Vec::new(), false))
    );
}

#[test]
fn fixture_port_is_explicit_and_nonzero() {
    let arguments =
        ["--seconds".to_owned(), "10".to_owned(), "--port".to_owned(), "39001".to_owned()];
    assert_eq!(parse_probe_options(&arguments), Ok((10, vec![39_001], false)));
    assert!(parse_probe_options(&[
        "--seconds".to_owned(),
        "10".to_owned(),
        "--port".to_owned(),
        "0".to_owned(),
    ])
    .is_err());
}

#[test]
fn multiple_fixture_ports_are_distinct_and_sorted() {
    let arguments =
        ["--seconds".to_owned(), "15".to_owned(), "--ports".to_owned(), "39003,39001".to_owned()];
    assert_eq!(parse_probe_options(&arguments), Ok((15, vec![39_001, 39_003], false)));
    assert!(parse_probe_options(&[
        "--seconds".to_owned(),
        "15".to_owned(),
        "--ports".to_owned(),
        "39001,39001".to_owned(),
    ])
    .is_err());
}

#[test]
fn quiet_mode_is_explicit() {
    let arguments = [
        "--seconds".to_owned(),
        "30".to_owned(),
        "--ports".to_owned(),
        "39001,39003".to_owned(),
        "--quiet".to_owned(),
    ];
    assert_eq!(parse_probe_options(&arguments), Ok((30, vec![39_001, 39_003], true)));
}

#[test]
fn cleanup_requires_one_explicit_session_option() {
    let arguments = ["--session".to_owned(), "ProcNetRecorder-V0-TcpIp-Probe".to_owned()];
    assert_eq!(parse_cleanup_session(&arguments), Ok("ProcNetRecorder-V0-TcpIp-Probe"));
    assert!(parse_cleanup_session(&[]).is_err());
}

#[test]
fn runtime_probe_requires_explicit_bounded_queue() {
    let arguments = [
        "--seconds".to_owned(),
        "15".to_owned(),
        "--port".to_owned(),
        "39001".to_owned(),
        "--queue-capacity".to_owned(),
        "4096".to_owned(),
    ];
    assert_eq!(
        parse_runtime_options(&arguments),
        Ok(RuntimeOptions {
            seconds: 15,
            ports: vec![39_001],
            queue_capacity: 4096,
            allow_restricted: false,
            export_json: None,
            export_csv: None,
        })
    );
    assert!(parse_runtime_options(&[
        "--seconds".to_owned(),
        "15".to_owned(),
        "--port".to_owned(),
        "39001".to_owned(),
        "--queue-capacity".to_owned(),
        "0".to_owned(),
    ])
    .is_err());

    let multiple = [
        "--seconds".to_owned(),
        "20".to_owned(),
        "--ports".to_owned(),
        "39005,39001,39004,39002".to_owned(),
        "--queue-capacity".to_owned(),
        "4096".to_owned(),
    ];
    assert_eq!(
        parse_runtime_options(&multiple),
        Ok(RuntimeOptions {
            seconds: 20,
            ports: vec![39_001, 39_002, 39_004, 39_005],
            queue_capacity: 4096,
            allow_restricted: false,
            export_json: None,
            export_csv: None,
        })
    );
    let long_run = [
        "--seconds".to_owned(),
        "1800".to_owned(),
        "--port".to_owned(),
        "39001".to_owned(),
        "--queue-capacity".to_owned(),
        "8192".to_owned(),
    ];
    assert_eq!(
        parse_runtime_options(&long_run),
        Ok(RuntimeOptions {
            seconds: 1800,
            ports: vec![39_001],
            queue_capacity: 8192,
            allow_restricted: false,
            export_json: None,
            export_csv: None,
        })
    );

    let restricted = [
        "--seconds".to_owned(),
        "2".to_owned(),
        "--port".to_owned(),
        "39001".to_owned(),
        "--queue-capacity".to_owned(),
        "64".to_owned(),
        "--allow-restricted".to_owned(),
    ];
    assert_eq!(
        parse_runtime_options(&restricted),
        Ok(RuntimeOptions {
            seconds: 2,
            ports: vec![39_001],
            queue_capacity: 64,
            allow_restricted: true,
            export_json: None,
            export_csv: None,
        })
    );
}

#[test]
fn runtime_probe_accepts_both_export_paths() {
    let exports = [
        "--seconds".to_owned(),
        "2".to_owned(),
        "--port".to_owned(),
        "39001".to_owned(),
        "--queue-capacity".to_owned(),
        "64".to_owned(),
        "--export-json".to_owned(),
        "out.json".to_owned(),
        "--export-csv".to_owned(),
        "out.csv".to_owned(),
    ];
    let parsed = parse_runtime_options(&exports).unwrap();
    assert_eq!(parsed.export_json, Some("out.json".into()));
    assert_eq!(parsed.export_csv, Some("out.csv".into()));
}

#[test]
fn probe_failure_categories_have_stable_exit_codes() {
    assert_eq!(probe_exit_code(EtwProbeErrorKind::AccessDenied), 5);
    assert_eq!(probe_exit_code(EtwProbeErrorKind::SessionAlreadyExists), 183);
    assert_eq!(probe_exit_code(EtwProbeErrorKind::Other), 1);
}

#[test]
fn export_options_are_read() {
    assert_eq!(
        parse_export_options(&words(&["--format", "json", "--output", "snapshot.json"])),
        Ok((ExportFormat::Json, "snapshot.json".into()))
    );
    assert_eq!(
        parse_export_options(&words(&["--format", "csv", "--output", "a b.csv"])),
        Ok((ExportFormat::Csv, "a b.csv".into()))
    );
    assert_eq!(
        parse_export_options(&words(&["--format", "xml", "--output", "snapshot.xml"])),
        Err("--format must be json or csv".to_owned())
    );
    assert_eq!(
        parse_export_options(&words(&["--format", "csv", "--output", ""])),
        Err("--output must not be empty".to_owned())
    );
    assert!(parse_export_options(&words(&["--format", "csv"])).unwrap_err().starts_with("usage:"));
}

#[test]
fn numbers_that_cannot_be_read_are_named() {
    assert_eq!(
        parse_port("").unwrap_err(),
        "invalid --port value: cannot parse integer from empty string"
    );
    assert_eq!(parse_port("x").unwrap_err(), "invalid --port value: invalid digit found in string");
    assert_eq!(
        parse_port("65536").unwrap_err(),
        "invalid --port value: number too large to fit in target type"
    );
    assert_eq!(parse_port("+80"), Ok(80));
    assert_eq!(
        parse_probe_options(&words(&["--seconds", "5", "--ports", "1,,2"])).unwrap_err(),
        "invalid --port value: cannot parse integer from empty string"
    );
    assert_eq!(
        parse_probe_options(&words(&["--seconds", "5", "--ports", "7"])).unwrap_err(),
        "--ports requires at least two distinct ports"
    );
}

#[test]
fn tail_options_are_taken_once() {
    let base = ["--seconds", "2", "--port", "9", "--queue-capacity", "4"];
    let mut twice = words(&base);
    twice.extend(words(&["--allow-restricted", "--allow-restricted"]));
    assert!(parse_runtime_options(&twice).unwrap_err().starts_with("usage:"));
    let mut unfinished = words(&base);
    unfinished.extend(words(&["--export-json"]));
    assert!(parse_runtime_options(&unfinished).is_err());
    let mut mixed = words(&base);
    mixed.extend(words(&["--export-csv", "--export-json", "--allow-restricted"]));
    let options = parse_runtime_options(&mixed).unwrap();
    assert_eq!(options.export_csv.as_deref(), Some("--export-json"));
    assert!(options.allow_restricted);
    assert_eq!(
        runtime_start_line(&options),
        "[INFO] starting V1 bounded runtime probe for 2s on fixture ports 9; queue_capacity=4"
    );
}

#[test]
fn commands_are_told_apart() {
    assert_eq!(parse_cli_command(&None), Ok(CliCommand::Help));
    assert_eq!(parse_cli_command(&Some("v0-probe".to_owned())), Ok(CliCommand::V0Probe));
    assert_eq!(parse_cli_command(&Some("-h".to_owned())), Ok(CliCommand::Help));
    assert_eq!(
        parse_cli_command(&Some("v9".to_owned())),
        Err("unknown command: v9".to_owned())
    );
    assert!(help_text().starts_with("ProcNet Recorder CLI\nUsage:\n"));
    assert_eq!(
        probe_start_line(5),
        "[INFO] starting ETW TCP/IP probe for 5s; this may require administrator privileges"
    );
}

#[test]
fn cleanup_rejects_every_other_session_name_before_native_call() {
    let result = cleanup_target("NT Kernel Logger");
    assert_eq!(
        result.unwrap_err(),
        EtwCleanupError::UnexpectedSessionName { supplied: "NT Kernel Logger".to_owned() }
    );
}

#[test]
fn cleanup_follows_the_answers_of_the_system() {
    let query = || cleanup_target(PROJECT_ETW_SESSION_NAME).unwrap();
    assert_eq!(query().session_name(), "ProcNetRecorder-V0-TcpIp-Probe");
    assert!(matches!(
        query().answered(Ok(ControlResult::NotFound)),
        Ok(CleanupPreparation::AlreadyAbsent)
    ));
    assert_eq!(
        query().answered(Ok(ControlResult::MoreData)).unwrap_err(),
        EtwCleanupError::ControlFailed { operation: "query", code: 234 }
    );
    assert_eq!(
        query().answered(Ok(ControlResult::AccessDenied)).unwrap_err().message(),
        "ETW query access denied; run this cleanup command with administrator privileges"
    );
    let ready = || match query().answered(Ok(ControlResult::Success)).unwrap() {
        CleanupPreparation::Ready(target) => target,
        CleanupPreparation::AlreadyAbsent => panic!("the session is there"),
    };
    assert!(matches!(
        ready().stop(Ok(ControlResult::NotFound)),
        Ok(CleanupStop::Done(CleanupResult::AlreadyAbsent))
    ));
    assert_eq!(
        ready().stop(Err(87)).unwrap_err().message(),
        "ETW stop failed with Win32 error 87"
    );
    let stopped = |answer| match ready().stop(Ok(answer)).unwrap() {
        CleanupStop::Verify(session) => session,
        CleanupStop::Done(_) => panic!("the stop must be verified"),
    };
    assert_eq!(
        stopped(ControlResult::Success).verify_stopped(Ok(ControlResult::NotFound)),
        Ok(CleanupResult::Stopped)
    );
    assert_eq!(
        stopped(ControlResult::MoreData).verify_stopped(Ok(ControlResult::NotFound)),
        Ok(CleanupResult::StoppedAfterMoreData)
    );
    assert_eq!(
        stopped(ControlResult::Success)
            .verify_stopped(Ok(ControlResult::Success))
            .unwrap_err()
            .message(),
        "ETW Session 'ProcNetRecorder-V0-TcpIp-Probe' still exists after the stop attempt"
    );
    assert_eq!(control_result(4201), Ok(ControlResult::NotFound));
    assert_eq!(control_result(6), Err(6));
    assert_eq!(session_present(0), Ok(true));
    assert_eq!(session_present(5), Err(5));
}

#[test]
fn failures_carry_their_exit_code_and_words() {
    let denied = EtwProbeError::from_trace("start", TraceFailure::Io(Some(5)), "x".to_owned());
    let command = CommandError::from_probe(&denied);
    assert_eq!(command.exit_code, 5);
    assert!(command.message.ends_with("is required (ETW start failed: x)"));
    let refused = EtwCleanupError::AccessDenied { operation: "stop" };
    assert_eq!(CommandError::from_cleanup(&refused).exit_code, 5);
    assert_eq!(CommandError::from_cleanup(&EtwCleanupError::StillRunning).exit_code, 1);
    assert_eq!(CommandError::from("no".to_owned()).exit_code, 1);
    assert_eq!(
        restricted_status(EtwProbeErrorKind::SessionAlreadyExists),
        Some(CaptureStatus::Restricted(CaptureRestriction::SessionAlreadyExists))
    );
    assert_eq!(restricted_status(EtwProbeErrorKind::Other), None);
}

fn local(port: u16) -> SocketAddr {
    SocketAddr::new(IpAddr::from_v4_octets([127, 0, 0, 1]), port)
}

#[test]
fn report_lines_are_exact() {
    let flow = FlowSnapshot {
        key: FlowKey {
            pid: 7,
            protocol: TransportProtocol::Udp,
            direction: TrafficDirection::Receive,
            source: local(1),
            destination: local(2),
        },
        process_key: None,
        events: 3,
        bytes: 4,
        first_timestamp_unix_nanos: 5,
        last_timestamp_unix_nanos: 6,
    };
    assert_eq!(
        flow_line(&flow),
        "APP_FLOW pid=7 protocol=UDP direction=receive source=127.0.0.1:1 \
         destination=127.0.0.1:2 events=3 bytes=4 first_timestamp_unix_nanos=5 \
         last_timestamp_unix_nanos=6 process_started_at_unix_nanos=0"
    );
    let bucket = TrafficBucket { start_unix_nanos: 1, send_bytes: 2, receive_bytes: 3 };
    assert_eq!(
        bucket_line(&bucket),
        "APP_CURVE_BUCKET start_unix_nanos=1 send_bytes=2 receive_bytes=3"
    );
    assert_eq!(
        exported_line(ExportFormat::Csv, 12, "out.csv"),
        "SNAPSHOT_EXPORTED format=csv bytes=12 output=out.csv"
    );
    assert_eq!(
        cleanup_line(CleanupResult::Stopped, "S"),
        "ETW Session stopped and absence verified: S"
    );
}

#[test]
fn texts_are_shown_with_their_quotation_marks() {
    let key = ProcessKey { pid: 7, started_at_unix_nanos: 9 };
    let process = ProcessSnapshot {
        key,
        name: "a\"b\n.exe".to_owned(),
        image_path: Some("C:\\a".to_owned()),
        icon: ProcessIconState::NotLoaded,
    };
    assert_eq!(
        process_line(&process),
        format!(
            "SYSTEM_PROCESS pid=7 started_at_unix_nanos=9 name={:?} image_path={:?}",
            process.name, process.image_path
        )
    );
    assert_eq!(
        process_line_with(key, "N", "P"),
        "SYSTEM_PROCESS pid=7 started_at_unix_nanos=9 name=N image_path=P"
    );
    let connection = ConnectionSnapshot {
        protocol: TransportProtocol::Tcp,
        local: local(1),
        remote: None,
        tcp_state: Some(TcpConnectionState::Unknown(77)),
        pid: 7,
        process_key: Some(key),
        owner_name: None,
    };
    assert_eq!(
        connection_line(&connection),
        "SYSTEM_CONNECTION protocol=TCP local=127.0.0.1:1 remote=none tcp_state=Unknown(77) \
         pid=7 process_started_at_unix_nanos=9 owner_name=None"
    );
    assert!(connection_line_with(&connection, "O").ends_with("owner_name=O"));
    assert_eq!(show_optional(&Some("\"x\"".to_owned())), "Some(\"x\")");
    let tables = SystemSnapshot {
        captured_at_unix_nanos: 1,
        process_names: Vec::new(),
        processes: vec![process],
        connections: vec![connection],
    };
    assert_eq!(
        system_line(&tables),
        "SYSTEM_SNAPSHOT captured_at_unix_nanos=1 processes=1 connections=1 associated=1 named=0"
    );
}
