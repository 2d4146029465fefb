//! The command line of the capture tool.
use crate::cleanup::EtwCleanupError;
use crate::etw::{EtwProbeError, EtwProbeErrorKind};
use crate::ordered;
use crate::ordered::SortedMap;
use crate::snapshot::{CaptureRestriction, CaptureStatus};
use crate::text;
use vstd::prelude::*;

verus! {

/// How long a probe runs where nothing else is asked.
pub const DEFAULT_PROBE_SECONDS: u64 = 5;

/// The longest a probe runs.
pub const MAX_PROBE_SECONDS: u64 = 300;

/// The longest a run of the whole application runs.
pub const MAX_RUNTIME_SECONDS: u64 = 3600;

/// The longest queue.
pub const MAX_QUEUE_CAPACITY: u64 = 1_048_576;

/// The exit code of a run that lacks a right.
pub const EXIT_PERMISSION_REQUIRED: u8 = 5;

/// The exit code of a run that finds the session taken.
pub const EXIT_SESSION_ALREADY_EXISTS: u8 = 183;

/// A command that failed, and the exit code that says so.
#[derive(Debug, PartialEq, Eq)]
pub struct CommandError {
    pub message: String,
    pub exit_code: u8,
}

/// The exit code of a probe's failure.
pub open spec fn exit_code_of(kind: EtwProbeErrorKind) -> u8 {
    match kind {
        EtwProbeErrorKind::AccessDenied => EXIT_PERMISSION_REQUIRED,
        EtwProbeErrorKind::SessionAlreadyExists => EXIT_SESSION_ALREADY_EXISTS,
        EtwProbeErrorKind::Other => 1,
    }
}

/// The exit code of a probe's failure.
pub fn probe_exit_code(kind: EtwProbeErrorKind) -> (code: u8)
    ensures
        code == exit_code_of(kind),
{
    match kind {
        EtwProbeErrorKind::AccessDenied => EXIT_PERMISSION_REQUIRED,
        EtwProbeErrorKind::SessionAlreadyExists => EXIT_SESSION_ALREADY_EXISTS,
        EtwProbeErrorKind::Other => 1,
    }
}

/// The exit code tells the categories of a probe's failure apart, and none of them is success.
pub proof fn law_exit_codes_tell_failures_apart(a: EtwProbeErrorKind, b: EtwProbeErrorKind)
    ensures
        exit_code_of(a) != 0,
        exit_code_of(a) == exit_code_of(b) ==> a == b,
{
}

/// What a failed probe is reported as.
pub open spec fn probe_message(kind: EtwProbeErrorKind, detail: Seq<char>) -> Seq<char> {
    match kind {
        EtwProbeErrorKind::AccessDenied =>
            "network capture unavailable: administrator privileges or membership in the Performance Log Users group is required ("@
            + detail + ")"@,
        EtwProbeErrorKind::SessionAlreadyExists =>
            "network capture unavailable: ETW Session 'ProcNetRecorder-V0-TcpIp-Probe' already exists; run the exact cleanup-etw command before retrying ("@
            + detail + ")"@,
        EtwProbeErrorKind::Other => detail,
    }
}

impl CommandError {
    /// A failed probe.
    pub fn from_probe(error: &EtwProbeError) -> (command: CommandError)
        ensures
            command.message@ == probe_message(
                error.kind,
                "ETW "@ + error.operation@ + " failed: "@ + error.detail@,
            ),
            command.exit_code == exit_code_of(error.kind),
    {
        let detail = error.message();
        let message = match error.kind() {
            EtwProbeErrorKind::AccessDenied => {
                let mut message =
                    "network capture unavailable: administrator privileges or membership in the Performance Log Users group is required (".to_owned();
                message.append(detail.as_str());
                message.append(")");
                message
            },
            EtwProbeErrorKind::SessionAlreadyExists => {
                let mut message =
                    "network capture unavailable: ETW Session 'ProcNetRecorder-V0-TcpIp-Probe' already exists; run the exact cleanup-etw command before retrying (".to_owned();
                message.append(detail.as_str());
                message.append(")");
                message
            },
            EtwProbeErrorKind::Other => detail,
        };
        CommandError { message, exit_code: probe_exit_code(error.kind()) }
    }

    /// A failed cleanup.
    pub fn from_cleanup(error: &EtwCleanupError) -> (command: CommandError)
        ensures
            command.message@ == crate::cleanup::cleanup_error_text(error@),
            command.exit_code == (if error@ is AccessDenied {
                EXIT_PERMISSION_REQUIRED
            } else {
                1
            }),
    {
        let exit_code: u8 = match error {
            EtwCleanupError::AccessDenied { operation } => EXIT_PERMISSION_REQUIRED,
            _ => 1,
        };
        CommandError { message: error.message(), exit_code }
    }
}

impl From<String> for CommandError {
    fn from(message: String) -> (command: CommandError) {
        CommandError { message, exit_code: 1 }
    }
}

impl vstd::std_specs::convert::FromSpecImpl<String> for CommandError {
    open spec fn obeys_from_spec() -> bool {
        true
    }

    open spec fn from_spec(message: String) -> CommandError {
        CommandError { message, exit_code: 1 }
    }
}

/// What the tool is asked to do.
#[derive(Debug, Clone, Copy, PartialEq, Eq, Structural)]
pub enum CliCommand {
    V0Probe,
    V1RuntimeProbe,
    CleanupEtw,
    SystemSnapshot,
    ExportSnapshot,
    V0CtrlCTest,
    Help,
}

/// What a word asks the tool to do; no word asks for help.
pub open spec fn command_of(word: Option<Seq<char>>) -> Result<CliCommand, Seq<char>> {
    match word {
        None => Ok(CliCommand::Help),
        Some(word) => if word == "v0-probe"@ {
            Ok(CliCommand::V0Probe)
        } else if word == "v1-runtime-probe"@ {
            Ok(CliCommand::V1RuntimeProbe)
        } else if word == "cleanup-etw"@ {
            Ok(CliCommand::CleanupEtw)
        } else if word == "system-snapshot"@ {
            Ok(CliCommand::SystemSnapshot)
        } else if word == "export-snapshot"@ {
            Ok(CliCommand::ExportSnapshot)
        } else if word == "v0-ctrl-c-test"@ {
            Ok(CliCommand::V0CtrlCTest)
        } else if word == "--help"@ || word == "-h"@ {
            Ok(CliCommand::Help)
        } else {
            Err("unknown command: "@ + word)
        },
    }
}

/// Whether a result and a refusal are the expected ones.
pub open spec fn settled<T, V>(
    r: Result<T, String>,
    expected: Result<V, Seq<char>>,
    same: spec_fn(T, V) -> bool,
) -> bool {
    match (r, expected) {
        (Ok(t), Ok(v)) => same(t, v),
        (Err(reason), Err(text)) => reason@ == text,
        _ => false,
    }
}

/// What the first argument asks the tool to do.
pub fn parse_cli_command(word: &Option<String>) -> (r: Result<CliCommand, String>)
    ensures
        settled(
            r,
            command_of(text::optional(*word)),
            |t: CliCommand, v: CliCommand| t == v,
        ),
{
    let word = match word {
        None => {
            return Ok(CliCommand::Help);
        },
        Some(word) => word.as_str(),
    };
    if text::equal(word, "v0-probe") {
        Ok(CliCommand::V0Probe)
    } else if text::equal(word, "v1-runtime-probe") {
        Ok(CliCommand::V1RuntimeProbe)
    } else if text::equal(word, "cleanup-etw") {
        Ok(CliCommand::CleanupEtw)
    } else if text::equal(word, "system-snapshot") {
        Ok(CliCommand::SystemSnapshot)
    } else if text::equal(word, "export-snapshot") {
        Ok(CliCommand::ExportSnapshot)
    } else if text::equal(word, "v0-ctrl-c-test") {
        Ok(CliCommand::V0CtrlCTest)
    } else if text::equal(word, "--help") || text::equal(word, "-h") {
        Ok(CliCommand::Help)
    } else {
        let mut reason = "unknown command: ".to_owned();
        reason.append(word);
        Err(reason)
    }
}

/// Whether a word stands at a place among the arguments.
pub fn stands_at(arguments: &[String], at: usize, word: &str) -> (r: bool)
    requires
        at < arguments@.len(),
    ensures
        r == (text::texts(arguments@)[at as int] == word@),
{
    text::equal(arguments[at].as_str(), word)
}

/// A number that an option takes: one to `maximum`, written as a number of a type with `widest` as
/// its largest value.
pub open spec fn bounded(
    value: Seq<char>,
    widest: nat,
    maximum: nat,
    unreadable: Seq<char>,
    out_of_range: Seq<char>,
) -> Result<nat, Seq<char>> {
    match text::number_read(value, widest) {
        Err(error) => Err(unreadable + text::number_error_text(error)),
        Ok(n) => if n == 0 || n > maximum {
            Err(out_of_range)
        } else {
            Ok(n)
        },
    }
}

/// A number that an option takes.
pub fn parse_bounded(
    value: &str,
    widest: u64,
    maximum: u64,
    unreadable: &str,
    out_of_range: &str,
) -> (r: Result<u64, String>)
    ensures
        settled(
            r,
            bounded(value@, widest as nat, maximum as nat, unreadable@, out_of_range@),
            |t: u64, v: nat| t == v,
        ),
{
    match text::parse_number(value, widest) {
        Err(error) => {
            let mut reason = unreadable.to_owned();
            reason.append(error.message());
            Err(reason)
        },
        Ok(n) => {
            if n == 0 || n > maximum {
                Err(out_of_range.to_owned())
            } else {
                Ok(n)
            }
        },
    }
}

/// How long a probe is to run.
pub open spec fn seconds_read(value: Seq<char>) -> Result<nat, Seq<char>> {
    bounded(
        value,
        u64::MAX as nat,
        MAX_PROBE_SECONDS as nat,
        "invalid --seconds value: "@,
        "--seconds must be between 1 and 300"@,
    )
}

/// How long a probe is to run.
pub fn parse_seconds(value: &str) -> (r: Result<u64, String>)
    ensures
        settled(r, seconds_read(value@), |t: u64, v: nat| t == v),
{
    parse_bounded(
        value,
        u64::MAX,
        MAX_PROBE_SECONDS,
        "invalid --seconds value: ",
        "--seconds must be between 1 and 300",
    )
}

/// How long the application is to run.
pub open spec fn runtime_seconds_read(value: Seq<char>) -> Result<nat, Seq<char>> {
    bounded(
        value,
        u64::MAX as nat,
        MAX_RUNTIME_SECONDS as nat,
        "invalid --seconds value: "@,
        "runtime --seconds must be between 1 and 3600"@,
    )
}

/// How long the application is to run.
pub fn parse_runtime_seconds(value: &str) -> (r: Result<u64, String>)
    ensures
        settled(r, runtime_seconds_read(value@), |t: u64, v: nat| t == v),
{
    parse_bounded(
        value,
        u64::MAX,
        MAX_RUNTIME_SECONDS,
        "invalid --seconds value: ",
        "runtime --seconds must be between 1 and 3600",
    )
}

/// How many events the queue is to hold.
pub open spec fn capacity_read(value: Seq<char>) -> Result<nat, Seq<char>> {
    bounded(
        value,
        usize::MAX as nat,
        MAX_QUEUE_CAPACITY as nat,
        "invalid --queue-capacity value: "@,
        "--queue-capacity must be between 1 and 1048576"@,
    )
}

/// How many events the queue is to hold.
pub fn parse_queue_capacity(value: &str) -> (r: Result<usize, String>)
    ensures
        settled(r, capacity_read(value@), |t: usize, v: nat| t == v),
{
    match parse_bounded(
        value,
        usize::MAX as u64,
        MAX_QUEUE_CAPACITY,
        "invalid --queue-capacity value: ",
        "--queue-capacity must be between 1 and 1048576",
    ) {
        Ok(n) => Ok(n as usize),
        Err(reason) => Err(reason),
    }
}

/// A port to watch.
pub open spec fn port_read(value: Seq<char>) -> Result<nat, Seq<char>> {
    bounded(
        value,
        u16::MAX as nat,
        u16::MAX as nat,
        "invalid --port value: "@,
        "--port must be between 1 and 65535"@,
    )
}

/// A port to watch.
pub fn parse_port(value: &str) -> (r: Result<u16, String>)
    ensures
        settled(r, port_read(value@), |t: u16, v: nat| t == v),
{
    match parse_bounded(
        value,
        u16::MAX as u64,
        u16::MAX as u64,
        "invalid --port value: ",
        "--port must be between 1 and 65535",
    ) {
        Ok(n) => Ok(n as u16),
        Err(reason) => Err(reason),
    }
}

/// Every port of a list, or what is wrong with the first that cannot be read.
pub open spec fn each_port(parts: Seq<Seq<char>>) -> Result<Set<u16>, Seq<char>>
    decreases parts.len(),
{
    if parts.len() == 0 {
        Ok(Set::empty())
    } else {
        match each_port(parts.drop_last()) {
            Err(reason) => Err(reason),
            Ok(ports) => match port_read(parts.last()) {
                Err(reason) => Err(reason),
                Ok(port) => Ok(ports.insert(port as u16)),
            },
        }
    }
}

/// Ports to watch: at least two different ones between commas, in order.
pub open spec fn ports_read(value: Seq<char>) -> Result<Seq<u16>, Seq<char>> {
    match each_port(text::split(value, ',')) {
        Err(reason) => Err(reason),
        Ok(ports) => {
            let list = ordered::ordered_list::<u16>(ports);
            if list.len() < 2 {
                Err("--ports requires at least two distinct ports"@)
            } else {
                Ok(list)
            }
        },
    }
}

/// Ports to watch.
pub fn parse_ports(value: &str) -> (r: Result<Vec<u16>, String>)
    ensures
        settled(r, ports_read(value@), |t: Vec<u16>, v: Seq<u16>| t@ == v),
{
    let parts = text::split_at(value, ',');
    let ghost texts = text::texts(parts@);
    let mut found: SortedMap<u16, ()> = SortedMap::new();
    assert(texts.take(0) =~= Seq::<Seq<char>>::empty());
    assert(found@.dom() =~= Set::<u16>::empty());
    for i in 0..parts.len()
        invariant
            found.well_formed(),
            texts == text::texts(parts@),
            texts == text::split(value@, ','),
            each_port(texts.take(i as int)) == Ok::<Set<u16>, Seq<char>>(found@.dom()),
    {
        assert(texts.take(i + 1).drop_last() =~= texts.take(i as int));
        match parse_port(parts[i].as_str()) {
            Ok(port) => {
                let ghost before = found@.dom();
                found.insert(port, ());
                assert(found@.dom() =~= before.insert(port));
            },
            Err(reason) => {
                proof {
                    lemma_first_failure(texts, i + 1);
                }
                return Err(reason);
            },
        }
    }
    assert(texts.take(texts.len() as int) =~= texts);
    let entries = found.entries();
    proof {
        ordered::lemma_keys_in_order(entries@);
    }
    if entries.len() < 2 {
        return Err("--ports requires at least two distinct ports".to_owned());
    }
    let mut ports: Vec<u16> = Vec::new();
    for i in 0..entries.len()
        invariant
            ports@.len() == i,
            forall|j: int| 0 <= j < i ==> #[trigger] ports@[j] == entries@[j].0,
    {
        ports.push(entries[i].0);
    }
    assert(ports@ =~= ordered::keys_of(entries@));
    Ok(ports)
}

proof fn lemma_first_failure(parts: Seq<Seq<char>>, n: int)
    requires
        0 <= n <= parts.len(),
        each_port(parts.take(n)) is Err,
    ensures
        each_port(parts) == each_port(parts.take(n)),
    decreases parts.len() - n,
{
    if n < parts.len() {
        assert(parts.take(n + 1).drop_last() =~= parts.take(n));
        lemma_first_failure(parts, n + 1);
    } else {
        assert(parts.take(n) =~= parts);
    }
}

/// Ports that are accepted are at least two, none is zero, and each is larger than the one before.
pub proof fn law_ports_are_distinct_and_sorted(value: Seq<char>)
    requires
        ports_read(value) is Ok,
    ensures
        ports_read(value)->Ok_0.len() >= 2,
        forall|i: int, j: int|
            #![trigger ports_read(value)->Ok_0[i], ports_read(value)->Ok_0[j]]
            0 <= i < j < ports_read(value)->Ok_0.len() ==> ports_read(value)->Ok_0[i] < ports_read(
                value,
            )->Ok_0[j],
        forall|i: int|
            0 <= i < ports_read(value)->Ok_0.len() ==> (#[trigger] ports_read(value)->Ok_0[i]) > 0,
{
    let ports = each_port(text::split(value, ','))->Ok_0;
    lemma_ports_found(text::split(value, ','));
    ordered::lemma_order_exists::<u16>(ports);
    let list = ordered::ordered_list::<u16>(ports);
    assert(ordered::in_order::<u16>(list, ports));
}

proof fn lemma_ports_found(parts: Seq<Seq<char>>)
    requires
        each_port(parts) is Ok,
    ensures
        each_port(parts)->Ok_0.finite(),
        forall|port: u16| #[trigger] each_port(parts)->Ok_0.contains(port) ==> port > 0,
    decreases parts.len(),
{
    if parts.len() > 0 {
        lemma_ports_found(parts.drop_last());
    }
}

/// The session that a cleanup names.
pub open spec fn cleanup_session(arguments: Seq<Seq<char>>) -> Result<Seq<char>, Seq<char>> {
    if arguments.len() == 2 && arguments[0] == "--session"@ {
        Ok(arguments[1])
    } else {
        Err("usage: procnet-cli cleanup-etw --session <exact-session-name>"@)
    }
}

/// The session that a cleanup names.
pub fn parse_cleanup_session(arguments: &[String]) -> (r: Result<&str, String>)
    ensures
        settled(
            r,
            cleanup_session(text::texts(arguments@)),
            |t: &str, v: Seq<char>| t@ == v,
        ),
{
    if arguments.len() == 2 && stands_at(arguments, 0, "--session") {
        assert(text::texts(arguments@)[1] == arguments@[1]@);
        Ok(arguments[1].as_str())
    } else {
        Err("usage: procnet-cli cleanup-etw --session <exact-session-name>".to_owned())
    }
}

/// The form of an exported snapshot.
#[derive(Debug, Clone, Copy, PartialEq, Eq, Structural)]
pub enum ExportFormat {
    Json,
    Csv,
}

/// The form and the path of an export.
pub open spec fn export_options(arguments: Seq<Seq<char>>) -> Result<
    (ExportFormat, Seq<char>),
    Seq<char>,
> {
    if arguments.len() == 4 && arguments[0] == "--format"@ && arguments[2] == "--output"@ {
        if arguments[1] != "json"@ && arguments[1] != "csv"@ {
            Err("--format must be json or csv"@)
        } else if arguments[3].len() == 0 {
            Err("--output must not be empty"@)
        } else if arguments[1] == "json"@ {
            Ok((ExportFormat::Json, arguments[3]))
        } else {
            Ok((ExportFormat::Csv, arguments[3]))
        }
    } else {
        Err("usage: procnet-cli export-snapshot --format <json|csv> --output <path>"@)
    }
}

/// The form and the path of an export.
pub fn parse_export_options(arguments: &[String]) -> (r: Result<(ExportFormat, String), String>)
    ensures
        settled(
            r,
            export_options(text::texts(arguments@)),
            |t: (ExportFormat, String), v: (ExportFormat, Seq<char>)| t.0 == v.0 && t.1@ == v.1,
        ),
{
    if !(arguments.len() == 4 && stands_at(arguments, 0, "--format") && stands_at(
        arguments,
        2,
        "--output",
    )) {
        return Err("usage: procnet-cli export-snapshot --format <json|csv> --output <path>".to_owned());
    }
    let format = if stands_at(arguments, 1, "json") {
        ExportFormat::Json
    } else if stands_at(arguments, 1, "csv") {
        ExportFormat::Csv
    } else {
        return Err("--format must be json or csv".to_owned());
    };
    let ghost texts = text::texts(arguments@);
    assert(texts[3] == arguments@[3]@);
    let output = arguments[3].clone();
    if stands_at(arguments, 3, "") {
        proof {
            reveal_strlit("");
        }
        return Err("--output must not be empty".to_owned());
    }
    proof {
        reveal_strlit("");
        if texts[3].len() == 0 {
            assert(texts[3] =~= ""@);
        }
    }
    Ok((format, output))
}

/// How long to probe, which ports to watch, and whether to print less.
pub struct ProbeOptionsView {
    pub seconds: nat,
    pub ports: Seq<u16>,
    pub quiet: bool,
}

/// A number and a list, or what is wrong with the first of them that cannot be read.
pub open spec fn probe_with(
    seconds: Result<nat, Seq<char>>,
    ports: Result<Seq<u16>, Seq<char>>,
    quiet: bool,
) -> Result<ProbeOptionsView, Seq<char>> {
    match (seconds, ports) {
        (Err(reason), _) => Err(reason),
        (Ok(_), Err(reason)) => Err(reason),
        (Ok(seconds), Ok(ports)) => Ok(ProbeOptionsView { seconds, ports, quiet }),
    }
}

/// One port as a list.
pub open spec fn single_port(value: Seq<char>) -> Result<Seq<u16>, Seq<char>> {
    match port_read(value) {
        Ok(port) => Ok(seq![port as u16]),
        Err(reason) => Err(reason),
    }
}

/// The ports that a flag and its value name; no ports where the flag is not one of ports.
pub open spec fn ports_after(flag: Seq<char>, value: Seq<char>) -> Option<
    Result<Seq<u16>, Seq<char>>,
> {
    if flag == "--port"@ {
        Some(single_port(value))
    } else if flag == "--ports"@ {
        Some(ports_read(value))
    } else {
        None
    }
}

/// How a probe is to run.
pub open spec fn probe_options(arguments: Seq<Seq<char>>) -> Result<ProbeOptionsView, Seq<char>> {
    let n = arguments.len();
    let none = Ok::<Seq<u16>, Seq<char>>(Seq::empty());
    let usage = Err(
        "usage: procnet-cli v0-probe [--seconds 1..300] [--port N | --ports N,N] [--quiet]"@,
    );
    if n == 0 {
        Ok(ProbeOptionsView { seconds: DEFAULT_PROBE_SECONDS as nat, ports: Seq::empty(), quiet: false })
    } else if n == 1 || arguments[0] != "--seconds"@ {
        usage
    } else if n == 2 {
        probe_with(seconds_read(arguments[1]), none, false)
    } else if n == 3 && arguments[2] == "--quiet"@ {
        probe_with(seconds_read(arguments[1]), none, true)
    } else if n == 4 && ports_after(arguments[2], arguments[3]) is Some {
        probe_with(seconds_read(arguments[1]), ports_after(arguments[2], arguments[3])->0, false)
    } else if n == 5 && ports_after(arguments[2], arguments[3]) is Some && arguments[4]
        == "--quiet"@ {
        probe_with(seconds_read(arguments[1]), ports_after(arguments[2], arguments[3])->0, true)
    } else {
        usage
    }
}

/// The ports that the two arguments at a place name; none where they name no ports.
fn parse_ports_after(arguments: &[String], at: usize) -> (r: Option<Result<Vec<u16>, String>>)
    requires
        at + 1 < arguments.len(),
    ensures
        ({
            let texts = text::texts(arguments@);
            match (r, ports_after(texts[at as int], texts[at + 1])) {
                (None, None) => true,
                (Some(r), Some(expected)) => settled(
                    r,
                    expected,
                    |t: Vec<u16>, v: Seq<u16>| t@ == v,
                ),
                _ => false,
            }
        }),
{
    let value = arguments[at + 1].as_str();
    assert(text::texts(arguments@)[at + 1] == value@);
    if stands_at(arguments, at, "--port") {
        match parse_port(value) {
            Ok(port) => {
                let mut ports: Vec<u16> = Vec::new();
                ports.push(port);
                assert(ports@ =~= seq![port]);
                Some(Ok(ports))
            },
            Err(reason) => Some(Err(reason)),
        }
    } else if stands_at(arguments, at, "--ports") {
        proof {
            reveal_strlit("--port");
            reveal_strlit("--ports");
        }
        Some(parse_ports(value))
    } else {
        None
    }
}

fn probe_usage() -> (usage: String)
    ensures
        usage@ == "usage: procnet-cli v0-probe [--seconds 1..300] [--port N | --ports N,N] [--quiet]"@,
{
    "usage: procnet-cli v0-probe [--seconds 1..300] [--port N | --ports N,N] [--quiet]".to_owned()
}

/// How a probe is to run: how long, which ports to watch, whether to print less.
pub fn parse_probe_options(arguments: &[String]) -> (r: Result<(u64, Vec<u16>, bool), String>)
    ensures
        settled(
            r,
            probe_options(text::texts(arguments@)),
            |t: (u64, Vec<u16>, bool), v: ProbeOptionsView|
                t.0 == v.seconds && t.1@ == v.ports && t.2 == v.quiet,
        ),
{
    let n: usize = arguments.len();
    if n == 0 {
        return Ok((DEFAULT_PROBE_SECONDS, Vec::new(), false));
    }
    if n == 1 || !stands_at(arguments, 0, "--seconds") || n > 5 {
        return Err(probe_usage());
    }
    let quiet = n == 3 || n == 5;
    if quiet && !stands_at(arguments, n - 1, "--quiet") {
        return Err(probe_usage());
    }
    let ports = if n >= 4 {
        match parse_ports_after(arguments, 2) {
            Some(ports) => ports,
            None => {
                return Err(probe_usage());
            },
        }
    } else {
        Ok(Vec::new())
    };
    assert(text::texts(arguments@)[1] == arguments@[1]@);
    match (parse_seconds(arguments[1].as_str()), ports) {
        (Err(reason), _) => Err(reason),
        (Ok(_), Err(reason)) => Err(reason),
        (Ok(seconds), Ok(ports)) => Ok((seconds, ports, quiet)),
    }
}

/// How the application is to run.
#[derive(Debug, Clone, PartialEq, Eq)]
pub struct RuntimeOptions {
    pub seconds: u64,
    pub ports: Vec<u16>,
    pub queue_capacity: usize,
    pub allow_restricted: bool,
    pub export_json: Option<String>,
    pub export_csv: Option<String>,
}

/// How the application is to run, as a value.
#[verifier::ext_equal]
pub struct RuntimeOptionsView {
    pub seconds: nat,
    pub ports: Seq<u16>,
    pub queue_capacity: nat,
    pub allow_restricted: bool,
    pub export_json: Option<Seq<char>>,
    pub export_csv: Option<Seq<char>>,
}

impl View for RuntimeOptions {
    type V = RuntimeOptionsView;

    open spec fn view(&self) -> RuntimeOptionsView {
        RuntimeOptionsView {
            seconds: self.seconds as nat,
            ports: self.ports@,
            queue_capacity: self.queue_capacity as nat,
            allow_restricted: self.allow_restricted,
            export_json: text::optional(self.export_json),
            export_csv: text::optional(self.export_csv),
        }
    }
}

/// Options with what the arguments behind the fixed ones ask; each may be asked once.
pub open spec fn options_with(
    options: RuntimeOptionsView,
    tail: Seq<Seq<char>>,
) -> Option<RuntimeOptionsView>
    decreases tail.len(),
{
    if tail.len() == 0 {
        Some(options)
    } else if tail[0] == "--allow-restricted"@ && !options.allow_restricted {
        options_with(RuntimeOptionsView { allow_restricted: true, ..options }, tail.skip(1))
    } else if tail[0] == "--export-json"@ && options.export_json is None && tail.len() > 1 {
        options_with(RuntimeOptionsView { export_json: Some(tail[1]), ..options }, tail.skip(2))
    } else if tail[0] == "--export-csv"@ && options.export_csv is None && tail.len() > 1 {
        options_with(RuntimeOptionsView { export_csv: Some(tail[1]), ..options }, tail.skip(2))
    } else {
        None
    }
}

/// How the application is to run.
pub open spec fn runtime_options(arguments: Seq<Seq<char>>) -> Result<
    RuntimeOptionsView,
    Seq<char>,
> {
    let usage = Err(
        "usage: procnet-cli v1-runtime-probe --seconds 1..3600 [--port N | --ports N,N] --queue-capacity 1..1048576 [--allow-restricted] [--export-json PATH] [--export-csv PATH]"@,
    );
    if arguments.len() < 6 || arguments[0] != "--seconds"@ || ports_after(
        arguments[2],
        arguments[3],
    ) is None || arguments[4] != "--queue-capacity"@ {
        usage
    } else {
        match (
            runtime_seconds_read(arguments[1]),
            ports_after(arguments[2], arguments[3])->0,
            capacity_read(arguments[5]),
        ) {
            (Err(reason), _, _) => Err(reason),
            (Ok(_), Err(reason), _) => Err(reason),
            (Ok(_), Ok(_), Err(reason)) => Err(reason),
            (Ok(seconds), Ok(ports), Ok(queue_capacity)) => match options_with(
                RuntimeOptionsView {
                    seconds,
                    ports,
                    queue_capacity,
                    allow_restricted: false,
                    export_json: None,
                    export_csv: None,
                },
                arguments.skip(6),
            ) {
                Some(options) => Ok(options),
                None => usage,
            },
        }
    }
}

/// How the application is called.
pub fn runtime_usage() -> (usage: String)
    ensures
        usage@
            == "usage: procnet-cli v1-runtime-probe --seconds 1..3600 [--port N | --ports N,N] --queue-capacity 1..1048576 [--allow-restricted] [--export-json PATH] [--export-csv PATH]"@,
{
    "usage: procnet-cli v1-runtime-probe --seconds 1..3600 [--port N | --ports N,N] --queue-capacity 1..1048576 [--allow-restricted] [--export-json PATH] [--export-csv PATH]".to_owned()
}

/// How the application is to run.
pub fn parse_runtime_options(arguments: &[String]) -> (r: Result<RuntimeOptions, String>)
    ensures
        settled(
            r,
            runtime_options(text::texts(arguments@)),
            |t: RuntimeOptions, v: RuntimeOptionsView| t@ == v,
        ),
{
    let ghost texts = text::texts(arguments@);
    if arguments.len() < 6 || !stands_at(arguments, 0, "--seconds") || !stands_at(
        arguments,
        4,
        "--queue-capacity",
    ) {
        return Err(runtime_usage());
    }
    let ports = match parse_ports_after(arguments, 2) {
        Some(ports) => ports,
        None => {
            return Err(runtime_usage());
        },
    };
    assert(texts[1] == arguments@[1]@);
    assert(texts[5] == arguments@[5]@);
    let seconds: u64 = match parse_runtime_seconds(arguments[1].as_str()) {
        Ok(seconds) => seconds,
        Err(reason) => {
            return Err(reason);
        },
    };
    let ports = match ports {
        Ok(ports) => ports,
        Err(reason) => {
            return Err(reason);
        },
    };
    let queue_capacity: usize = match parse_queue_capacity(arguments[5].as_str()) {
        Ok(capacity) => capacity,
        Err(reason) => {
            return Err(reason);
        },
    };
    let mut options = RuntimeOptions {
        seconds,
        ports,
        queue_capacity,
        allow_restricted: false,
        export_json: None,
        export_csv: None,
    };
    let ghost first = options@;
    let mut at: usize = 6;
    while at < arguments.len()
        invariant
            6 <= at <= arguments@.len(),
            texts == text::texts(arguments@),
            options_with(first, texts.skip(6)) == options_with(options@, texts.skip(at as int)),
            runtime_options(texts) == (match options_with(first, texts.skip(6)) {
                Some(options) => Ok::<RuntimeOptionsView, Seq<char>>(options),
                None => Err(
                    "usage: procnet-cli v1-runtime-probe --seconds 1..3600 [--port N | --ports N,N] --queue-capacity 1..1048576 [--allow-restricted] [--export-json PATH] [--export-csv PATH]"@,
                ),
            }),
        decreases arguments@.len() - at,
    {
        let ghost tail = texts.skip(at as int);
        assert(tail[0] == texts[at as int]);
        if stands_at(arguments, at, "--allow-restricted") && !options.allow_restricted {
            options.allow_restricted = true;
            assert(tail.skip(1) =~= texts.skip(at + 1));
            at = at + 1;
        } else if stands_at(arguments, at, "--export-json") && options.export_json.is_none() && at + 1
            < arguments.len() {
            assert(tail[1] == arguments@[at + 1]@);
            proof {
                reveal_strlit("--allow-restricted");
                reveal_strlit("--export-json");
                assert("--export-json"@.len() != "--allow-restricted"@.len());
            }
            options.export_json = Some(arguments[at + 1].clone());
            assert(tail.skip(2) =~= texts.skip(at + 2));
            at = at + 2;
        } else if stands_at(arguments, at, "--export-csv") && options.export_csv.is_none() && at + 1
            < arguments.len() {
            assert(tail[1] == arguments@[at + 1]@);
            proof {
                reveal_strlit("--allow-restricted");
                reveal_strlit("--export-json");
                reveal_strlit("--export-csv");
                assert("--export-csv"@.len() != "--allow-restricted"@.len());
                assert("--export-csv"@.len() != "--export-json"@.len());
            }
            options.export_csv = Some(arguments[at + 1].clone());
            assert(tail.skip(2) =~= texts.skip(at + 2));
            at = at + 2;
        } else {
            return Err(runtime_usage());
        }
    }
    assert(texts.skip(arguments@.len() as int) =~= Seq::<Seq<char>>::empty());
    Ok(options)
}

proof fn lemma_tail_keeps_bounds(options: RuntimeOptionsView, tail: Seq<Seq<char>>)
    ensures
        match options_with(options, tail) {
            Some(changed) => changed.seconds == options.seconds && changed.ports == options.ports
                && changed.queue_capacity == options.queue_capacity,
            None => true,
        },
    decreases tail.len(),
{
    if tail.len() > 0 {
        lemma_tail_keeps_bounds(
            RuntimeOptionsView { allow_restricted: true, ..options },
            tail.skip(1),
        );
        if tail.len() > 1 {
            lemma_tail_keeps_bounds(
                RuntimeOptionsView { export_json: Some(tail[1]), ..options },
                tail.skip(2),
            );
            lemma_tail_keeps_bounds(
                RuntimeOptionsView { export_csv: Some(tail[1]), ..options },
                tail.skip(2),
            );
        }
    }
}

/// A run that is accepted lasts one second at least and an hour at most, and has a bounded queue.
pub proof fn law_accepted_run_is_bounded(arguments: Seq<Seq<char>>)
    ensures
        match runtime_options(arguments) {
            Ok(options) => 1 <= options.seconds <= MAX_RUNTIME_SECONDS && 1
                <= options.queue_capacity <= MAX_QUEUE_CAPACITY,
            Err(_) => true,
        },
{
    if runtime_options(arguments) is Ok {
        lemma_tail_keeps_bounds(
            RuntimeOptionsView {
                seconds: runtime_seconds_read(arguments[1])->Ok_0,
                ports: ports_after(arguments[2], arguments[3])->0->Ok_0,
                queue_capacity: capacity_read(arguments[5])->Ok_0,
                allow_restricted: false,
                export_json: None,
                export_csv: None,
            },
            arguments.skip(6),
        );
    }
}

/// A probe that is accepted lasts one second at least and five minutes at most.
pub proof fn law_accepted_probe_is_bounded(arguments: Seq<Seq<char>>)
    ensures
        match probe_options(arguments) {
            Ok(options) => 1 <= options.seconds <= MAX_PROBE_SECONDS,
            Err(_) => true,
        },
{
}

/// What is shown of a failed capture that the application goes on without.
pub open spec fn restriction_of(kind: EtwProbeErrorKind) -> Option<CaptureStatus> {
    match kind {
        EtwProbeErrorKind::AccessDenied => Some(
            CaptureStatus::Restricted(CaptureRestriction::PermissionRequired),
        ),
        EtwProbeErrorKind::SessionAlreadyExists => Some(
            CaptureStatus::Restricted(CaptureRestriction::SessionAlreadyExists),
        ),
        EtwProbeErrorKind::Other => None,
    }
}

/// How the application shows that it goes on without a capture; none where it cannot go on.
pub fn restricted_status(kind: EtwProbeErrorKind) -> (status: Option<CaptureStatus>)
    ensures
        status == restriction_of(kind),
{
    match kind {
        EtwProbeErrorKind::AccessDenied => Some(
            CaptureStatus::Restricted(CaptureRestriction::PermissionRequired),
        ),
        EtwProbeErrorKind::SessionAlreadyExists => Some(
            CaptureStatus::Restricted(CaptureRestriction::SessionAlreadyExists),
        ),
        EtwProbeErrorKind::Other => None,
    }
}

/// What the tool prints where it is asked for help.
pub fn help_text() -> (text: String)
    ensures
        text@ == crate::PROJECT_NAME@ + " CLI\n"@ + "Usage:\n"@
            + "  procnet-cli v0-probe [--seconds 1..300] [--port N | --ports N,N] [--quiet]\n"@
            + "  procnet-cli v1-runtime-probe --seconds 1..3600 [--port N | --ports N,N] --queue-capacity 1..1048576 [--allow-restricted] [--export-json PATH] [--export-csv PATH]\n"@
            + "  procnet-cli v0-ctrl-c-test\n"@
            + "  procnet-cli cleanup-etw --session ProcNetRecorder-V0-TcpIp-Probe\n"@
            + "  procnet-cli system-snapshot\n"@
            + "  procnet-cli export-snapshot --format <json|csv> --output <path>\n"@,
{
    let mut text = crate::PROJECT_NAME.to_owned();
    text.append(" CLI\n");
    text.append("Usage:\n");
    text.append(
        "  procnet-cli v0-probe [--seconds 1..300] [--port N | --ports N,N] [--quiet]\n",
    );
    text.append(
        "  procnet-cli v1-runtime-probe --seconds 1..3600 [--port N | --ports N,N] --queue-capacity 1..1048576 [--allow-restricted] [--export-json PATH] [--export-csv PATH]\n",
    );
    text.append("  procnet-cli v0-ctrl-c-test\n");
    text.append("  procnet-cli cleanup-etw --session ProcNetRecorder-V0-TcpIp-Probe\n");
    text.append("  procnet-cli system-snapshot\n");
    text.append("  procnet-cli export-snapshot --format <json|csv> --output <path>\n");
    text
}

/// The line that announces a probe.
pub fn probe_start_line(seconds: u64) -> (text: String)
    ensures
        text@ == "[INFO] starting ETW TCP/IP probe for "@ + text::decimal(seconds as nat)
            + "s; this may require administrator privileges"@,
{
    let mut text = "[INFO] starting ETW TCP/IP probe for ".to_owned();
    text::put_number(&mut text, seconds);
    text.append("s; this may require administrator privileges");
    text
}

/// Numbers as texts.
pub open spec fn numerals(ports: Seq<u16>) -> Seq<Seq<char>> {
    ports.map_values(|port: u16| text::decimal(port as nat))
}

/// The line that announces a run of the application.
pub fn runtime_start_line(options: &RuntimeOptions) -> (text: String)
    ensures
        text@ == "[INFO] starting V1 bounded runtime probe for "@ + text::decimal(
            options.seconds as nat,
        ) + "s on fixture ports "@ + text::joined(numerals(options.ports@), ","@)
            + "; queue_capacity="@ + text::decimal(options.queue_capacity as nat),
{
    let mut labels: Vec<String> = Vec::new();
    for i in 0..options.ports.len()
        invariant
            labels@.len() == i,
            forall|j: int|
                0 <= j < i ==> (#[trigger] labels@[j])@ == text::decimal(options.ports@[j] as nat),
    {
        labels.push(text::decimal_text(options.ports[i] as u64));
    }
    assert(text::texts(labels@) =~= numerals(options.ports@));
    let mut text = "[INFO] starting V1 bounded runtime probe for ".to_owned();
    text::put_number(&mut text, options.seconds);
    text.append("s on fixture ports ");
    text.append(text::join(labels.as_slice(), ",").as_str());
    text.append("; queue_capacity=");
    text::put_number(&mut text, options.queue_capacity as u64);
    text
}

/// What numbers are accepted: 1 to 300 seconds for a probe, 1 to 3600 for a run, 1 to 1048576 events
/// waiting, ports from 1 to 65535. A numeral of such a number is read as it; any other number is
/// refused.
pub proof fn law_numbers_are_accepted_in_their_bounds(n: u64)
    ensures
        1 <= n <= 300 ==> seconds_read(text::decimal(n as nat)) == Ok::<nat, Seq<char>>(n as nat),
        n == 0 || n > 300 ==> seconds_read(text::decimal(n as nat)) is Err,
        1 <= n <= 3600 ==> runtime_seconds_read(text::decimal(n as nat)) == Ok::<nat, Seq<char>>(
            n as nat,
        ),
        n == 0 || n > 3600 ==> runtime_seconds_read(text::decimal(n as nat)) is Err,
        n <= u32::MAX && 1 <= n <= 1_048_576 ==> capacity_read(text::decimal(n as nat)) == Ok::<
            nat,
            Seq<char>,
        >(n as nat),
        n <= u32::MAX && (n == 0 || n > 1_048_576) ==> capacity_read(text::decimal(n as nat)) is Err,
        1 <= n <= 65_535 ==> port_read(text::decimal(n as nat)) == Ok::<nat, Seq<char>>(n as nat),
        n == 0 ==> port_read(text::decimal(n as nat)) is Err,
{
    text::law_numeral_is_read_back(n as nat, u64::MAX as nat);
    if n <= u32::MAX {
        text::law_numeral_is_read_back(n as nat, usize::MAX as nat);
    }
    if n <= 65_535 {
        text::law_numeral_is_read_back(n as nat, u16::MAX as nat);
    }
}

/// The words of commands.
pub proof fn law_words_of_commands()
    ensures
        command_of(None) == Ok::<CliCommand, Seq<char>>(CliCommand::Help),
        command_of(Some("v0-probe"@)) == Ok::<CliCommand, Seq<char>>(CliCommand::V0Probe),
        command_of(Some("v1-runtime-probe"@)) == Ok::<CliCommand, Seq<char>>(
            CliCommand::V1RuntimeProbe,
        ),
        command_of(Some("cleanup-etw"@)) == Ok::<CliCommand, Seq<char>>(CliCommand::CleanupEtw),
        command_of(Some("system-snapshot"@)) == Ok::<CliCommand, Seq<char>>(
            CliCommand::SystemSnapshot,
        ),
        command_of(Some("export-snapshot"@)) == Ok::<CliCommand, Seq<char>>(
            CliCommand::ExportSnapshot,
        ),
        command_of(Some("v0-ctrl-c-test"@)) == Ok::<CliCommand, Seq<char>>(CliCommand::V0CtrlCTest),
        command_of(Some("--help"@)) == Ok::<CliCommand, Seq<char>>(CliCommand::Help),
        command_of(Some("-h"@)) == Ok::<CliCommand, Seq<char>>(CliCommand::Help),
{
    reveal_strlit("v0-probe");
    reveal_strlit("v1-runtime-probe");
    reveal_strlit("cleanup-etw");
    reveal_strlit("system-snapshot");
    reveal_strlit("export-snapshot");
    reveal_strlit("v0-ctrl-c-test");
    reveal_strlit("--help");
    reveal_strlit("-h");
    assert("v0-probe"@.len() == 8);
    assert("v1-runtime-probe"@.len() == 16);
    assert("cleanup-etw"@.len() == 11);
    assert("system-snapshot"@[0] == 's');
    assert("export-snapshot"@[0] == 'e');
    assert("v0-ctrl-c-test"@.len() == 14);
    assert("--help"@.len() == 6);
    assert("-h"@.len() == 2);
}

/// The numbers that a failed command ends with.
pub proof fn law_numbers_of_failures()
    ensures
        exit_code_of(EtwProbeErrorKind::AccessDenied) == 5,
        exit_code_of(EtwProbeErrorKind::SessionAlreadyExists) == 183,
        exit_code_of(EtwProbeErrorKind::Other) == 1,
        restriction_of(EtwProbeErrorKind::AccessDenied) == Some(
            CaptureStatus::Restricted(CaptureRestriction::PermissionRequired),
        ),
        restriction_of(EtwProbeErrorKind::SessionAlreadyExists) == Some(
            CaptureStatus::Restricted(CaptureRestriction::SessionAlreadyExists),
        ),
        restriction_of(EtwProbeErrorKind::Other) is None,
{
}

/// A probe without options lasts five seconds, watches no port and is not quiet.
pub proof fn law_usual_probe()
    ensures
        probe_options(Seq::empty()) == Ok::<ProbeOptionsView, Seq<char>>(
            ProbeOptionsView { seconds: 5, ports: Seq::empty(), quiet: false },
        ),
{
}

} // verus!
