//! Traffic of known content between two local processes: the command line and the content.
use crate::address;
use crate::address::{IpAddr, SocketAddr};
use crate::options;
use crate::text;
use vstd::prelude::*;

verus! {

/// The most bytes that a client sends.
pub const MAX_FIXTURE_BYTES: u64 = 1_073_741_824;

/// What the fixture is asked to be.
#[derive(Debug, PartialEq, Eq)]
pub enum Command {
    TcpServer { bind: String },
    TcpClient { target: String, bytes: u64 },
    UdpServer { bind: String },
    UdpClient { target: String, bytes: u64 },
}

/// What the fixture is asked to be, as a value.
pub enum CommandView {
    TcpServer { bind: Seq<char> },
    TcpClient { target: Seq<char>, bytes: nat },
    UdpServer { bind: Seq<char> },
    UdpClient { target: Seq<char>, bytes: nat },
}

impl View for Command {
    type V = CommandView;

    open spec fn view(&self) -> CommandView {
        match self {
            Command::TcpServer { bind } => CommandView::TcpServer { bind: bind@ },
            Command::TcpClient { target, bytes } => CommandView::TcpClient {
                target: target@,
                bytes: *bytes as nat,
            },
            Command::UdpServer { bind } => CommandView::UdpServer { bind: bind@ },
            Command::UdpClient { target, bytes } => CommandView::UdpClient {
                target: target@,
                bytes: *bytes as nat,
            },
        }
    }
}

/// How many bytes a client is to send.
pub open spec fn bytes_read(value: Seq<char>) -> Result<nat, Seq<char>> {
    options::bounded(
        value,
        u64::MAX as nat,
        MAX_FIXTURE_BYTES as nat,
        "invalid --bytes value: "@,
        "--bytes must be between 1 and 1073741824"@,
    )
}

/// How many bytes a client is to send.
pub fn parse_bytes(value: &str) -> (r: Result<u64, String>)
    ensures
        options::settled(r, bytes_read(value@), |t: u64, v: nat| t == v),
{
    options::parse_bounded(
        value,
        u64::MAX,
        MAX_FIXTURE_BYTES,
        "invalid --bytes value: ",
        "--bytes must be between 1 and 1073741824",
    )
}

/// What arguments ask the fixture to be.
pub open spec fn command_read(arguments: Seq<Seq<char>>) -> Result<CommandView, Seq<char>> {
    let server = arguments.len() == 3 && arguments[1] == "--bind"@;
    let client = arguments.len() == 5 && arguments[1] == "--target"@ && arguments[3] == "--bytes"@;
    if server && arguments[0] == "tcp-server"@ {
        Ok(CommandView::TcpServer { bind: arguments[2] })
    } else if client && arguments[0] == "tcp-client"@ {
        match bytes_read(arguments[4]) {
            Ok(bytes) => Ok(CommandView::TcpClient { target: arguments[2], bytes }),
            Err(reason) => Err(reason),
        }
    } else if server && arguments[0] == "udp-server"@ {
        Ok(CommandView::UdpServer { bind: arguments[2] })
    } else if client && arguments[0] == "udp-client"@ {
        match bytes_read(arguments[4]) {
            Ok(bytes) => Ok(CommandView::UdpClient { target: arguments[2], bytes }),
            Err(reason) => Err(reason),
        }
    } else {
        Err(
            "usage: procnet-fixture <tcp-server|udp-server> --bind <IP-socket-address> | <tcp-client|udp-client> --target <IP-socket-address> --bytes <1..1073741824>"@,
        )
    }
}

fn usage() -> (text: String)
    ensures
        text@
            == "usage: procnet-fixture <tcp-server|udp-server> --bind <IP-socket-address> | <tcp-client|udp-client> --target <IP-socket-address> --bytes <1..1073741824>"@,
{
    "usage: procnet-fixture <tcp-server|udp-server> --bind <IP-socket-address> | <tcp-client|udp-client> --target <IP-socket-address> --bytes <1..1073741824>".to_owned()
}

/// What arguments ask the fixture to be.
pub fn parse_command(arguments: &[String]) -> (r: Result<Command, String>)
    ensures
        options::settled(
            r,
            command_read(text::texts(arguments@)),
            |t: Command, v: CommandView| t@ == v,
        ),
{
    let ghost texts = text::texts(arguments@);
    let n: usize = arguments.len();
    if n == 3 && options::stands_at(arguments, 1, "--bind") {
        assert(texts[2] == arguments@[2]@);
        let bind = arguments[2].clone();
        if options::stands_at(arguments, 0, "tcp-server") {
            Ok(Command::TcpServer { bind })
        } else if options::stands_at(arguments, 0, "udp-server") {
            Ok(Command::UdpServer { bind })
        } else {
            Err(usage())
        }
    } else if n == 5 && options::stands_at(arguments, 1, "--target") && options::stands_at(
        arguments,
        3,
        "--bytes",
    ) {
        assert(texts[2] == arguments@[2]@);
        assert(texts[4] == arguments@[4]@);
        let tcp = options::stands_at(arguments, 0, "tcp-client");
        if !tcp && !options::stands_at(arguments, 0, "udp-client") {
            return Err(usage());
        }
        let target = arguments[2].clone();
        match parse_bytes(arguments[4].as_str()) {
            Err(reason) => Err(reason),
            Ok(bytes) => if tcp {
                Ok(Command::TcpClient { target, bytes })
            } else {
                Ok(Command::UdpClient { target, bytes })
            },
        }
    } else {
        Err(usage())
    }
}

/// What the bytes of a stream are made from: the byte at a place is the place times a factor plus a
/// term, in sixty-four bits, reduced to less than 251.
#[derive(Debug, Clone, Copy, PartialEq, Eq, Structural)]
pub struct Pattern {
    pub factor: u64,
    pub term: u64,
}

/// One more than the largest number of sixty-four bits.
pub const WORD: u128 = 0x1_0000_0000_0000_0000;

/// The byte at a place of a stream.
pub open spec fn byte_at(pattern: Pattern, position: int) -> u8 {
    ((position * pattern.factor + pattern.term) % (WORD as int) % 251) as u8
}

/// The bytes of a stretch of a stream.
pub open spec fn stretch(pattern: Pattern, offset: int, length: nat) -> Seq<u8> {
    Seq::new(length, |i: int| byte_at(pattern, offset + i))
}

/// Whether a buffer first differs from the stream at a place.
pub open spec fn first_wrong(buffer: Seq<u8>, pattern: Pattern, offset: int, at: int) -> bool {
    &&& 0 <= at < buffer.len()
    &&& buffer[at] != byte_at(pattern, offset + at)
    &&& forall|j: int| 0 <= j < at ==> (#[trigger] buffer[j]) == byte_at(pattern, offset + j)
}

impl Pattern {
    /// The byte at a place of the stream.
    pub fn byte(&self, position: u64) -> (byte: u8)
        ensures
            byte == byte_at(*self, position as int),
    {
        proof {
            assert(position * self.factor <= u64::MAX * u64::MAX) by (nonlinear_arith)
                requires
                    position <= u64::MAX,
                    self.factor <= u64::MAX,
            ;
            assert(0 <= position * self.factor) by (nonlinear_arith);
        }
        let product: u128 = position as u128 * self.factor as u128;
        let reduced: u128 = (product % WORD + self.term as u128) % WORD;
        proof {
            vstd::arithmetic::div_mod::lemma_small_mod(self.term as nat, WORD as nat);
            vstd::arithmetic::div_mod::lemma_add_mod_noop(
                product as int,
                self.term as int,
                WORD as int,
            );
        }
        (reduced % 251) as u8
    }

    /// Fills a buffer with the stream from an offset on.
    pub fn fill(&self, buffer: &mut [u8], offset: u64)
        requires
            offset + old(buffer)@.len() <= WORD,
        ensures
            final(buffer)@ == stretch(*self, offset as int, old(buffer)@.len()),
    {
        let n: usize = buffer.len();
        let mut i: usize = 0;
        while i < n
            invariant
                i <= n,
                buffer@.len() == n,
                offset + n <= WORD,
                forall|j: int|
                    0 <= j < i ==> (#[trigger] buffer@[j]) == byte_at(*self, offset + j),
            decreases n - i,
        {
            let byte: u8 = self.byte(offset + i as u64);
            buffer[i] = byte;
            i += 1;
        }
        assert(buffer@ =~= stretch(*self, offset as int, n as nat));
    }

    /// The first place where a buffer is not the stream from an offset on.
    pub fn find_wrong(&self, buffer: &[u8], offset: u64) -> (at: Option<usize>)
        requires
            offset + buffer@.len() <= WORD,
        ensures
            match at {
                Some(at) => first_wrong(buffer@, *self, offset as int, at as int),
                None => buffer@ == stretch(*self, offset as int, buffer@.len()),
            },
    {
        let n: usize = buffer.len();
        for i in 0..n
            invariant
                n == buffer@.len(),
                offset + n <= WORD,
                forall|j: int|
                    0 <= j < i ==> (#[trigger] buffer@[j]) == byte_at(*self, offset + j),
        {
            if buffer[i] != self.byte(offset + i as u64) {
                return Some(i);
            }
        }
        assert(buffer@ =~= stretch(*self, offset as int, n as nat));
        None
    }
}

/// A stream is the same however it is cut.
pub proof fn law_stream_does_not_depend_on_cuts(pattern: Pattern, offset: int, first: nat, rest: nat)
    ensures
        stretch(pattern, offset, first + rest) == stretch(pattern, offset, first) + stretch(
            pattern,
            offset + first,
            rest,
        ),
{
    assert(stretch(pattern, offset, first + rest) =~= stretch(pattern, offset, first) + stretch(
        pattern,
        offset + first,
        rest,
    ));
}

/// A byte that was changed is found, and so is no byte where none was changed.
pub proof fn law_corruption_is_found(pattern: Pattern, offset: int, buffer: Seq<u8>, at: int)
    ensures
        0 <= at < buffer.len() && buffer[at] != byte_at(pattern, offset + at) ==> buffer != stretch(
            pattern,
            offset,
            buffer.len(),
        ),
        first_wrong(buffer, pattern, offset, at) ==> buffer != stretch(
            pattern,
            offset,
            buffer.len(),
        ),
{
    if 0 <= at < buffer.len() && buffer[at] != byte_at(pattern, offset + at) {
        assert(buffer[at] != stretch(pattern, offset, buffer.len())[at]);
    }
}

/// How many bytes are moved next: what is left, but no more than fits.
pub fn next_length(planned: u64, done: u64, room: usize) -> (length: usize)
    requires
        done <= planned,
    ensures
        length == (if planned - done < room {
            planned - done
        } else {
            room as int
        }),
{
    if planned - done < room as u64 {
        (planned - done) as usize
    } else {
        room
    }
}

/// The word for the address family of a test: its digit.
pub open spec fn family_digit(ip: IpAddr) -> Seq<char> {
    match ip {
        IpAddr::V4(_) => "4"@,
        IpAddr::V6(_) => "6"@,
    }
}

fn digit_of(ip: &IpAddr) -> (text: &'static str)
    ensures
        text@ == family_digit(*ip),
{
    match ip {
        IpAddr::V4(_) => "4",
        IpAddr::V6(_) => "6",
    }
}

/// The name of a test between two endpoints.
pub open spec fn test_name(
    protocol: Seq<char>,
    client: SocketAddr,
    server: SocketAddr,
) -> Seq<char> {
    protocol + family_digit(client.ip) + "-"@ + address::socket_text(client) + "-"@
        + address::socket_text(server)
}

/// The name of a test between two endpoints.
pub fn name_test(protocol: &str, client: SocketAddr, server: SocketAddr) -> (text: String)
    ensures
        text@ == test_name(protocol@, client, server),
{
    let mut text = protocol.to_owned();
    text.append(digit_of(&client.ip));
    text.append("-");
    text.append(client.text().as_str());
    text.append("-");
    text.append(server.text().as_str());
    text
}

/// A number as text.
pub fn wide_text(n: u128) -> (text: String)
    ensures
        text@ == text::decimal(n as nat),
{
    let mut text = String::new();
    text::put_wide_number(&mut text, n);
    text
}

/// A run of the fixture: its process, its two ends and its times.
#[derive(Debug, Clone, Copy, PartialEq, Eq, Structural)]
pub struct FixtureRun {
    pub pid: u32,
    pub local: SocketAddr,
    pub peer: SocketAddr,
    pub started_unix_ms: u128,
    pub ended_unix_ms: u128,
}

/// The line of a TCP server that is ready.
pub open spec fn tcp_ready_text(pid: u32, bind: SocketAddr, started_unix_ms: u128) -> Seq<char> {
    "FIXTURE_TCP_SERVER_READY pid="@ + text::decimal(pid as nat) + " bind="@
        + address::socket_text(bind) + " started_unix_ms="@
        + text::decimal(started_unix_ms as nat)
}

/// The line of a TCP server that is ready.
pub fn tcp_ready_line(pid: u32, bind: SocketAddr, started_unix_ms: u128) -> (text: String)
    ensures
        text@ == tcp_ready_text(pid, bind, started_unix_ms),
{
    let mut text = "FIXTURE_TCP_SERVER_READY pid=".to_owned();
    text::put_number(&mut text, pid as u64);
    text.append(" bind=");
    text.append(bind.text().as_str());
    text.append(" started_unix_ms=");
    text.append(wide_text(started_unix_ms).as_str());
    text
}

/// The line of a TCP server that is done.
pub open spec fn tcp_server_text(
    run: FixtureRun,
    bytes_received: u64,
    bytes_sent: u64,
) -> Seq<char> {
    "FIXTURE_TCP_SERVER_RESULT test_id="@ + test_name("tcp"@, run.peer, run.local) + " pid="@
        + text::decimal(run.pid as nat) + " local="@ + address::socket_text(run.local) + " peer="@
        + address::socket_text(run.peer) + " bytes_received="@
        + text::decimal(bytes_received as nat) + " bytes_sent="@
        + text::decimal(bytes_sent as nat) + " started_unix_ms="@
        + text::decimal(run.started_unix_ms as nat) + " ended_unix_ms="@
        + text::decimal(run.ended_unix_ms as nat)
}

/// The line of a TCP server that is done.
pub fn tcp_server_line(run: &FixtureRun, bytes_received: u64, bytes_sent: u64) -> (text: String)
    ensures
        text@ == tcp_server_text(*run, bytes_received, bytes_sent),
{
    let mut text = "FIXTURE_TCP_SERVER_RESULT test_id=".to_owned();
    text.append(name_test("tcp", run.peer, run.local).as_str());
    text.append(" pid=");
    text::put_number(&mut text, run.pid as u64);
    text.append(" local=");
    text.append(run.local.text().as_str());
    text.append(" peer=");
    text.append(run.peer.text().as_str());
    text.append(" bytes_received=");
    text::put_number(&mut text, bytes_received as u64);
    text.append(" bytes_sent=");
    text::put_number(&mut text, bytes_sent as u64);
    text.append(" started_unix_ms=");
    text.append(wide_text(run.started_unix_ms).as_str());
    text.append(" ended_unix_ms=");
    text.append(wide_text(run.ended_unix_ms).as_str());
    text
}

/// The line of a TCP client that is done.
pub open spec fn tcp_client_text(
    run: FixtureRun,
    planned_bytes: u64,
    bytes_sent: u64,
    bytes_received: u64,
) -> Seq<char> {
    "FIXTURE_TCP_CLIENT_RESULT test_id="@ + test_name("tcp"@, run.local, run.peer) + " pid="@
        + text::decimal(run.pid as nat) + " local="@ + address::socket_text(run.local) + " peer="@
        + address::socket_text(run.peer) + " planned_bytes="@
        + text::decimal(planned_bytes as nat) + " bytes_sent="@ + text::decimal(bytes_sent as nat)
        + " bytes_received="@ + text::decimal(bytes_received as nat) + " verified="@ + "true"@
        + " started_unix_ms="@ + text::decimal(run.started_unix_ms as nat) + " ended_unix_ms="@
        + text::decimal(run.ended_unix_ms as nat)
}

/// The line of a TCP client that is done.
pub fn tcp_client_line(
    run: &FixtureRun,
    planned_bytes: u64,
    bytes_sent: u64,
    bytes_received: u64,
) -> (text: String)
    ensures
        text@ == tcp_client_text(*run, planned_bytes, bytes_sent, bytes_received),
{
    let mut text = "FIXTURE_TCP_CLIENT_RESULT test_id=".to_owned();
    text.append(name_test("tcp", run.local, run.peer).as_str());
    text.append(" pid=");
    text::put_number(&mut text, run.pid as u64);
    text.append(" local=");
    text.append(run.local.text().as_str());
    text.append(" peer=");
    text.append(run.peer.text().as_str());
    text.append(" planned_bytes=");
    text::put_number(&mut text, planned_bytes as u64);
    text.append(" bytes_sent=");
    text::put_number(&mut text, bytes_sent as u64);
    text.append(" bytes_received=");
    text::put_number(&mut text, bytes_received as u64);
    text.append(" verified=");
    text.append("true");
    text.append(" started_unix_ms=");
    text.append(wide_text(run.started_unix_ms).as_str());
    text.append(" ended_unix_ms=");
    text.append(wide_text(run.ended_unix_ms).as_str());
    text
}

/// The line of a UDP server that is ready.
pub open spec fn udp_ready_text(pid: u32, bind: SocketAddr, started_unix_ms: u128) -> Seq<char> {
    "FIXTURE_UDP_SERVER_READY pid="@ + text::decimal(pid as nat) + " bind="@
        + address::socket_text(bind) + " started_unix_ms="@
        + text::decimal(started_unix_ms as nat)
}

/// The line of a UDP server that is ready.
pub fn udp_ready_line(pid: u32, bind: SocketAddr, started_unix_ms: u128) -> (text: String)
    ensures
        text@ == udp_ready_text(pid, bind, started_unix_ms),
{
    let mut text = "FIXTURE_UDP_SERVER_READY pid=".to_owned();
    text::put_number(&mut text, pid as u64);
    text.append(" bind=");
    text.append(bind.text().as_str());
    text.append(" started_unix_ms=");
    text.append(wide_text(started_unix_ms).as_str());
    text
}

/// The line of a UDP server that is done.
pub open spec fn udp_server_text(
    run: FixtureRun,
    datagrams: u64,
    bytes_received: u64,
    bytes_sent: u64,
) -> Seq<char> {
    "FIXTURE_UDP_SERVER_RESULT test_id="@ + test_name("udp"@, run.peer, run.local) + " pid="@
        + text::decimal(run.pid as nat) + " local="@ + address::socket_text(run.local) + " peer="@
        + address::socket_text(run.peer) + " datagrams="@ + text::decimal(datagrams as nat)
        + " bytes_received="@ + text::decimal(bytes_received as nat) + " bytes_sent="@
        + text::decimal(bytes_sent as nat) + " started_unix_ms="@
        + text::decimal(run.started_unix_ms as nat) + " ended_unix_ms="@
        + text::decimal(run.ended_unix_ms as nat)
}

/// The line of a UDP server that is done.
pub fn udp_server_line(
    run: &FixtureRun,
    datagrams: u64,
    bytes_received: u64,
    bytes_sent: u64,
) -> (text: String)
    ensures
        text@ == udp_server_text(*run, datagrams, bytes_received, bytes_sent),
{
    let mut text = "FIXTURE_UDP_SERVER_RESULT test_id=".to_owned();
    text.append(name_test("udp", run.peer, run.local).as_str());
    text.append(" pid=");
    text::put_number(&mut text, run.pid as u64);
    text.append(" local=");
    text.append(run.local.text().as_str());
    text.append(" peer=");
    text.append(run.peer.text().as_str());
    text.append(" datagrams=");
    text::put_number(&mut text, datagrams as u64);
    text.append(" bytes_received=");
    text::put_number(&mut text, bytes_received as u64);
    text.append(" bytes_sent=");
    text::put_number(&mut text, bytes_sent as u64);
    text.append(" started_unix_ms=");
    text.append(wide_text(run.started_unix_ms).as_str());
    text.append(" ended_unix_ms=");
    text.append(wide_text(run.ended_unix_ms).as_str());
    text
}

/// The line of a UDP client that is done.
pub open spec fn udp_client_text(
    run: FixtureRun,
    planned_bytes: u64,
    datagrams: u64,
    bytes_sent: u64,
    bytes_received: u64,
) -> Seq<char> {
    "FIXTURE_UDP_CLIENT_RESULT test_id="@ + test_name("udp"@, run.local, run.peer) + " pid="@
        + text::decimal(run.pid as nat) + " local="@ + address::socket_text(run.local) + " peer="@
        + address::socket_text(run.peer) + " planned_bytes="@
        + text::decimal(planned_bytes as nat) + " datagrams="@ + text::decimal(datagrams as nat)
        + " bytes_sent="@ + text::decimal(bytes_sent as nat) + " bytes_received="@
        + text::decimal(bytes_received as nat) + " verified="@ + "true"@ + " started_unix_ms="@
        + text::decimal(run.started_unix_ms as nat) + " ended_unix_ms="@
        + text::decimal(run.ended_unix_ms as nat)
}

/// The line of a UDP client that is done.
pub fn udp_client_line(
    run: &FixtureRun,
    planned_bytes: u64,
    datagrams: u64,
    bytes_sent: u64,
    bytes_received: u64,
) -> (text: String)
    ensures
        text@ == udp_client_text(*run, planned_bytes, datagrams, bytes_sent, bytes_received),
{
    let mut text = "FIXTURE_UDP_CLIENT_RESULT test_id=".to_owned();
    text.append(name_test("udp", run.local, run.peer).as_str());
    text.append(" pid=");
    text::put_number(&mut text, run.pid as u64);
    text.append(" local=");
    text.append(run.local.text().as_str());
    text.append(" peer=");
    text.append(run.peer.text().as_str());
    text.append(" planned_bytes=");
    text::put_number(&mut text, planned_bytes as u64);
    text.append(" datagrams=");
    text::put_number(&mut text, datagrams as u64);
    text.append(" bytes_sent=");
    text::put_number(&mut text, bytes_sent as u64);
    text.append(" bytes_received=");
    text::put_number(&mut text, bytes_received as u64);
    text.append(" verified=");
    text.append("true");
    text.append(" started_unix_ms=");
    text.append(wide_text(run.started_unix_ms).as_str());
    text.append(" ended_unix_ms=");
    text.append(wide_text(run.ended_unix_ms).as_str());
    text
}

/// A fixture sends from one byte to a gibibyte.
pub proof fn law_bytes_are_accepted_in_their_bounds(n: u64)
    ensures
        1 <= n <= 1024 * 1024 * 1024 ==> bytes_read(text::decimal(n as nat)) == Ok::<nat, Seq<char>>(
            n as nat,
        ),
        n == 0 || n > 1024 * 1024 * 1024 ==> bytes_read(text::decimal(n as nat)) is Err,
{
    text::law_numeral_is_read_back(n as nat, u64::MAX as nat);
}

/// The byte of a position, while its product and sum fit a word, is what they leave when 251 divides
/// them.
pub proof fn law_bytes_of_a_pattern(pattern: Pattern, position: u64)
    requires
        position * pattern.factor + pattern.term < 0x1_0000_0000_0000_0000,
        position * pattern.factor + pattern.term >= 0,
    ensures
        byte_at(pattern, position as int) == (position * pattern.factor + pattern.term) % 251,
{
    vstd::arithmetic::div_mod::lemma_small_mod(
        (position * pattern.factor + pattern.term) as nat,
        0x1_0000_0000_0000_0000,
    );
}

} // verus!
