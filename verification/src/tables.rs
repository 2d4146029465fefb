//! Reading the system's tables: how large they are, where their rows stand, what a row says.
use crate::address;
use crate::address::{IpAddr, SocketAddr};
use crate::etw;
use crate::ordered;
use crate::system::{NativeConnection, NativeProcess, NativeProtocol};
use crate::text;
use vstd::prelude::*;

verus! {

/// Hundreds of nanoseconds from the start of the system's calendar to the start of Unix time.
pub const FILETIME_UNIX_EPOCH_TICKS: u64 = 116_444_736_000_000_000;

/// A time of the system's calendar, given in two halves, in nanoseconds of Unix time.
pub open spec fn unix_nanos_of(high: u32, low: u32) -> u64 {
    let ticks = high * 0x1_0000_0000 + low;
    let nanos = (ticks - FILETIME_UNIX_EPOCH_TICKS) * 100;
    if nanos < 0 {
        0
    } else if nanos > u64::MAX {
        u64::MAX
    } else {
        nanos as u64
    }
}

/// A time of the system's calendar in nanoseconds of Unix time; a time before it starts is zero.
pub fn filetime_to_unix_nanos(high: u32, low: u32) -> (nanos: u64)
    ensures
        nanos == unix_nanos_of(high, low),
{
    let ticks: u64 = high as u64 * 0x1_0000_0000 + low as u64;
    let since: u64 = ticks.saturating_sub(FILETIME_UNIX_EPOCH_TICKS);
    if since > u64::MAX / 100 {
        u64::MAX
    } else {
        since * 100
    }
}

/// A later time is never given as an earlier one.
pub proof fn law_calendar_keeps_order(high: u32, low: u32, later_high: u32, later_low: u32)
    requires
        high * 0x1_0000_0000 + low <= later_high * 0x1_0000_0000 + later_low,
    ensures
        unix_nanos_of(high, low) <= unix_nanos_of(later_high, later_low),
{
}

/// The port in the low half of a table's field.
pub open spec fn port_of(raw: u32) -> u16 {
    etw::swapped((raw % 0x1_0000) as u16)
}

/// The port in the low half of a table's field, whose bytes stand most significant first.
pub fn port(raw: u32) -> (port: u16)
    ensures
        port == port_of(raw),
{
    etw::normalize_port((raw % 0x1_0000) as u16)
}

/// The number whose bytes stand in the other order.
pub open spec fn reversed(n: u32) -> u32 {
    (n % 256 * 0x100_0000 + n / 256 % 256 * 0x1_0000 + n / 0x1_0000 % 256 * 256 + n / 0x100_0000) as u32
}

/// The version 4 address in a table's field, whose first byte in memory is its first part.
pub fn v4_address(raw: u32) -> (ip: IpAddr)
    ensures
        ip == IpAddr::V4(reversed(raw)),
{
    IpAddr::V4(
        raw % 256 * 0x100_0000 + raw / 256 % 256 * 0x1_0000 + raw / 0x1_0000 % 256 * 256 + raw
            / 0x100_0000,
    )
}

/// Reversing the bytes of an address twice gives the address back.
pub proof fn law_reversal_is_an_involution(n: u32)
    ensures
        reversed(reversed(n)) == n,
{
    assert(reversed(reversed(n)) == n) by (bit_vector);
}

/// A row of the version 4 TCP table.
#[derive(Debug, Clone, Copy, PartialEq, Eq, Structural)]
pub struct Tcp4Row {
    pub local_address: u32,
    pub local_port: u32,
    pub remote_address: u32,
    pub remote_port: u32,
    pub state: u32,
    pub pid: u32,
}

/// A row of the version 6 TCP table.
#[derive(Debug, Clone, Copy, PartialEq, Eq)]
pub struct Tcp6Row {
    pub local_address: [u8; 16],
    pub local_port: u32,
    pub remote_address: [u8; 16],
    pub remote_port: u32,
    pub state: u32,
    pub pid: u32,
}

/// A row of the version 4 UDP table.
#[derive(Debug, Clone, Copy, PartialEq, Eq, Structural)]
pub struct Udp4Row {
    pub local_address: u32,
    pub local_port: u32,
    pub pid: u32,
}

/// A row of the version 6 UDP table.
#[derive(Debug, Clone, Copy, PartialEq, Eq)]
pub struct Udp6Row {
    pub local_address: [u8; 16],
    pub local_port: u32,
    pub pid: u32,
}

/// The endpoint in two fields of a version 4 table.
pub open spec fn endpoint_4(address: u32, port: u32) -> SocketAddr {
    address::endpoint(IpAddr::V4(reversed(address)), port_of(port))
}

/// The endpoint in two fields of a version 6 table.
pub open spec fn endpoint_6(address: Seq<u8>, port: u32) -> SocketAddr {
    address::endpoint(IpAddr::V6(address::sixteen_octets(address) as u128), port_of(port))
}

/// The connection of a row of the version 4 TCP table.
pub fn tcp4_connection(row: &Tcp4Row) -> (connection: NativeConnection)
    ensures
        connection == (NativeConnection {
            protocol: NativeProtocol::Tcp,
            local: endpoint_4(row.local_address, row.local_port),
            remote: Some(endpoint_4(row.remote_address, row.remote_port)),
            tcp_state: Some(row.state),
            pid: row.pid,
        }),
{
    NativeConnection {
        protocol: NativeProtocol::Tcp,
        local: SocketAddr::new(v4_address(row.local_address), port(row.local_port)),
        remote: Some(SocketAddr::new(v4_address(row.remote_address), port(row.remote_port))),
        tcp_state: Some(row.state),
        pid: row.pid,
    }
}

/// The connection of a row of the version 6 TCP table.
pub fn tcp6_connection(row: &Tcp6Row) -> (connection: NativeConnection)
    ensures
        connection == (NativeConnection {
            protocol: NativeProtocol::Tcp,
            local: endpoint_6(row.local_address@, row.local_port),
            remote: Some(endpoint_6(row.remote_address@, row.remote_port)),
            tcp_state: Some(row.state),
            pid: row.pid,
        }),
{
    NativeConnection {
        protocol: NativeProtocol::Tcp,
        local: SocketAddr::new(IpAddr::from_v6_octets(row.local_address), port(row.local_port)),
        remote: Some(
            SocketAddr::new(IpAddr::from_v6_octets(row.remote_address), port(row.remote_port)),
        ),
        tcp_state: Some(row.state),
        pid: row.pid,
    }
}

/// The endpoint of a row of the version 4 UDP table.
pub fn udp4_connection(row: &Udp4Row) -> (connection: NativeConnection)
    ensures
        connection == (NativeConnection {
            protocol: NativeProtocol::Udp,
            local: endpoint_4(row.local_address, row.local_port),
            remote: None,
            tcp_state: None,
            pid: row.pid,
        }),
{
    NativeConnection {
        protocol: NativeProtocol::Udp,
        local: SocketAddr::new(v4_address(row.local_address), port(row.local_port)),
        remote: None,
        tcp_state: None,
        pid: row.pid,
    }
}

/// The endpoint of a row of the version 6 UDP table.
pub fn udp6_connection(row: &Udp6Row) -> (connection: NativeConnection)
    ensures
        connection == (NativeConnection {
            protocol: NativeProtocol::Udp,
            local: endpoint_6(row.local_address@, row.local_port),
            remote: None,
            tcp_state: None,
            pid: row.pid,
        }),
{
    NativeConnection {
        protocol: NativeProtocol::Udp,
        local: SocketAddr::new(IpAddr::from_v6_octets(row.local_address), port(row.local_port)),
        remote: None,
        tcp_state: None,
        pid: row.pid,
    }
}

/// The system's code for success.
pub const TABLE_SUCCESS: u32 = 0;

/// The system's code for a buffer that is too small.
pub const TABLE_TOO_SMALL: u32 = 122;

/// How often a table is asked for before its growth is given up on.
pub const MAX_TABLE_QUERY_ATTEMPTS: usize = 4;

/// A table that is being asked for.
#[derive(Debug, Clone, Copy, PartialEq, Eq, Structural)]
pub struct TableQuery {
    /// The bytes that the table is said to need.
    pub byte_count: u32,
    /// How often it may still be asked for.
    pub attempts_left: usize,
}

/// What comes of asking for a table.
#[derive(Debug, PartialEq, Eq)]
pub enum TableStep {
    /// The buffer holds the table.
    Done,
    /// It is to be asked for again.
    Again(TableQuery),
    /// It cannot be had.
    Failed(String),
}

/// The words of a buffer that a number of bytes needs; one at least.
pub open spec fn words_needed(byte_count: u32, word_size: usize) -> int {
    let words = (byte_count + word_size - 1) / (word_size as int);
    if words < 1 {
        1
    } else {
        words
    }
}

impl TableQuery {
    /// Takes the answer to the question how large the table is.
    pub fn sized(status: u32, byte_count: u32) -> (r: Result<TableQuery, String>)
        ensures
            match r {
                Ok(query) => (status == TABLE_TOO_SMALL || status == TABLE_SUCCESS) && query
                    == (TableQuery { byte_count, attempts_left: MAX_TABLE_QUERY_ATTEMPTS }),
                Err(reason) => status != TABLE_TOO_SMALL && status != TABLE_SUCCESS && reason@
                    == "IP Helper table sizing failed with Win32 error "@ + text::decimal(
                    status as nat,
                ),
            },
    {
        if status != TABLE_TOO_SMALL && status != TABLE_SUCCESS {
            let mut reason = "IP Helper table sizing failed with Win32 error ".to_owned();
            text::put_number(&mut reason, status as u64);
            return Err(reason);
        }
        Ok(TableQuery { byte_count, attempts_left: MAX_TABLE_QUERY_ATTEMPTS })
    }

    /// The words and the bytes of the buffer to offer.
    pub fn buffer(&self, word_size: usize) -> (r: Result<(usize, u32), String>)
        requires
            0 < word_size <= 16,
        ensures
            match r {
                Ok((words, bytes)) => words == words_needed(self.byte_count, word_size) && bytes
                    == words * word_size && bytes >= self.byte_count,
                Err(reason) => words_needed(self.byte_count, word_size) * word_size > u32::MAX
                    && reason@ == "IP Helper table allocation does not fit u32"@,
            },
    {
        proof {
            let w = word_size as int;
            vstd::arithmetic::div_mod::lemma_fundamental_div_mod(self.byte_count + w - 1, w);
            vstd::arithmetic::div_mod::lemma_mod_bound(self.byte_count + w - 1, w);
            vstd::arithmetic::mul::lemma_mul_is_commutative((self.byte_count + w - 1) / w, w);
        }
        let ghost quotient = (self.byte_count + word_size - 1) / (word_size as int);
        let mut words: u64 = (self.byte_count as u64 + word_size as u64 - 1) / word_size as u64;
        if words < 1 {
            words = 1;
        }
        assert(words == words_needed(self.byte_count, word_size));
        assert(words * word_size <= self.byte_count + 32) by (nonlinear_arith)
            requires
                words == 1 || words * word_size <= self.byte_count + word_size - 1,
                word_size <= 16,
        ;
        let bytes: u64 = words * word_size as u64;
        assert(bytes >= self.byte_count) by (nonlinear_arith)
            requires
                bytes == words * word_size,
                words >= quotient,
                word_size > 0,
                quotient * word_size > self.byte_count - 1,
        ;
        if bytes > u32::MAX as u64 {
            return Err("IP Helper table allocation does not fit u32".to_owned());
        }
        assert(words <= bytes) by (nonlinear_arith)
            requires
                bytes == words * word_size,
                word_size >= 1,
        ;
        Ok((words as usize, bytes as u32))
    }

    /// Takes the answer to an offered buffer; `supplied` is what the system then says it needs.
    pub fn answered(&self, status: u32, supplied: u32) -> (step: TableStep)
        ensures
            match step {
                TableStep::Done => status == TABLE_SUCCESS,
                TableStep::Again(query) => status == TABLE_TOO_SMALL && self.attempts_left > 1
                    && query == (TableQuery {
                    byte_count: supplied,
                    attempts_left: (self.attempts_left - 1) as usize,
                }),
                TableStep::Failed(reason) => status != TABLE_SUCCESS && (if status
                    == TABLE_TOO_SMALL {
                    self.attempts_left <= 1 && reason@
                        == "IP Helper table kept growing across bounded query retries"@
                } else {
                    reason@ == "IP Helper table query failed with Win32 error "@ + text::decimal(
                        status as nat,
                    )
                }),
            },
    {
        if status == TABLE_SUCCESS {
            TableStep::Done
        } else if status != TABLE_TOO_SMALL {
            let mut reason = "IP Helper table query failed with Win32 error ".to_owned();
            text::put_number(&mut reason, status as u64);
            TableStep::Failed(reason)
        } else if self.attempts_left <= 1 {
            TableStep::Failed(
                "IP Helper table kept growing across bounded query retries".to_owned(),
            )
        } else {
            TableStep::Again(
                TableQuery { byte_count: supplied, attempts_left: self.attempts_left - 1 },
            )
        }
    }
}

/// Whether the rows of a table lie inside its buffer.
pub open spec fn rows_inside(
    first_row: usize,
    buffer: usize,
    count: u32,
    row_size: usize,
    buffer_size: usize,
) -> bool {
    buffer <= first_row && first_row - buffer + count * row_size <= buffer_size
}

/// The number of rows to read, where they lie inside the buffer that the table was read into.
pub fn row_count(
    first_row: usize,
    buffer: usize,
    count: u32,
    row_size: usize,
    buffer_size: usize,
) -> (r: Result<usize, String>)
    ensures
        match r {
            Ok(n) => rows_inside(first_row, buffer, count, row_size, buffer_size) && n == count,
            Err(reason) => !rows_inside(first_row, buffer, count, row_size, buffer_size) && reason@
                == (if first_row < buffer {
                "IP Helper row pointer precedes its allocation"@
            } else if count * row_size > usize::MAX {
                "IP Helper row byte count overflowed"@
            } else if first_row - buffer + count * row_size > usize::MAX {
                "IP Helper table byte count overflowed"@
            } else {
                "IP Helper row count exceeds the returned allocation"@
            }),
        },
{
    let row_offset: usize = match first_row.checked_sub(buffer) {
        Some(offset) => offset,
        None => {
            return Err("IP Helper row pointer precedes its allocation".to_owned());
        },
    };
    let row_bytes: usize = match (count as usize).checked_mul(row_size) {
        Some(bytes) => bytes,
        None => {
            return Err("IP Helper row byte count overflowed".to_owned());
        },
    };
    let required: usize = match row_offset.checked_add(row_bytes) {
        Some(bytes) => bytes,
        None => {
            return Err("IP Helper table byte count overflowed".to_owned());
        },
    };
    if required > buffer_size {
        return Err("IP Helper row count exceeds the returned allocation".to_owned());
    }
    Ok(count as usize)
}

/// Every row that is read lies inside the buffer.
pub proof fn law_rows_stay_inside(
    first_row: usize,
    buffer: usize,
    count: u32,
    row_size: usize,
    buffer_size: usize,
    row: u32,
)
    requires
        rows_inside(first_row, buffer, count, row_size, buffer_size),
        row < count,
    ensures
        buffer <= first_row + row * row_size,
        first_row + (row + 1) * row_size <= buffer + buffer_size,
{
    assert((row + 1) * row_size <= count * row_size) by (nonlinear_arith)
        requires
            row < count,
    ;
    assert(0 <= row * row_size) by (nonlinear_arith);
}

/// A process's place in the list: by number, then by start.
pub open spec fn process_rank(process: NativeProcess) -> (u32, Option<u64>) {
    (process.pid, process.started_at_unix_nanos)
}

/// Processes by number, then by start; those of equal rank keep their order.
pub open spec fn processes_in_order(processes: Seq<NativeProcess>) -> Seq<NativeProcess> {
    ordered::places_in_order::<(u32, Option<u64>)>(
        processes.map_values(|process: NativeProcess| process_rank(process)),
    ).map_values(|place: usize| processes[place as int])
}

/// Puts processes in order.
pub fn order_processes(processes: Vec<NativeProcess>) -> (list: Vec<NativeProcess>)
    ensures
        list@ == processes_in_order(processes@),
{
    let mut keys: Vec<(u32, Option<u64>)> = Vec::new();
    for i in 0..processes.len()
        invariant
            keys@.len() == i,
            forall|j: int| 0 <= j < i ==> #[trigger] keys@[j] == process_rank(processes@[j]),
    {
        keys.push((processes[i].pid, processes[i].started_at_unix_nanos));
    }
    let places = ordered::sort_places(keys.as_slice());
    assert(ordered::key_views(keys@) =~= processes@.map_values(
        |process: NativeProcess| process_rank(process),
    ));
    let mut list: Vec<NativeProcess> = Vec::new();
    for i in 0..places.len()
        invariant
            places@.len() == processes@.len(),
            forall|j: int| 0 <= j < places@.len() ==> (#[trigger] places@[j]) < processes@.len(),
            list@.len() == i,
            forall|j: int|
                0 <= j < i ==> #[trigger] list@[j] == processes@[places@[j] as int],
    {
        let process = &processes[places[i]];
        list.push(
            NativeProcess {
                pid: process.pid,
                started_at_unix_nanos: process.started_at_unix_nanos,
                name: process.name.clone(),
                image_path: text::copy_optional(&process.image_path),
            },
        );
    }
    assert(list@ =~= processes_in_order(processes@));
    list
}

/// A connection's place in the list: by process, table, local and remote endpoint.
pub open spec fn connection_rank(connection: NativeConnection) -> (
    (u32, u32),
    (SocketAddr, Option<SocketAddr>),
) {
    (
        (
            connection.pid,
            match connection.protocol {
                NativeProtocol::Tcp => 0u32,
                NativeProtocol::Udp => 1u32,
            },
        ),
        (connection.local, connection.remote),
    )
}

/// Connections by process, table, local and remote endpoint; those of equal rank keep their order.
pub open spec fn connections_in_order(connections: Seq<NativeConnection>) -> Seq<NativeConnection> {
    ordered::places_in_order::<((u32, u32), (SocketAddr, Option<SocketAddr>))>(
        connections.map_values(|connection: NativeConnection| connection_rank(connection)),
    ).map_values(|place: usize| connections[place as int])
}

/// Puts connections in order.
pub fn order_connections(connections: Vec<NativeConnection>) -> (list: Vec<NativeConnection>)
    ensures
        list@ == connections_in_order(connections@),
{
    let mut keys: Vec<((u32, u32), (SocketAddr, Option<SocketAddr>))> = Vec::new();
    for i in 0..connections.len()
        invariant
            keys@.len() == i,
            forall|j: int| 0 <= j < i ==> #[trigger] keys@[j] == connection_rank(connections@[j]),
    {
        let connection = connections[i];
        let table: u32 = match connection.protocol {
            NativeProtocol::Tcp => 0,
            NativeProtocol::Udp => 1,
        };
        keys.push(((connection.pid, table), (connection.local, connection.remote)));
    }
    let places = ordered::sort_places(keys.as_slice());
    assert(ordered::key_views(keys@) =~= connections@.map_values(
        |connection: NativeConnection| connection_rank(connection),
    ));
    let mut list: Vec<NativeConnection> = Vec::new();
    for i in 0..places.len()
        invariant
            places@.len() == connections@.len(),
            forall|j: int| 0 <= j < places@.len() ==> (#[trigger] places@[j]) < connections@.len(),
            list@.len() == i,
            forall|j: int|
                0 <= j < i ==> #[trigger] list@[j] == connections@[places@[j] as int],
    {
        list.push(connections[places[i]]);
    }
    assert(list@ =~= connections_in_order(connections@));
    list
}

/// A time of the system counts steps of a hundred nanoseconds since 1601: those of the first of
/// January 1970 are the zero of the time it is turned into, and earlier ones are zero too.
pub proof fn law_times_count_from_1970(high: u32, low: u32, nanos: u64)
    ensures
        high * 0x1_0000_0000 + low == 116_444_736_000_000_000 + nanos / 100 && nanos % 100 == 0
            ==> unix_nanos_of(high, low) == nanos,
        high * 0x1_0000_0000 + low <= 116_444_736_000_000_000 ==> unix_nanos_of(high, low) == 0,
{
}

/// The first byte of a number read least significant byte first is the first of the address; a port
/// stands in the first two bytes, most significant first.
pub proof fn law_addresses_are_read_in_order(
    a: u8,
    b: u8,
    c: u8,
    d: u8,
    raw: u32,
    first: u8,
    second: u8,
)
    requires
        raw == a + b * 0x100 + c * 0x1_0000 + d * 0x100_0000,
    ensures
        reversed(raw) == a * 0x100_0000 + b * 0x1_0000 + c * 0x100 + d,
        port_of((first + second * 0x100) as u32) == first * 0x100 + second,
        endpoint_4(raw, (first + second * 0x100) as u32).port == first * 0x100 + second,
        endpoint_4(raw, (first + second * 0x100) as u32).ip == IpAddr::V4(reversed(raw)),
{
    address::lemma_four_bytes(d as int, c as int, b as int, a as int, raw as int);
    let low = (first + second * 0x100) as u32;
    assert(low % 0x1_0000 == low);
    assert(low % 256 == first);
    assert(low / 256 == second);
}

/// Processes are listed by number and then by start, connections by number, then protocol with TCP
/// first, then by their ends.
pub proof fn law_ranks_of_rows(p: NativeProcess, c: NativeConnection)
    ensures
        process_rank(p) == (p.pid, p.started_at_unix_nanos),
        connection_rank(c).0.0 == c.pid,
        c.protocol == NativeProtocol::Tcp ==> connection_rank(c).0.1 == 0,
        c.protocol == NativeProtocol::Udp ==> connection_rank(c).0.1 == 1,
        connection_rank(c).1.0 == c.local,
        connection_rank(c).1.1 == c.remote,
{
}

} // verus!
