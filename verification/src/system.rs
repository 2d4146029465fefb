//! From the system's process and connection tables to a snapshot.
use crate::address::SocketAddr;
use crate::model::{
    ConnectionSnapshot, ProcessIconState, ProcessKey, ProcessSnapshot, SystemSnapshot, SystemView,
    TcpConnectionState, TransportProtocol,
};
use crate::ordered;
use crate::ordered::SortedMap;
use crate::text;
use vstd::prelude::*;

verus! {

/// A process as the system lists it.
#[derive(Debug, PartialEq, Eq)]
pub struct NativeProcess {
    pub pid: u32,
    /// When it started, where that could be read.
    pub started_at_unix_nanos: Option<u64>,
    pub name: String,
    pub image_path: Option<String>,
}

/// The table that a connection stands in.
#[derive(Debug, Clone, Copy, PartialEq, Eq, Structural)]
pub enum NativeProtocol {
    Tcp,
    Udp,
}

/// A connection as the system lists it.
#[derive(Debug, Clone, Copy, PartialEq, Eq, Structural)]
pub struct NativeConnection {
    pub protocol: NativeProtocol,
    pub local: SocketAddr,
    pub remote: Option<SocketAddr>,
    pub tcp_state: Option<u32>,
    pub pid: u32,
}

/// A snapshot that could not be taken.
#[derive(Debug, Clone, PartialEq, Eq)]
pub struct SystemSnapshotError {
    pub reason: String,
}

impl SystemSnapshotError {
    /// The failure of a system call, in words.
    pub fn new(reason: String) -> (error: SystemSnapshotError)
        ensures
            error.reason@ == reason@,
    {
        SystemSnapshotError { reason }
    }

    /// The failure in words.
    pub fn message(&self) -> (text: String)
        ensures
            text@ == self.reason@,
    {
        self.reason.clone()
    }
}

/// The state that a number in the table stands for.
pub open spec fn tcp_state_of(state: u32) -> TcpConnectionState {
    if state == 1 {
        TcpConnectionState::Closed
    } else if state == 2 {
        TcpConnectionState::Listen
    } else if state == 3 {
        TcpConnectionState::SynSent
    } else if state == 4 {
        TcpConnectionState::SynReceived
    } else if state == 5 {
        TcpConnectionState::Established
    } else if state == 6 {
        TcpConnectionState::FinWait1
    } else if state == 7 {
        TcpConnectionState::FinWait2
    } else if state == 8 {
        TcpConnectionState::CloseWait
    } else if state == 9 {
        TcpConnectionState::Closing
    } else if state == 10 {
        TcpConnectionState::LastAck
    } else if state == 11 {
        TcpConnectionState::TimeWait
    } else if state == 12 {
        TcpConnectionState::DeleteTcb
    } else {
        TcpConnectionState::Unknown(state)
    }
}

/// The state that a number in the table stands for; a number of no known meaning is kept.
pub fn tcp_state(state: u32) -> (r: TcpConnectionState)
    ensures
        r == tcp_state_of(state),
{
    match state {
        1 => TcpConnectionState::Closed,
        2 => TcpConnectionState::Listen,
        3 => TcpConnectionState::SynSent,
        4 => TcpConnectionState::SynReceived,
        5 => TcpConnectionState::Established,
        6 => TcpConnectionState::FinWait1,
        7 => TcpConnectionState::FinWait2,
        8 => TcpConnectionState::CloseWait,
        9 => TcpConnectionState::Closing,
        10 => TcpConnectionState::LastAck,
        11 => TcpConnectionState::TimeWait,
        12 => TcpConnectionState::DeleteTcb,
        unknown => TcpConnectionState::Unknown(unknown),
    }
}

/// Different numbers in the table stand for different states.
pub proof fn law_states_are_told_apart(a: u32, b: u32)
    ensures
        tcp_state_of(a) == tcp_state_of(b) ==> a == b,
{
}

/// When the process of a number started, as the last listed one says whose start is known.
pub open spec fn start_of(processes: Seq<NativeProcess>, pid: u32) -> Option<u64>
    decreases processes.len(),
{
    if processes.len() == 0 {
        None
    } else if processes.last().pid == pid && processes.last().started_at_unix_nanos is Some {
        processes.last().started_at_unix_nanos
    } else {
        start_of(processes.drop_last(), pid)
    }
}

/// The name of the last listed process of a number.
pub open spec fn name_of(processes: Seq<NativeProcess>, pid: u32) -> Option<String>
    decreases processes.len(),
{
    if processes.len() == 0 {
        None
    } else if processes.last().pid == pid {
        Some(processes.last().name)
    } else {
        name_of(processes.drop_last(), pid)
    }
}

/// The identity of the process of a number, where its start is known.
pub open spec fn key_of(processes: Seq<NativeProcess>, pid: u32) -> Option<ProcessKey> {
    match start_of(processes, pid) {
        Some(started_at_unix_nanos) => Some(ProcessKey { pid, started_at_unix_nanos }),
        None => None,
    }
}

/// A process whose start is known, as a snapshot holds it.
pub open spec fn joined_process(
    process: NativeProcess,
    all: Seq<NativeProcess>,
) -> ProcessSnapshot {
    ProcessSnapshot {
        key: key_of(all, process.pid)->0,
        name: process.name,
        image_path: process.image_path,
        icon: ProcessIconState::NotLoaded,
    }
}

/// The processes whose start is known, as a snapshot holds them.
pub open spec fn joined_processes(part: Seq<NativeProcess>, all: Seq<NativeProcess>) -> Seq<
    ProcessSnapshot,
>
    decreases part.len(),
{
    if part.len() == 0 {
        Seq::empty()
    } else if part.last().started_at_unix_nanos is Some {
        joined_processes(part.drop_last(), all).push(joined_process(part.last(), all))
    } else {
        joined_processes(part.drop_last(), all)
    }
}

/// A connection with its owner.
pub open spec fn joined_connection(
    connection: NativeConnection,
    processes: Seq<NativeProcess>,
) -> ConnectionSnapshot {
    ConnectionSnapshot {
        protocol: match connection.protocol {
            NativeProtocol::Tcp => TransportProtocol::Tcp,
            NativeProtocol::Udp => TransportProtocol::Udp,
        },
        local: connection.local,
        remote: connection.remote,
        tcp_state: match connection.tcp_state {
            Some(state) => Some(tcp_state_of(state)),
            None => None,
        },
        pid: connection.pid,
        process_key: key_of(processes, connection.pid),
        owner_name: name_of(processes, connection.pid),
    }
}

/// The numbers of the listed processes.
pub open spec fn pids(processes: Seq<NativeProcess>) -> Set<u32> {
    Set::new(|pid: u32| name_of(processes, pid) is Some)
}

/// The snapshot that two tables make.
pub open spec fn joined(
    captured_at: u64,
    processes: Seq<NativeProcess>,
    connections: Seq<NativeConnection>,
) -> SystemView {
    SystemView {
        captured_at,
        names: ordered::ordered_list::<u32>(pids(processes)).map_values(
            |pid: u32| (pid, name_of(processes, pid)->0),
        ),
        processes: joined_processes(processes, processes),
        connections: connections.map_values(
            |connection: NativeConnection| joined_connection(connection, processes),
        ),
    }
}

/// Joins the tables: a connection belongs to the process of its number whose start is known.
pub fn join_snapshot(
    captured_at_unix_nanos: u64,
    processes: Vec<NativeProcess>,
    connections: Vec<NativeConnection>,
) -> (snapshot: SystemSnapshot)
    ensures
        snapshot@ == joined(captured_at_unix_nanos, processes@, connections@),
{
    let mut starts: SortedMap<u32, u64> = SortedMap::new();
    let mut names: SortedMap<u32, String> = SortedMap::new();
    assert(processes@.take(0) =~= Seq::<NativeProcess>::empty());
    for i in 0..processes.len()
        invariant
            starts.well_formed(),
            names.well_formed(),
            forall|pid: u32| #[trigger]
                starts@.dom().contains(pid) ==> start_of(processes@.take(i as int), pid) == Some(
                    starts@[pid],
                ),
            forall|pid: u32| #[trigger]
                names@.dom().contains(pid) ==> name_of(processes@.take(i as int), pid) == Some(
                    names@[pid],
                ),
            forall|pid: u32|
                !(#[trigger] starts@.dom().contains(pid)) ==> start_of(
                    processes@.take(i as int),
                    pid,
                ) is None,
            forall|pid: u32|
                !(#[trigger] names@.dom().contains(pid)) ==> name_of(
                    processes@.take(i as int),
                    pid,
                ) is None,
    {
        assert(processes@.take(i + 1).drop_last() =~= processes@.take(i as int));
        assert(processes@.take(i + 1).last() == processes@[i as int]);
        if let Some(started) = processes[i].started_at_unix_nanos {
            starts.insert(processes[i].pid, started);
        }
        names.insert(processes[i].pid, processes[i].name.clone());
    }
    assert(processes@.take(processes@.len() as int) =~= processes@);

    let mut kept: Vec<ProcessSnapshot> = Vec::new();
    for i in 0..processes.len()
        invariant
            starts.well_formed(),
            forall|pid: u32| #[trigger]
                starts@.dom().contains(pid) ==> start_of(processes@, pid) == Some(starts@[pid]),
            forall|pid: u32|
                !(#[trigger] starts@.dom().contains(pid)) ==> start_of(processes@, pid) is None,
            kept@ == joined_processes(processes@.take(i as int), processes@),
    {
        assert(processes@.take(i + 1).drop_last() =~= processes@.take(i as int));
        let process = &processes[i];
        if process.started_at_unix_nanos.is_some() {
            proof {
                lemma_start_known(processes@, i as int);
            }
            let started: u64 = match starts.get(&process.pid) {
                Some(started) => *started,
                None => 0,
            };
            kept.push(
                ProcessSnapshot {
                    key: ProcessKey { pid: process.pid, started_at_unix_nanos: started },
                    name: process.name.clone(),
                    image_path: text::copy_optional(&process.image_path),
                    icon: ProcessIconState::NotLoaded,
                },
            );
        }
    }

    let mut owned: Vec<ConnectionSnapshot> = Vec::new();
    for i in 0..connections.len()
        invariant
            starts.well_formed(),
            names.well_formed(),
            forall|pid: u32| #[trigger]
                starts@.dom().contains(pid) ==> start_of(processes@, pid) == Some(starts@[pid]),
            forall|pid: u32|
                !(#[trigger] starts@.dom().contains(pid)) ==> start_of(processes@, pid) is None,
            forall|pid: u32| #[trigger]
                names@.dom().contains(pid) ==> name_of(processes@, pid) == Some(names@[pid]),
            forall|pid: u32|
                !(#[trigger] names@.dom().contains(pid)) ==> name_of(processes@, pid) is None,
            owned@.len() == i,
            forall|j: int|
                0 <= j < i ==> #[trigger] owned@[j] == joined_connection(
                    connections@[j],
                    processes@,
                ),
    {
        let connection = connections[i];
        let process_key = match starts.get(&connection.pid) {
            Some(started) => Some(
                ProcessKey { pid: connection.pid, started_at_unix_nanos: *started },
            ),
            None => None,
        };
        let owner_name = match names.get(&connection.pid) {
            Some(name) => Some(name.clone()),
            None => None,
        };
        owned.push(
            ConnectionSnapshot {
                protocol: match connection.protocol {
                    NativeProtocol::Tcp => TransportProtocol::Tcp,
                    NativeProtocol::Udp => TransportProtocol::Udp,
                },
                local: connection.local,
                remote: connection.remote,
                tcp_state: match connection.tcp_state {
                    Some(state) => Some(tcp_state(state)),
                    None => None,
                },
                pid: connection.pid,
                process_key,
                owner_name,
            },
        );
    }

    let entries = names.entries();
    let mut process_names: Vec<(u32, String)> = Vec::new();
    for i in 0..entries.len()
        invariant
            process_names@ == entries@.take(i as int),
    {
        process_names.push((entries[i].0, entries[i].1.clone()));
    }
    let ghost view = joined(captured_at_unix_nanos, processes@, connections@);
    proof {
        ordered::lemma_keys_in_order(entries@);
        assert(names@.dom() =~= pids(processes@));
        assert forall|i: int| 0 <= i < entries@.len() implies #[trigger] entries@[i]
            == view.names[i] by {
            ordered::lemma_entry_in_map(entries@, i);
            assert(ordered::keys_of(entries@)[i] == entries@[i].0);
        }
        assert(process_names@ =~= view.names);
        assert(owned@ =~= view.connections);
    }
    SystemSnapshot { captured_at_unix_nanos, process_names, processes: kept, connections: owned }
}

proof fn lemma_start_known(processes: Seq<NativeProcess>, at: int)
    requires
        0 <= at < processes.len(),
        processes[at].started_at_unix_nanos is Some,
    ensures
        start_of(processes, processes[at].pid) is Some,
    decreases processes.len(),
{
    if at < processes.len() - 1 {
        lemma_start_known(processes.drop_last(), at);
    }
}

/// A connection is joined only to a process of its own number that was listed with the start that
/// the join gives it.
pub proof fn law_joined_only_to_known_starts(
    connection: NativeConnection,
    processes: Seq<NativeProcess>,
)
    ensures
        match joined_connection(connection, processes).process_key {
            Some(key) => key.pid == connection.pid && exists|i: int|
                0 <= i < processes.len() && (#[trigger] processes[i]).pid == key.pid
                    && processes[i].started_at_unix_nanos == Some(key.started_at_unix_nanos),
            None => forall|i: int|
                0 <= i < processes.len() && (#[trigger] processes[i]).pid == connection.pid
                    ==> processes[i].started_at_unix_nanos is None,
        },
    decreases processes.len(),
{
    if processes.len() > 0 {
        let rest = processes.drop_last();
        law_joined_only_to_known_starts(connection, rest);
        let n = processes.len() - 1;
        if processes[n].pid == connection.pid && processes[n].started_at_unix_nanos is Some {
        } else if start_of(rest, connection.pid) is Some {
            let i = choose|i: int|
                0 <= i < rest.len() && (#[trigger] rest[i]).pid == connection.pid
                    && rest[i].started_at_unix_nanos == start_of(rest, connection.pid);
            assert(processes[i] == rest[i]);
        } else {
            assert forall|i: int|
                0 <= i < processes.len() && (#[trigger] processes[i]).pid
                    == connection.pid implies processes[i].started_at_unix_nanos is None by {
                if i < n {
                    assert(rest[i] == processes[i]);
                }
            }
        }
    }
}

/// The states of connections by the system's numbers for them.
pub proof fn law_numbers_of_states(n: u32)
    ensures
        tcp_state_of(1) == TcpConnectionState::Closed,
        tcp_state_of(2) == TcpConnectionState::Listen,
        tcp_state_of(3) == TcpConnectionState::SynSent,
        tcp_state_of(4) == TcpConnectionState::SynReceived,
        tcp_state_of(5) == TcpConnectionState::Established,
        tcp_state_of(6) == TcpConnectionState::FinWait1,
        tcp_state_of(7) == TcpConnectionState::FinWait2,
        tcp_state_of(8) == TcpConnectionState::CloseWait,
        tcp_state_of(9) == TcpConnectionState::Closing,
        tcp_state_of(10) == TcpConnectionState::LastAck,
        tcp_state_of(11) == TcpConnectionState::TimeWait,
        tcp_state_of(12) == TcpConnectionState::DeleteTcb,
        n == 0 || n > 12 ==> tcp_state_of(n) == TcpConnectionState::Unknown(n),
{
}

/// A connection is joined as it is, with its protocol and state named and the name of the last
/// process of its number.
pub proof fn law_connections_are_joined_as_they_are(
    connection: NativeConnection,
    processes: Seq<NativeProcess>,
)
    ensures
        ({
            let shown = joined_connection(connection, processes);
            &&& shown.protocol is Tcp == connection.protocol is Tcp
            &&& shown.local == connection.local
            &&& shown.remote == connection.remote
            &&& shown.pid == connection.pid
            &&& connection.tcp_state is None ==> shown.tcp_state is None
            &&& connection.tcp_state matches Some(state) ==> shown.tcp_state == Some(
                tcp_state_of(state),
            )
            &&& processes.len() > 0 && processes.last().pid == connection.pid ==> shown.owner_name
                == Some(processes.last().name)
            &&& processes.len() > 0 && processes.last().pid == connection.pid
                && processes.last().started_at_unix_nanos is Some ==> shown.process_key == Some(
                ProcessKey {
                    pid: connection.pid,
                    started_at_unix_nanos: processes.last().started_at_unix_nanos->0,
                },
            )
            &&& (forall|i: int|
                0 <= i < processes.len() ==> (#[trigger] processes[i]).pid != connection.pid)
                ==> shown.owner_name is None && shown.process_key is None
        }),
{
    if forall|i: int|
        0 <= i < processes.len() ==> (#[trigger] processes[i]).pid != connection.pid {
        lemma_unlisted(processes, connection.pid);
    }
}

proof fn lemma_unlisted(processes: Seq<NativeProcess>, pid: u32)
    requires
        forall|i: int| 0 <= i < processes.len() ==> (#[trigger] processes[i]).pid != pid,
    ensures
        name_of(processes, pid) is None,
        start_of(processes, pid) is None,
    decreases processes.len(),
{
    if processes.len() > 0 {
        assert(processes[processes.len() - 1].pid != pid);
        assert forall|i: int| 0 <= i < processes.drop_last().len() implies (
        #[trigger] processes.drop_last()[i]).pid != pid by {
            assert(processes[i].pid != pid);
        }
        lemma_unlisted(processes.drop_last(), pid);
    }
}

/// A process whose start is known is joined under it with its name and image, without a picture yet;
/// one whose start is not known is left out.
pub proof fn law_processes_are_joined_by_start(processes: Seq<NativeProcess>, more: NativeProcess)
    ensures
        ({
            let all = processes.push(more);
            let before = joined_processes(processes, all);
            let after = joined_processes(all, all);
            match more.started_at_unix_nanos {
                Some(start) => after.len() == before.len() + 1 && after.last().key.pid == more.pid
                    && after.last().key.started_at_unix_nanos == start && after.last().name
                    == more.name && after.last().image_path == more.image_path
                    && after.last().icon == ProcessIconState::NotLoaded && after.drop_last()
                    == before,
                None => after == before,
            }
        }),
{
    let all = processes.push(more);
    assert(all.drop_last() =~= processes);
    assert(joined_processes(all, all).len() > 0 && more.started_at_unix_nanos is Some
        ==> joined_processes(all, all).drop_last() =~= joined_processes(processes, all));
}

} // verus!
