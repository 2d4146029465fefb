//! The stored sessions: what each operation changes and what each question is answered.
//!
//! A program that keeps them on disk carries out here first what it then writes.
use crate::ordered;
use crate::ordered::{OrderedKey, SortedMap};
use crate::session::{
    AlertRecord, EndpointSummary, ProcessSessionSummary, SessionBucket, SessionDetail, SessionId,
    SessionRecord, SessionStatus,
};
use crate::storage;
use crate::storage::{StorageError, StorageErrorView};
use crate::text;
use vstd::prelude::*;

verus! {

/// What a process's row is found by: its number and its start.
pub type ProcessRowKey = (u32, u64);

/// What an endpoint's row is found by: its protocol, its address and its process.
pub type EndpointRowKey = (String, (String, String));

/// A session with its rows.
#[derive(Debug)]
pub struct StoredSession {
    pub record: SessionRecord,
    pub buckets: SortedMap<u64, SessionBucket>,
    pub processes: SortedMap<ProcessRowKey, ProcessSessionSummary>,
    pub endpoints: SortedMap<EndpointRowKey, EndpointSummary>,
}

/// A session with its rows, as a value.
#[verifier::ext_equal]
pub struct StoredView {
    pub record: SessionRecord,
    pub buckets: Map<u64, SessionBucket>,
    pub processes: Map<(u32, u64), ProcessSessionSummary>,
    pub endpoints: Map<(Seq<char>, (Seq<char>, Seq<char>)), EndpointSummary>,
}

impl View for StoredSession {
    type V = StoredView;

    open spec fn view(&self) -> StoredView {
        StoredView {
            record: self.record,
            buckets: self.buckets@,
            processes: self.processes@,
            endpoints: self.endpoints@,
        }
    }
}

/// Buckets with more of them; one of the same start takes the place of the one that was there.
pub open spec fn buckets_with(
    stored: Map<u64, SessionBucket>,
    buckets: Seq<SessionBucket>,
) -> Map<u64, SessionBucket>
    decreases buckets.len(),
{
    if buckets.len() == 0 {
        stored
    } else {
        buckets_with(stored, buckets.drop_last()).insert(
            buckets.last().start_unix_nanos,
            buckets.last(),
        )
    }
}

/// Whether a name is only a process's number: the word, a space and a digit.
pub open spec fn only_number(name: Seq<char>) -> bool {
    name.len() >= 5 && name[0] == 'P' && name[1] == 'I' && name[2] == 'D' && name[3] == ' '
        && text::is_digit(name[4])
}

fn is_only_number(name: &str) -> (r: bool)
    ensures
        r == only_number(name@),
{
    let chars = text::characters(name);
    if chars.len() < 5 {
        return false;
    }
    let digit: u32 = text::code_point(chars[4]);
    chars[0] == 'P' && chars[1] == 'I' && chars[2] == 'D' && chars[3] == ' ' && 48 <= digit && digit
        <= 57
}

/// A process's row once another is put in its place. A name that was known, and a path that was
/// known, are not given up for an unknown one.
pub open spec fn merged_process(
    stored: ProcessSessionSummary,
    new: ProcessSessionSummary,
) -> ProcessSessionSummary {
    ProcessSessionSummary {
        name: if only_number(new.name@) && !only_number(stored.name@) {
            stored.name
        } else {
            new.name
        },
        image_path: if new.image_path is Some {
            new.image_path
        } else {
            stored.image_path
        },
        ..new
    }
}

fn merge_process(stored: &ProcessSessionSummary, new: &ProcessSessionSummary) -> (merged:
    ProcessSessionSummary)
    ensures
        merged == merged_process(*stored, *new),
{
    let name = if is_only_number(new.name.as_str()) && !is_only_number(stored.name.as_str()) {
        stored.name.clone()
    } else {
        new.name.clone()
    };
    let image_path = if new.image_path.is_some() {
        text::copy_optional(&new.image_path)
    } else {
        text::copy_optional(&stored.image_path)
    };
    ProcessSessionSummary {
        pid: new.pid,
        started_at_unix_nanos: new.started_at_unix_nanos,
        name,
        image_path,
        send_bytes: new.send_bytes,
        receive_bytes: new.receive_bytes,
        connection_count: new.connection_count,
    }
}

fn copy_process(process: &ProcessSessionSummary) -> (copy: ProcessSessionSummary)
    ensures
        copy == *process,
{
    ProcessSessionSummary {
        pid: process.pid,
        started_at_unix_nanos: process.started_at_unix_nanos,
        name: process.name.clone(),
        image_path: text::copy_optional(&process.image_path),
        send_bytes: process.send_bytes,
        receive_bytes: process.receive_bytes,
        connection_count: process.connection_count,
    }
}

/// What a process's row is found by.
pub open spec fn process_key(process: ProcessSessionSummary) -> (u32, u64) {
    (process.pid, process.started_at_unix_nanos)
}

/// Processes with more of them.
pub open spec fn processes_with(
    stored: Map<(u32, u64), ProcessSessionSummary>,
    processes: Seq<ProcessSessionSummary>,
) -> Map<(u32, u64), ProcessSessionSummary>
    decreases processes.len(),
{
    if processes.len() == 0 {
        stored
    } else {
        let before = processes_with(stored, processes.drop_last());
        let new = processes.last();
        let key = process_key(new);
        before.insert(
            key,
            if before.dom().contains(key) {
                merged_process(before[key], new)
            } else {
                new
            },
        )
    }
}

/// An endpoint's row once another is put in its place: it was first seen at the earlier time and
/// last seen at the later.
pub open spec fn merged_endpoint(stored: EndpointSummary, new: EndpointSummary) -> EndpointSummary {
    EndpointSummary {
        first_seen_unix_nanos: if stored.first_seen_unix_nanos < new.first_seen_unix_nanos {
            stored.first_seen_unix_nanos
        } else {
            new.first_seen_unix_nanos
        },
        last_seen_unix_nanos: if stored.last_seen_unix_nanos > new.last_seen_unix_nanos {
            stored.last_seen_unix_nanos
        } else {
            new.last_seen_unix_nanos
        },
        ..new
    }
}

fn copy_endpoint(endpoint: &EndpointSummary) -> (copy: EndpointSummary)
    ensures
        copy == *endpoint,
{
    EndpointSummary {
        protocol: endpoint.protocol.clone(),
        remote_address: endpoint.remote_address.clone(),
        process_name: endpoint.process_name.clone(),
        first_seen_unix_nanos: endpoint.first_seen_unix_nanos,
        last_seen_unix_nanos: endpoint.last_seen_unix_nanos,
        connection_count: endpoint.connection_count,
    }
}

fn merge_endpoint(stored: &EndpointSummary, new: &EndpointSummary) -> (merged: EndpointSummary)
    ensures
        merged == merged_endpoint(*stored, *new),
{
    let mut merged = copy_endpoint(new);
    if stored.first_seen_unix_nanos < new.first_seen_unix_nanos {
        merged.first_seen_unix_nanos = stored.first_seen_unix_nanos;
    }
    if stored.last_seen_unix_nanos > new.last_seen_unix_nanos {
        merged.last_seen_unix_nanos = stored.last_seen_unix_nanos;
    }
    merged
}

/// What an endpoint's row is found by.
pub open spec fn endpoint_key(endpoint: EndpointSummary) -> (Seq<char>, (Seq<char>, Seq<char>)) {
    (endpoint.protocol@, (endpoint.remote_address@, endpoint.process_name@))
}

/// Endpoints with more of them.
pub open spec fn endpoints_with(
    stored: Map<(Seq<char>, (Seq<char>, Seq<char>)), EndpointSummary>,
    endpoints: Seq<EndpointSummary>,
) -> Map<(Seq<char>, (Seq<char>, Seq<char>)), EndpointSummary>
    decreases endpoints.len(),
{
    if endpoints.len() == 0 {
        stored
    } else {
        let before = endpoints_with(stored, endpoints.drop_last());
        let new = endpoints.last();
        let key = endpoint_key(new);
        before.insert(
            key,
            if before.dom().contains(key) {
                merged_endpoint(before[key], new)
            } else {
                new
            },
        )
    }
}

/// The buckets of a session, oldest first.
pub open spec fn bucket_list(buckets: Map<u64, SessionBucket>) -> Seq<SessionBucket> {
    ordered::ordered_list::<u64>(buckets.dom()).map_values(|start: u64| buckets[start])
}

/// What buckets sent, received and counted together.
pub open spec fn sums(buckets: Seq<SessionBucket>) -> (int, int, int)
    decreases buckets.len(),
{
    if buckets.len() == 0 {
        (0, 0, 0)
    } else {
        let before = sums(buckets.drop_last());
        let last = buckets.last();
        (before.0 + last.send_bytes, before.1 + last.receive_bytes, before.2 + last.event_count)
    }
}

/// Whether a signed integer can hold each of three sums.
pub open spec fn sums_fit(totals: (int, int, int)) -> bool {
    totals.0 <= i64::MAX && totals.1 <= i64::MAX && totals.2 <= i64::MAX
}

fn add_up(buckets: &SortedMap<u64, SessionBucket>) -> (totals: (u128, u128, u128))
    requires
        buckets.well_formed(),
    ensures
        totals.0 == sums(bucket_list(buckets@)).0,
        totals.1 == sums(bucket_list(buckets@)).1,
        totals.2 == sums(bucket_list(buckets@)).2,
{
    let entries = buckets.entries();
    let ghost list = bucket_list(buckets@);
    proof {
        ordered::lemma_keys_in_order(entries@);
        assert forall|i: int| 0 <= i < entries@.len() implies #[trigger] list[i] == entries@[i].1 by {
            ordered::lemma_entry_in_map(entries@, i);
            assert(ordered::keys_of(entries@)[i] == entries@[i].0);
        }
    }
    let mut send: u128 = 0;
    let mut receive: u128 = 0;
    let mut count: u128 = 0;
    let n: usize = entries.len();
    assert(list.take(0) =~= Seq::<SessionBucket>::empty());
    let mut i: usize = 0;
    while i < n
        invariant
            i <= n,
            n == entries@.len(),
            list.len() == n,
            forall|j: int| 0 <= j < n ==> #[trigger] list[j] == entries@[j].1,
            send == sums(list.take(i as int)).0,
            receive == sums(list.take(i as int)).1,
            count == sums(list.take(i as int)).2,
            send <= i * 0xFFFF_FFFF_FFFF_FFFF,
            receive <= i * 0xFFFF_FFFF_FFFF_FFFF,
            count <= i * 0xFFFF_FFFF_FFFF_FFFF,
        decreases n - i,
    {
        assert(list.take(i + 1).drop_last() =~= list.take(i as int));
        assert(list[i as int] == entries@[i as int].1);
        let bucket = entries[i].1;
        send = send + bucket.send_bytes as u128;
        receive = receive + bucket.receive_bytes as u128;
        count = count + bucket.event_count as u128;
        i = i + 1;
    }
    assert(list.take(n as int) =~= list);
    (send, receive, count)
}

/// A session's record with the sums of its buckets.
pub open spec fn with_totals(
    record: SessionRecord,
    buckets: Map<u64, SessionBucket>,
) -> SessionRecord {
    let totals = sums(bucket_list(buckets));
    SessionRecord {
        send_bytes: totals.0 as u64,
        receive_bytes: totals.1 as u64,
        event_count: totals.2 as u64,
        ..record
    }
}

/// A session with a batch of rows.
pub open spec fn session_with(
    session: StoredView,
    buckets: Seq<SessionBucket>,
    processes: Seq<ProcessSessionSummary>,
    endpoints: Seq<EndpointSummary>,
) -> StoredView {
    let stored = buckets_with(session.buckets, buckets);
    StoredView {
        record: with_totals(session.record, stored),
        buckets: stored,
        processes: processes_with(session.processes, processes),
        endpoints: endpoints_with(session.endpoints, endpoints),
    }
}

/// Whether each row of a session stands under its own key, so that no two rows have one key.
pub open spec fn rows_keyed(session: StoredView) -> bool {
    &&& forall|start: u64| #[trigger]
        session.buckets.dom().contains(start) ==> session.buckets[start].start_unix_nanos == start
    &&& forall|key: (u32, u64)| #[trigger]
        session.processes.dom().contains(key) ==> process_key(session.processes[key]) == key
    &&& forall|key: (Seq<char>, (Seq<char>, Seq<char>))| #[trigger]
        session.endpoints.dom().contains(key) ==> endpoint_key(session.endpoints[key]) == key
}

proof fn lemma_buckets_keyed(stored: Map<u64, SessionBucket>, buckets: Seq<SessionBucket>)
    requires
        forall|start: u64| #[trigger]
            stored.dom().contains(start) ==> stored[start].start_unix_nanos == start,
    ensures
        forall|start: u64| #[trigger]
            buckets_with(stored, buckets).dom().contains(start) ==> buckets_with(
                stored,
                buckets,
            )[start].start_unix_nanos == start,
    decreases buckets.len(),
{
    if buckets.len() > 0 {
        lemma_buckets_keyed(stored, buckets.drop_last());
        let before = buckets_with(stored, buckets.drop_last());
        let after = buckets_with(stored, buckets);
        assert forall|start: u64| #[trigger] after.dom().contains(start) implies after[start].start_unix_nanos == start by {
            assert(before.dom().contains(start) || start == buckets.last().start_unix_nanos);
        }
    }
}

proof fn lemma_processes_keyed(
    stored: Map<(u32, u64), ProcessSessionSummary>,
    processes: Seq<ProcessSessionSummary>,
)
    requires
        forall|key: (u32, u64)| #[trigger]
            stored.dom().contains(key) ==> process_key(stored[key]) == key,
    ensures
        forall|key: (u32, u64)| #[trigger]
            processes_with(stored, processes).dom().contains(key) ==> process_key(
                processes_with(stored, processes)[key],
            ) == key,
    decreases processes.len(),
{
    if processes.len() > 0 {
        lemma_processes_keyed(stored, processes.drop_last());
        let before = processes_with(stored, processes.drop_last());
        let after = processes_with(stored, processes);
        assert forall|key: (u32, u64)| #[trigger] after.dom().contains(key) implies process_key(after[key]) == key by {
            assert(before.dom().contains(key) || key == process_key(processes.last()));
        }
    }
}

proof fn lemma_endpoints_keyed(
    stored: Map<(Seq<char>, (Seq<char>, Seq<char>)), EndpointSummary>,
    endpoints: Seq<EndpointSummary>,
)
    requires
        forall|key: (Seq<char>, (Seq<char>, Seq<char>))| #[trigger]
            stored.dom().contains(key) ==> endpoint_key(stored[key]) == key,
    ensures
        forall|key: (Seq<char>, (Seq<char>, Seq<char>))| #[trigger]
            endpoints_with(stored, endpoints).dom().contains(key) ==> endpoint_key(
                endpoints_with(stored, endpoints)[key],
            ) == key,
    decreases endpoints.len(),
{
    if endpoints.len() > 0 {
        lemma_endpoints_keyed(stored, endpoints.drop_last());
        let before = endpoints_with(stored, endpoints.drop_last());
        let after = endpoints_with(stored, endpoints);
        assert forall|key: (Seq<char>, (Seq<char>, Seq<char>))| #[trigger] after.dom().contains(key) implies endpoint_key(after[key]) == key by {
            assert(before.dom().contains(key) || key == endpoint_key(endpoints.last()));
        }
    }
}

/// A session that has just begun.
pub open spec fn begun(
    id: i64,
    name: Seq<char>,
    notes: Seq<char>,
    started: u64,
    session: StoredView,
) -> bool {
    &&& session.record.id == SessionId(id)
    &&& session.record.name@ == text::trimmed(name)
    &&& session.record.notes@ == text::trimmed(notes)
    &&& session.record.started_at_unix_nanos == started
    &&& session.record.ended_at_unix_nanos is None
    &&& session.record.status == SessionStatus::Recording
    &&& session.record.send_bytes == 0
    &&& session.record.receive_bytes == 0
    &&& session.record.event_count == 0
    &&& session.buckets == Map::<u64, SessionBucket>::empty()
    &&& session.processes == Map::<(u32, u64), ProcessSessionSummary>::empty()
    &&& session.endpoints == Map::<(Seq<char>, (Seq<char>, Seq<char>)), EndpointSummary>::empty()
}

impl StoredSession {
    /// The rows stand in order.
    pub open spec fn well_formed(&self) -> bool {
        self.buckets.well_formed() && self.processes.well_formed() && self.endpoints.well_formed()
    }

    fn begin(id: i64, name: &str, notes: &str, started: u64) -> (session: StoredSession)
        ensures
            session.well_formed(),
            begun(id, name@, notes@, started, session@),
    {
        StoredSession {
            record: SessionRecord {
                id: SessionId(id),
                name: text::trim(name),
                notes: text::trim(notes),
                started_at_unix_nanos: started,
                ended_at_unix_nanos: None,
                status: SessionStatus::Recording,
                send_bytes: 0,
                receive_bytes: 0,
                event_count: 0,
            },
            buckets: SortedMap::new(),
            processes: SortedMap::new(),
            endpoints: SortedMap::new(),
        }
    }

    fn put_processes(&mut self, processes: &[ProcessSessionSummary])
        requires
            old(self).well_formed(),
        ensures
            final(self).well_formed(),
            final(self)@ == (StoredView {
                processes: processes_with(old(self)@.processes, processes@),
                ..old(self)@
            }),
    {
        let ghost before = self@;
        assert(processes@.take(0) =~= Seq::<ProcessSessionSummary>::empty());
        for i in 0..processes.len()
            invariant
                self.well_formed(),
                self@ == (StoredView {
                    processes: processes_with(before.processes, processes@.take(i as int)),
                    ..before
                }),
        {
            assert(processes@.take(i + 1).drop_last() =~= processes@.take(i as int));
            let new = &processes[i];
            let key: ProcessRowKey = (new.pid, new.started_at_unix_nanos);
            let row = match self.processes.get(&key) {
                Some(stored) => merge_process(stored, new),
                None => copy_process(new),
            };
            self.processes.insert(key, row);
        }
        assert(processes@.take(processes@.len() as int) =~= processes@);
    }

    fn put_endpoints(&mut self, endpoints: &[EndpointSummary])
        requires
            old(self).well_formed(),
        ensures
            final(self).well_formed(),
            final(self)@ == (StoredView {
                endpoints: endpoints_with(old(self)@.endpoints, endpoints@),
                ..old(self)@
            }),
    {
        let ghost before = self@;
        assert(endpoints@.take(0) =~= Seq::<EndpointSummary>::empty());
        for i in 0..endpoints.len()
            invariant
                self.well_formed(),
                self@ == (StoredView {
                    endpoints: endpoints_with(before.endpoints, endpoints@.take(i as int)),
                    ..before
                }),
        {
            assert(endpoints@.take(i + 1).drop_last() =~= endpoints@.take(i as int));
            let new = &endpoints[i];
            let key: EndpointRowKey = (
                new.protocol.clone(),
                (new.remote_address.clone(), new.process_name.clone()),
            );
            let row = match self.endpoints.get(&key) {
                Some(stored) => merge_endpoint(stored, new),
                None => copy_endpoint(new),
            };
            self.endpoints.insert(key, row);
        }
        assert(endpoints@.take(endpoints@.len() as int) =~= endpoints@);
    }
}

/// Buckets with more of them, or none where their sums would be too large.
fn put_buckets(stored: &SortedMap<u64, SessionBucket>, buckets: &[SessionBucket]) -> (r: Option<
    (SortedMap<u64, SessionBucket>, (u64, u64, u64)),
>)
    requires
        stored.well_formed(),
    ensures
        ({
            let totals = sums(bucket_list(buckets_with(stored@, buckets@)));
            match r {
                Some((merged, added)) => sums_fit(totals) && merged.well_formed() && merged@
                    == buckets_with(stored@, buckets@) && added.0 == totals.0 && added.1
                    == totals.1 && added.2 == totals.2,
                None => !sums_fit(totals),
            }
        }),
{
    let mut merged = stored.copied();
    assert(buckets@.take(0) =~= Seq::<SessionBucket>::empty());
    for i in 0..buckets.len()
        invariant
            merged.well_formed(),
            merged@ == buckets_with(stored@, buckets@.take(i as int)),
    {
        assert(buckets@.take(i + 1).drop_last() =~= buckets@.take(i as int));
        merged.insert(buckets[i].start_unix_nanos, buckets[i]);
    }
    assert(buckets@.take(buckets@.len() as int) =~= buckets@);
    let (send, receive, count): (u128, u128, u128) = add_up(&merged);
    let most: u128 = i64::MAX as u128;
    if send > most || receive > most || count > most {
        None
    } else {
        Some((merged, (send as u64, receive as u64, count as u64)))
    }
}

/// A row that can be copied.
trait Row: Sized {
    fn duplicate(&self) -> (copy: Self)
        ensures
            copy == *self,
    ;
}

impl Row for SessionBucket {
    fn duplicate(&self) -> (copy: Self) {
        *self
    }
}

impl Row for ProcessSessionSummary {
    fn duplicate(&self) -> (copy: Self) {
        copy_process(self)
    }
}

impl Row for EndpointSummary {
    fn duplicate(&self) -> (copy: Self) {
        copy_endpoint(self)
    }
}

impl Row for AlertRecord {
    fn duplicate(&self) -> (copy: Self) {
        copy_alert(self)
    }
}

impl Row for SessionRecord {
    fn duplicate(&self) -> (copy: Self) {
        self.clone()
    }
}

/// The values of a map, in the order of their keys.
pub open spec fn row_list<K: OrderedKey, T>(rows: Map<K::V, T>) -> Seq<T> {
    let keys = ordered::ordered_list::<K>(rows.dom());
    Seq::new(keys.len(), |i: int| rows[keys[i]])
}

/// The values of a run of entries.
spec fn values_of<K: OrderedKey, T>(entries: Seq<(K, T)>) -> Seq<T> {
    Seq::new(entries.len(), |i: int| entries[i].1)
}

proof fn lemma_row_list<K: OrderedKey, T>(entries: Seq<(K, T)>)
    requires
        ordered::increasing(entries),
    ensures
        row_list::<K, T>(ordered::map_of(entries)) == values_of(entries),
{
    ordered::lemma_keys_in_order(entries);
    let list = row_list::<K, T>(ordered::map_of(entries));
    assert forall|i: int| 0 <= i < entries.len() implies #[trigger] list[i] == entries[i].1 by {
        ordered::lemma_entry_in_map(entries, i);
        assert(ordered::keys_of(entries)[i] == entries[i].0@);
    }
    assert(list =~= values_of(entries));
}

fn rows_of<K: OrderedKey, T: Row>(map: &SortedMap<K, T>) -> (rows: Vec<T>)
    requires
        map.well_formed(),
    ensures
        rows@ == row_list::<K, T>(map@),
{
    let entries = map.entries();
    let mut rows: Vec<T> = Vec::new();
    for i in 0..entries.len()
        invariant
            rows@ == values_of(entries@).take(i as int),
    {
        rows.push(entries[i].1.duplicate());
        assert(values_of(entries@).take(i + 1) =~= values_of(entries@).take(i as int).push(
            entries@[i as int].1,
        ));
    }
    proof {
        lemma_row_list(entries@);
        assert(values_of(entries@).take(entries@.len() as int) =~= values_of(entries@));
    }
    rows
}

/// Rows in the order of a key that each has; of equal keys, the row that stood first comes first.
pub open spec fn arranged<S: OrderedKey, T>(rows: Seq<T>, keys: Seq<S::V>) -> Seq<T> {
    let places = ordered::places_in_order::<S>(keys);
    Seq::new(places.len(), |i: int| rows[places[i] as int])
}

fn arrange<T: Row, S: OrderedKey>(rows: &[T], keys: Vec<S>) -> (list: Vec<T>)
    requires
        rows@.len() == keys@.len(),
    ensures
        list@ == arranged::<S, T>(rows@, ordered::key_views(keys@)),
{
    let ghost views = ordered::key_views(keys@);
    let places = ordered::sort_places_by(keys);
    let mut list: Vec<T> = Vec::new();
    for i in 0..places.len()
        invariant
            places@ == ordered::places_in_order::<S>(views),
            forall|j: int| 0 <= j < places@.len() ==> (#[trigger] places@[j]) < rows@.len(),
            list@ == arranged::<S, T>(rows@, views).take(i as int),
    {
        let place: usize = places[i];
        list.push(rows[place].duplicate());
        assert(arranged::<S, T>(rows@, views).take(i + 1) =~= arranged::<S, T>(rows@, views).take(
            i as int,
        ).push(rows@[place as int]));
    }
    assert(arranged::<S, T>(rows@, views).take(places@.len() as int) =~= arranged::<S, T>(
        rows@,
        views,
    ));
    list
}

/// All that is stored.
#[derive(Debug)]
pub struct Database {
    sessions: SortedMap<i64, StoredSession>,
    alerts: SortedMap<i64, AlertRecord>,
    settings: SortedMap<String, String>,
}

/// All that is stored, as a value.
#[verifier::ext_equal]
pub struct DatabaseView {
    pub sessions: Map<i64, StoredView>,
    pub alerts: Map<i64, AlertRecord>,
    pub settings: Map<Seq<char>, String>,
}

spec fn sessions_of(sessions: Map<i64, StoredSession>) -> Map<i64, StoredView> {
    Map::new(|id: i64| sessions.dom().contains(id), |id: i64| sessions[id]@)
}

impl View for Database {
    type V = DatabaseView;

    closed spec fn view(&self) -> DatabaseView {
        DatabaseView {
            sessions: sessions_of(self.sessions@),
            alerts: self.alerts@,
            settings: self.settings@,
        }
    }
}

/// A number that a signed integer cannot hold.
pub open spec fn number_failure(value: u64) -> Option<StorageErrorView> {
    if value > i64::MAX {
        Some(StorageErrorView::InvalidData(storage::too_large(value)))
    } else {
        None
    }
}

/// What is said of a row whose session is not there.
pub open spec fn no_session() -> StorageErrorView {
    StorageErrorView::Database("FOREIGN KEY constraint failed"@)
}

/// What is wrong with a row: the first number that is too large, or that its session is not there.
pub open spec fn row_failure(
    values: Seq<u64>,
    fits: bool,
    known: bool,
) -> Option<StorageErrorView> {
    if !fits {
        Some(StorageErrorView::InvalidData(storage::too_large(storage::first_too_large(values))))
    } else if !known {
        Some(no_session())
    } else {
        None
    }
}

/// What is wrong with the first bucket that cannot be stored.
pub open spec fn buckets_failure(buckets: Seq<SessionBucket>, known: bool) -> Option<
    StorageErrorView,
>
    decreases buckets.len(),
{
    if buckets.len() == 0 {
        None
    } else if buckets_failure(buckets.drop_last(), known) is Some {
        buckets_failure(buckets.drop_last(), known)
    } else {
        let b = buckets.last();
        row_failure(
            seq![b.start_unix_nanos, b.send_bytes, b.receive_bytes, b.event_count],
            storage::bucket_fits(b),
            known,
        )
    }
}

/// What is wrong with the first process that cannot be stored.
pub open spec fn processes_failure(processes: Seq<ProcessSessionSummary>, known: bool) -> Option<
    StorageErrorView,
>
    decreases processes.len(),
{
    if processes.len() == 0 {
        None
    } else if processes_failure(processes.drop_last(), known) is Some {
        processes_failure(processes.drop_last(), known)
    } else {
        let p = processes.last();
        row_failure(
            seq![p.started_at_unix_nanos, p.send_bytes, p.receive_bytes, p.connection_count],
            storage::process_fits(p),
            known,
        )
    }
}

/// What is wrong with the first endpoint that cannot be stored.
pub open spec fn endpoints_failure(endpoints: Seq<EndpointSummary>, known: bool) -> Option<
    StorageErrorView,
>
    decreases endpoints.len(),
{
    if endpoints.len() == 0 {
        None
    } else if endpoints_failure(endpoints.drop_last(), known) is Some {
        endpoints_failure(endpoints.drop_last(), known)
    } else {
        let e = endpoints.last();
        row_failure(
            seq![e.first_seen_unix_nanos, e.last_seen_unix_nanos, e.connection_count],
            storage::endpoint_fits(e),
            known,
        )
    }
}

/// Alerts with more of them; one whose identity is taken is left out.
pub open spec fn alerts_with(
    stored: Map<i64, AlertRecord>,
    alerts: Seq<AlertRecord>,
) -> Map<i64, AlertRecord>
    decreases alerts.len(),
{
    if alerts.len() == 0 {
        stored
    } else {
        let before = alerts_with(stored, alerts.drop_last());
        if before.dom().contains(alerts.last().id) {
            before
        } else {
            before.insert(alerts.last().id, alerts.last())
        }
    }
}

/// What is wrong with the first alert that cannot be stored. One whose identity is taken is not
/// looked at further.
pub open spec fn alerts_failure(
    stored: Map<i64, AlertRecord>,
    sessions: Set<i64>,
    alerts: Seq<AlertRecord>,
) -> Option<StorageErrorView>
    decreases alerts.len(),
{
    if alerts.len() == 0 {
        None
    } else if alerts_failure(stored, sessions, alerts.drop_last()) is Some {
        alerts_failure(stored, sessions, alerts.drop_last())
    } else {
        let alert = alerts.last();
        if alert.occurred_at_unix_nanos > i64::MAX {
            number_failure(alert.occurred_at_unix_nanos)
        } else if alerts_with(stored, alerts.drop_last()).dom().contains(alert.id)
            || sessions.contains(alert.session_id.0) {
            None
        } else {
            Some(no_session())
        }
    }
}

/// Why a batch is not stored: the first row that is wrong, or sums that are too large.
pub open spec fn batch_failure(
    database: DatabaseView,
    id: i64,
    buckets: Seq<SessionBucket>,
    processes: Seq<ProcessSessionSummary>,
    endpoints: Seq<EndpointSummary>,
    alerts: Seq<AlertRecord>,
) -> Option<StorageErrorView> {
    let known = database.sessions.dom().contains(id);
    if buckets_failure(buckets, known) is Some {
        buckets_failure(buckets, known)
    } else if processes_failure(processes, known) is Some {
        processes_failure(processes, known)
    } else if endpoints_failure(endpoints, known) is Some {
        endpoints_failure(endpoints, known)
    } else if alerts_failure(database.alerts, database.sessions.dom(), alerts) is Some {
        alerts_failure(database.alerts, database.sessions.dom(), alerts)
    } else if known && !sums_fit(
        sums(bucket_list(buckets_with(database.sessions[id].buckets, buckets))),
    ) {
        Some(StorageErrorView::Database("integer overflow"@))
    } else {
        None
    }
}

/// What is stored once a batch is.
pub open spec fn with_batch(
    database: DatabaseView,
    id: i64,
    buckets: Seq<SessionBucket>,
    processes: Seq<ProcessSessionSummary>,
    endpoints: Seq<EndpointSummary>,
    alerts: Seq<AlertRecord>,
) -> DatabaseView {
    DatabaseView {
        sessions: if database.sessions.dom().contains(id) {
            database.sessions.insert(
                id,
                session_with(database.sessions[id], buckets, processes, endpoints),
            )
        } else {
            database.sessions
        },
        alerts: alerts_with(database.alerts, alerts),
        settings: database.settings,
    }
}

/// Whether an outcome is a failure as expected, or a success where none is.
pub open spec fn fails_as<T>(r: Result<T, StorageError>, failure: Option<StorageErrorView>) -> bool {
    match (r, failure) {
        (Err(error), Some(expected)) => error@ == expected,
        (Ok(_), None) => true,
        _ => false,
    }
}

/// What a session is listed by: the last to start comes first.
pub open spec fn start_order(record: SessionRecord) -> u64 {
    (u64::MAX - record.started_at_unix_nanos) as u64
}

/// The records of all sessions, by identity.
pub open spec fn records(sessions: Map<i64, StoredView>) -> Seq<SessionRecord> {
    let stored = row_list::<i64, StoredView>(sessions);
    Seq::new(stored.len(), |i: int| stored[i].record)
}

/// The records of all sessions, the last to start first.
pub open spec fn newest_first(sessions: Map<i64, StoredView>) -> Seq<SessionRecord> {
    let rows = records(sessions);
    arranged::<u64, SessionRecord>(rows, Seq::new(rows.len(), |i: int| start_order(rows[i])))
}

/// What a process's row is listed by: the most traffic first, then the name.
pub open spec fn traffic_order(process: ProcessSessionSummary) -> (u128, Seq<char>) {
    (
        (u128::MAX - (process.send_bytes + process.receive_bytes)) as u128,
        process.name@,
    )
}

/// The processes of a session, those with the most traffic first.
pub open spec fn processes_listed(session: StoredView) -> Seq<ProcessSessionSummary> {
    let rows = row_list::<ProcessRowKey, ProcessSessionSummary>(session.processes);
    arranged::<(u128, String), ProcessSessionSummary>(
        rows,
        Seq::new(rows.len(), |i: int| traffic_order(rows[i])),
    )
}

/// What an endpoint's row is listed by: the last seen first, then the address.
pub open spec fn seen_order(endpoint: EndpointSummary) -> (u64, Seq<char>) {
    ((u64::MAX - endpoint.last_seen_unix_nanos) as u64, endpoint.remote_address@)
}

/// The endpoints of a session, the last seen first.
pub open spec fn endpoints_listed(session: StoredView) -> Seq<EndpointSummary> {
    let rows = row_list::<EndpointRowKey, EndpointSummary>(session.endpoints);
    arranged::<(u64, String), EndpointSummary>(
        rows,
        Seq::new(rows.len(), |i: int| seen_order(rows[i])),
    )
}

/// What an alert is listed by: the last to occur first, of those the one of the largest identity.
pub open spec fn alert_order(alert: AlertRecord) -> (u64, i64) {
    ((u64::MAX - alert.occurred_at_unix_nanos) as u64, (-1 - alert.id) as i64)
}

/// The alerts of a session, the last to occur first.
pub open spec fn alerts_listed(alerts: Map<i64, AlertRecord>, id: SessionId) -> Seq<AlertRecord> {
    let rows = row_list::<i64, AlertRecord>(alerts).filter(
        |alert: AlertRecord| alert.session_id == id,
    );
    arranged::<(u64, i64), AlertRecord>(
        rows,
        Seq::new(rows.len(), |i: int| alert_order(rows[i])),
    )
}

/// Whether all that is stored of a session is told.
pub open spec fn tells(detail: SessionDetail, database: DatabaseView, id: SessionId) -> bool {
    let session = database.sessions[id.0];
    &&& detail.session == session.record
    &&& detail.buckets@ == bucket_list(session.buckets)
    &&& detail.processes@ == processes_listed(session)
    &&& detail.endpoints@ == endpoints_listed(session)
    &&& detail.alerts@ == alerts_listed(database.alerts, id)
}

/// Whether an identity comes next: one more than the largest, or one where there is none.
pub open spec fn is_next(id: i64, taken: Set<i64>) -> bool {
    &&& forall|other: i64| #[trigger] taken.contains(other) ==> other < id
    &&& if taken == Set::<i64>::empty() {
        id == 1
    } else {
        taken.contains((id - 1) as i64)
    }
}

/// Whether an identity is the smallest positive one that is free.
pub open spec fn is_free(id: i64, taken: Set<i64>) -> bool {
    &&& id > 0
    &&& !taken.contains(id)
    &&& forall|k: i64| 0 < k < id ==> #[trigger] taken.contains(k)
}

/// Whether no positive identity is free.
pub open spec fn all_taken(taken: Set<i64>) -> bool {
    forall|k: i64| 0 < k ==> #[trigger] taken.contains(k)
}

/// Whether a session may have an identity: the next one or, once the largest is taken, a free one.
pub open spec fn may_have(id: i64, taken: Set<i64>) -> bool {
    if taken.contains(i64::MAX) {
        is_free(id, taken)
    } else {
        is_next(id, taken)
    }
}

/// Why a session is not begun: its time is too large, or no identity is left for it.
pub open spec fn start_failure(started_at: u64, taken: Set<i64>) -> Option<StorageErrorView> {
    if number_failure(started_at) is Some {
        number_failure(started_at)
    } else if all_taken(taken) {
        Some(StorageErrorView::Database("database or disk is full"@))
    } else {
        None
    }
}

/// A session that has come to its end.
pub open spec fn ended(session: StoredView, at: u64, status: SessionStatus) -> StoredView {
    StoredView {
        record: SessionRecord { ended_at_unix_nanos: Some(at), status, ..session.record },
        ..session
    }
}

/// Whether a session is being recorded.
pub open spec fn is_active(session: StoredView) -> bool {
    session.record.status == SessionStatus::Recording
}

/// The sessions that are being recorded.
pub open spec fn active(sessions: Map<i64, StoredView>) -> Set<i64> {
    sessions.dom().filter(|id: i64| is_active(sessions[id]))
}

/// What is stored once a session has come to its end.
pub open spec fn with_ended(
    database: DatabaseView,
    id: i64,
    at: u64,
    status: SessionStatus,
) -> DatabaseView {
    DatabaseView {
        sessions: database.sessions.insert(id, ended(database.sessions[id], at, status)),
        ..database
    }
}

/// What is stored once every session that was being recorded has been interrupted.
pub open spec fn recovered(database: DatabaseView, at: u64) -> DatabaseView {
    DatabaseView {
        sessions: Map::new(
            |id: i64| database.sessions.dom().contains(id),
            |id: i64|
                if is_active(database.sessions[id]) {
                    ended(database.sessions[id], at, SessionStatus::Interrupted)
                } else {
                    database.sessions[id]
                },
        ),
        ..database
    }
}

/// The sessions that ended before a moment.
pub open spec fn ended_before(sessions: Map<i64, StoredView>, cutoff: u64) -> Set<i64> {
    sessions.dom().filter(
        |id: i64| sessions[id].record.ended_at_unix_nanos matches Some(at) && at < cutoff,
    )
}

/// What is stored without some sessions and all that belongs to them.
pub open spec fn without(database: DatabaseView, gone: Set<i64>) -> DatabaseView {
    DatabaseView {
        sessions: database.sessions.remove_keys(gone),
        alerts: database.alerts.restrict(
            Set::new(|id: i64| !gone.contains(database.alerts[id].session_id.0)),
        ),
        settings: database.settings,
    }
}

/// Whether each alert belongs to a session that is stored.
pub open spec fn alerts_belong(database: DatabaseView) -> bool {
    forall|id: i64| #[trigger]
        database.alerts.dom().contains(id) ==> database.sessions.dom().contains(
            database.alerts[id].session_id.0,
        )
}

/// What is stored once a session with its rows is put back.
pub open spec fn with_restored(database: DatabaseView, detail: SessionDetail) -> DatabaseView {
    DatabaseView {
        sessions: database.sessions.insert(
            detail.session.id.0,
            StoredView {
                record: detail.session,
                buckets: buckets_with(Map::empty(), detail.buckets@),
                processes: processes_with(Map::empty(), detail.processes@),
                endpoints: endpoints_with(Map::empty(), detail.endpoints@),
            },
        ),
        alerts: alerts_with(database.alerts, detail.alerts@),
        settings: database.settings,
    }
}

proof fn lemma_new_alerts_belong(
    stored: Map<i64, AlertRecord>,
    sessions: Set<i64>,
    alerts: Seq<AlertRecord>,
)
    requires
        forall|id: i64| #[trigger]
            stored.dom().contains(id) ==> sessions.contains(stored[id].session_id.0),
        alerts_failure(stored, sessions, alerts) is None,
    ensures
        forall|id: i64| #[trigger]
            alerts_with(stored, alerts).dom().contains(id) ==> sessions.contains(
                alerts_with(stored, alerts)[id].session_id.0,
            ),
    decreases alerts.len(),
{
    if alerts.len() > 0 {
        lemma_new_alerts_belong(stored, sessions, alerts.drop_last());
    }
}

fn check_known(known: bool) -> (r: Result<(), StorageError>)
    ensures
        match r {
            Ok(_) => known,
            Err(error) => !known && error@ == no_session(),
        },
{
    if known {
        Ok(())
    } else {
        Err(StorageError::Database("FOREIGN KEY constraint failed".to_owned()))
    }
}

fn check_buckets(buckets: &[SessionBucket], known: bool) -> (r: Result<(), StorageError>)
    ensures
        fails_as(r, buckets_failure(buckets@, known)),
{
    assert(buckets@.take(0) =~= Seq::<SessionBucket>::empty());
    for i in 0..buckets.len()
        invariant
            buckets_failure(buckets@.take(i as int), known) is None,
    {
        assert(buckets@.take(i + 1).drop_last() =~= buckets@.take(i as int));
        let checked = match storage::encode_bucket(&buckets[i]) {
            Ok(_) => check_known(known),
            Err(error) => Err(error),
        };
        if let Err(error) = checked {
            proof {
                lemma_buckets_fail(buckets@, i + 1, known);
            }
            return Err(error);
        }
    }
    assert(buckets@.take(buckets@.len() as int) =~= buckets@);
    Ok(())
}

proof fn lemma_buckets_fail(buckets: Seq<SessionBucket>, n: int, known: bool)
    requires
        0 <= n <= buckets.len(),
        buckets_failure(buckets.take(n), known) is Some,
    ensures
        buckets_failure(buckets, known) == buckets_failure(buckets.take(n), known),
    decreases buckets.len() - n,
{
    if n < buckets.len() {
        assert(buckets.take(n + 1).drop_last() =~= buckets.take(n));
        lemma_buckets_fail(buckets, n + 1, known);
    } else {
        assert(buckets.take(n) =~= buckets);
    }
}

fn check_processes(processes: &[ProcessSessionSummary], known: bool) -> (r: Result<
    (),
    StorageError,
>)
    ensures
        fails_as(r, processes_failure(processes@, known)),
{
    assert(processes@.take(0) =~= Seq::<ProcessSessionSummary>::empty());
    for i in 0..processes.len()
        invariant
            processes_failure(processes@.take(i as int), known) is None,
    {
        assert(processes@.take(i + 1).drop_last() =~= processes@.take(i as int));
        let checked = match storage::encode_process(&processes[i]) {
            Ok(_) => check_known(known),
            Err(error) => Err(error),
        };
        if let Err(error) = checked {
            proof {
                lemma_processes_fail(processes@, i + 1, known);
            }
            return Err(error);
        }
    }
    assert(processes@.take(processes@.len() as int) =~= processes@);
    Ok(())
}

proof fn lemma_processes_fail(processes: Seq<ProcessSessionSummary>, n: int, known: bool)
    requires
        0 <= n <= processes.len(),
        processes_failure(processes.take(n), known) is Some,
    ensures
        processes_failure(processes, known) == processes_failure(processes.take(n), known),
    decreases processes.len() - n,
{
    if n < processes.len() {
        assert(processes.take(n + 1).drop_last() =~= processes.take(n));
        lemma_processes_fail(processes, n + 1, known);
    } else {
        assert(processes.take(n) =~= processes);
    }
}

fn check_endpoints(endpoints: &[EndpointSummary], known: bool) -> (r: Result<(), StorageError>)
    ensures
        fails_as(r, endpoints_failure(endpoints@, known)),
{
    assert(endpoints@.take(0) =~= Seq::<EndpointSummary>::empty());
    for i in 0..endpoints.len()
        invariant
            endpoints_failure(endpoints@.take(i as int), known) is None,
    {
        assert(endpoints@.take(i + 1).drop_last() =~= endpoints@.take(i as int));
        let checked = match storage::encode_endpoint(&endpoints[i]) {
            Ok(_) => check_known(known),
            Err(error) => Err(error),
        };
        if let Err(error) = checked {
            proof {
                lemma_endpoints_fail(endpoints@, i + 1, known);
            }
            return Err(error);
        }
    }
    assert(endpoints@.take(endpoints@.len() as int) =~= endpoints@);
    Ok(())
}

proof fn lemma_endpoints_fail(endpoints: Seq<EndpointSummary>, n: int, known: bool)
    requires
        0 <= n <= endpoints.len(),
        endpoints_failure(endpoints.take(n), known) is Some,
    ensures
        endpoints_failure(endpoints, known) == endpoints_failure(endpoints.take(n), known),
    decreases endpoints.len() - n,
{
    if n < endpoints.len() {
        assert(endpoints.take(n + 1).drop_last() =~= endpoints.take(n));
        lemma_endpoints_fail(endpoints, n + 1, known);
    } else {
        assert(endpoints.take(n) =~= endpoints);
    }
}

proof fn lemma_alerts_fail(
    stored: Map<i64, AlertRecord>,
    sessions: Set<i64>,
    alerts: Seq<AlertRecord>,
    n: int,
)
    requires
        0 <= n <= alerts.len(),
        alerts_failure(stored, sessions, alerts.take(n)) is Some,
    ensures
        alerts_failure(stored, sessions, alerts) == alerts_failure(
            stored,
            sessions,
            alerts.take(n),
        ),
    decreases alerts.len() - n,
{
    if n < alerts.len() {
        assert(alerts.take(n + 1).drop_last() =~= alerts.take(n));
        lemma_alerts_fail(stored, sessions, alerts, n + 1);
    } else {
        assert(alerts.take(n) =~= alerts);
    }
}

fn copy_alert(alert: &AlertRecord) -> (copy: AlertRecord)
    ensures
        copy == *alert,
{
    AlertRecord {
        id: alert.id,
        session_id: alert.session_id,
        occurred_at_unix_nanos: alert.occurred_at_unix_nanos,
        kind: alert.kind,
        title: alert.title.clone(),
        detail: alert.detail.clone(),
        process_name: text::copy_optional(&alert.process_name),
        remote_address: text::copy_optional(&alert.remote_address),
    }
}

fn put_alerts(stored: &mut SortedMap<i64, AlertRecord>, alerts: &[AlertRecord])
    requires
        old(stored).well_formed(),
    ensures
        final(stored).well_formed(),
        final(stored)@ == alerts_with(old(stored)@, alerts@),
{
    let ghost before = stored@;
    assert(alerts@.take(0) =~= Seq::<AlertRecord>::empty());
    for i in 0..alerts.len()
        invariant
            stored.well_formed(),
            stored@ == alerts_with(before, alerts@.take(i as int)),
    {
        assert(alerts@.take(i + 1).drop_last() =~= alerts@.take(i as int));
        if !stored.contains(&alerts[i].id) {
            stored.insert(alerts[i].id, copy_alert(&alerts[i]));
        }
    }
    assert(alerts@.take(alerts@.len() as int) =~= alerts@);
}

impl Database {
    /// Everything stands in order, and every session stands under its own identity.
    pub closed spec fn well_formed(&self) -> bool {
        &&& self.sessions.well_formed()
        &&& self.alerts.well_formed()
        &&& self.settings.well_formed()
        &&& forall|id: i64| #[trigger]
            self.sessions@.dom().contains(id) ==> self.sessions@[id].well_formed()
                && self.sessions@[id].record.id == SessionId(id) && rows_keyed(self.sessions@[id]@)
        &&& alerts_belong(self@)
    }

    /// What is stored of a session stands under the session's identity, each row under its own key,
    /// and there are finitely many rows; each alert belongs to a session that is stored.
    pub proof fn law_rows_stand_under_their_keys(&self, id: i64)
        requires
            self.well_formed(),
            self@.sessions.dom().contains(id),
        ensures
            self@.sessions[id].record.id == SessionId(id),
            rows_keyed(self@.sessions[id]),
            self@.sessions[id].buckets.dom().finite(),
            self@.sessions[id].processes.dom().finite(),
            self@.sessions[id].endpoints.dom().finite(),
            alerts_belong(self@),
    {
        let session = self.sessions@[id];
        ordered::lemma_listing_length(session.buckets.listing());
        ordered::lemma_listing_length(session.processes.listing());
        ordered::lemma_listing_length(session.endpoints.listing());
    }

    /// Nothing is stored.
    pub fn open_in_memory() -> (database: Database)
        ensures
            database.well_formed(),
            database@ == (DatabaseView {
                sessions: Map::empty(),
                alerts: Map::empty(),
                settings: Map::empty(),
            }),
    {
        let database = Database {
            sessions: SortedMap::new(),
            alerts: SortedMap::new(),
            settings: SortedMap::new(),
        };
        assert(database@.sessions =~= Map::<i64, StoredView>::empty());
        database
    }

    /// The version of the tables.
    pub fn schema_version(&self) -> (version: i64)
        ensures
            version == storage::SCHEMA_VERSION,
    {
        storage::SCHEMA_VERSION
    }

    fn check_alerts(&self, alerts: &[AlertRecord]) -> (r: Result<(), StorageError>)
        requires
            self.well_formed(),
        ensures
            fails_as(r, alerts_failure(self@.alerts, self@.sessions.dom(), alerts@)),
    {
        let mut taken: SortedMap<i64, bool> = SortedMap::new();
        let ghost stored = self@.alerts;
        let ghost known = self@.sessions.dom();
        let ghost mut there = stored;
        assert(alerts@.take(0) =~= Seq::<AlertRecord>::empty());
        for i in 0..alerts.len()
            invariant
                self.well_formed(),
                taken.well_formed(),
                stored == self@.alerts,
                known == self@.sessions.dom(),
                alerts_failure(stored, known, alerts@.take(i as int)) is None,
                there == alerts_with(stored, alerts@.take(i as int)),
                forall|id: i64|
                    #![trigger taken@.dom().contains(id)]
                    #![trigger there.dom().contains(id)]
                    there.dom().contains(id) <==> (stored.dom().contains(id)
                        || taken@.dom().contains(id)),
        {
            assert(alerts@.take(i + 1).drop_last() =~= alerts@.take(i as int));
            let alert = &alerts[i];
            let checked = match storage::to_i64(alert.occurred_at_unix_nanos) {
                Ok(_) => {
                    if self.alerts.contains(&alert.id) || taken.contains(&alert.id) {
                        Ok(())
                    } else {
                        check_known(self.sessions.contains(&alert.session_id.0))
                    }
                },
                Err(error) => Err(error),
            };
            match checked {
                Err(error) => {
                    proof {
                        lemma_alerts_fail(stored, known, alerts@, i + 1);
                    }
                    return Err(error);
                },
                Ok(_) => {
                    taken.insert(alert.id, true);
                    proof {
                        there = alerts_with(stored, alerts@.take(i + 1));
                    }
                },
            }
        }
        assert(alerts@.take(alerts@.len() as int) =~= alerts@);
        Ok(())
    }

    /// Stores a batch of rows of a session, all or none of them.
    pub fn append_batch(
        &mut self,
        session_id: SessionId,
        buckets: &[SessionBucket],
        processes: &[ProcessSessionSummary],
        endpoints: &[EndpointSummary],
        alerts: &[AlertRecord],
    ) -> (r: Result<(), StorageError>)
        requires
            old(self).well_formed(),
        ensures
            final(self).well_formed(),
            fails_as(
                r,
                batch_failure(
                    old(self)@,
                    session_id.0,
                    buckets@,
                    processes@,
                    endpoints@,
                    alerts@,
                ),
            ),
            final(self)@ == (if r is Ok {
                with_batch(old(self)@, session_id.0, buckets@, processes@, endpoints@, alerts@)
            } else {
                old(self)@
            }),
    {
        let id: i64 = session_id.0;
        let known = self.sessions.contains(&id);
        if let Err(error) = check_buckets(buckets, known) {
            return Err(error);
        }
        if let Err(error) = check_processes(processes, known) {
            return Err(error);
        }
        if let Err(error) = check_endpoints(endpoints, known) {
            return Err(error);
        }
        if let Err(error) = self.check_alerts(alerts) {
            return Err(error);
        }
        let ghost before = self@;
        if known {
            let merged = match self.sessions.get(&id) {
                Some(session) => put_buckets(&session.buckets, buckets),
                None => None,
            };
            let (stored, totals) = match merged {
                Some(found) => found,
                None => {
                    return Err(StorageError::Database("integer overflow".to_owned()));
                },
            };
            let session = self.sessions.at(&id);
            session.buckets = stored;
            session.record.send_bytes = totals.0;
            session.record.receive_bytes = totals.1;
            session.record.event_count = totals.2;
            session.put_processes(processes);
            session.put_endpoints(endpoints);
            proof {
                assert(rows_keyed(before.sessions[id]));
                lemma_buckets_keyed(before.sessions[id].buckets, buckets@);
                lemma_processes_keyed(before.sessions[id].processes, processes@);
                lemma_endpoints_keyed(before.sessions[id].endpoints, endpoints@);
            }
            assert(self@.sessions =~= before.sessions.insert(
                id,
                session_with(before.sessions[id], buckets@, processes@, endpoints@),
            ));
        }
        proof {
            lemma_new_alerts_belong(before.alerts, before.sessions.dom(), alerts@);
        }
        put_alerts(&mut self.alerts, alerts);
        assert(self@ =~= with_batch(before, id, buckets@, processes@, endpoints@, alerts@));
        Ok(())
    }

    /// The smallest positive identity that no session has.
    fn free_id(&self) -> (found: Option<i64>)
        requires
            self.well_formed(),
        ensures
            match found {
                Some(id) => is_free(id, self@.sessions.dom()),
                None => all_taken(self@.sessions.dom()),
            },
    {
        let entries = self.sessions.entries();
        let ghost taken = self@.sessions.dom();
        let mut id: i64 = 1;
        let mut i: usize = 0;
        while i < entries.len()
            invariant
                self.well_formed(),
                taken == self@.sessions.dom(),
                entries@ == self.sessions.listing(),
                i <= entries@.len(),
                id > 0,
                forall|k: i64| 0 < k < id ==> #[trigger] taken.contains(k),
                forall|j: int| 0 <= j < i ==> (#[trigger] entries@[j]).0 < id,
            decreases entries@.len() - i,
        {
            let key: i64 = entries[i].0;
            proof {
                ordered::lemma_entry_in_map(entries@, i as int);
                assert(taken.contains(key));
            }
            if key == i64::MAX && id == i64::MAX {
                return None;
            }
            if key == id {
                id = id + 1;
            } else if key > id {
                assert(!taken.contains(id)) by {
                    if taken.contains(id) {
                        let j = choose|j: int|
                            0 <= j < entries@.len() && (#[trigger] entries@[j]).0@ == id;
                        if j > i {
                            assert(i64::before(entries@[i as int].0@, entries@[j].0@));
                        }
                    }
                }
                return Some(id);
            }
            i += 1;
        }
        assert(!taken.contains(id)) by {
            if taken.contains(id) {
                let j = choose|j: int|
                    0 <= j < entries@.len() && (#[trigger] entries@[j]).0@ == id;
                assert(entries@[j].0 < id);
            }
        }
        Some(id)
    }

    fn next_id(&self) -> (id: i64)
        requires
            self.well_formed(),
            !self@.sessions.dom().contains(i64::MAX),
        ensures
            is_next(id, self@.sessions.dom()),
    {
        let entries = self.sessions.entries();
        let count: usize = entries.len();
        if count == 0 {
            assert(self@.sessions.dom() =~= Set::<i64>::empty());
            return 1;
        }
        proof {
            ordered::lemma_entry_in_map(entries@, count - 1);
            assert forall|other: i64| #[trigger]
                self@.sessions.dom().contains(other) implies other <= entries@[count - 1].0 by {
                let i = choose|i: int|
                    0 <= i < entries@.len() && (#[trigger] entries@[i]).0@ == other;
                assert(i == count - 1 || i64::before(entries@[i].0@, entries@[count - 1].0@));
            }
            assert(self@.sessions.dom().contains(entries@[count - 1].0));
        }
        entries[count - 1].0 + 1
    }

    /// Begins a session. Its name and notes are stored without the white space round them.
    pub fn start_session(&mut self, name: &str, notes: &str, started_at_unix_nanos: u64) -> (r:
        Result<SessionId, StorageError>)
        requires
            old(self).well_formed(),
        ensures
            final(self).well_formed(),
            fails_as(r, start_failure(started_at_unix_nanos, old(self)@.sessions.dom())),
            match r {
                Ok(id) => {
                    let session = final(self)@.sessions[id.0];
                    &&& may_have(id.0, old(self)@.sessions.dom())
                    &&& begun(id.0, name@, notes@, started_at_unix_nanos, session)
                    &&& final(self)@ == (DatabaseView {
                        sessions: old(self)@.sessions.insert(id.0, session),
                        ..old(self)@
                    })
                },
                Err(_) => final(self)@ == old(self)@,
            },
    {
        if let Err(error) = storage::to_i64(started_at_unix_nanos) {
            return Err(error);
        }
        let ghost before = self@;
        let id: i64 = if self.sessions.contains(&i64::MAX) {
            match self.free_id() {
                Some(id) => id,
                None => {
                    return Err(StorageError::Database("database or disk is full".to_owned()));
                },
            }
        } else {
            assert(!self@.sessions.dom().contains(i64::MAX));
            self.next_id()
        };
        let session = StoredSession::begin(id, name, notes, started_at_unix_nanos);
        let ghost stored = session@;
        self.sessions.insert(id, session);
        assert(self@.sessions =~= before.sessions.insert(id, stored));
        Ok(SessionId(id))
    }

    /// Ends a session that is being recorded, and says whether it was.
    pub fn finish_session(
        &mut self,
        id: SessionId,
        ended_at_unix_nanos: u64,
        status: SessionStatus,
    ) -> (r: Result<bool, StorageError>)
        requires
            old(self).well_formed(),
        ensures
            final(self).well_formed(),
            fails_as(
                r,
                if status == SessionStatus::Recording {
                    Some(
                        StorageErrorView::InvalidData(
                            "finished session cannot retain recording status"@,
                        ),
                    )
                } else {
                    number_failure(ended_at_unix_nanos)
                },
            ),
            r matches Ok(changed) ==> changed == active(old(self)@.sessions).contains(id.0),
            final(self)@ == (if r == Ok::<bool, StorageError>(true) {
                with_ended(old(self)@, id.0, ended_at_unix_nanos, status)
            } else {
                old(self)@
            }),
    {
        if let Err(error) = storage::check_final_status(status) {
            return Err(error);
        }
        if let Err(error) = storage::to_i64(ended_at_unix_nanos) {
            return Err(error);
        }
        let ghost before = self@;
        let recording = match self.sessions.get(&id.0) {
            Some(session) => session.record.status == SessionStatus::Recording,
            None => false,
        };
        if recording {
            let session = self.sessions.at(&id.0);
            session.record.ended_at_unix_nanos = Some(ended_at_unix_nanos);
            session.record.status = status;
            assert(self@.sessions =~= before.sessions.insert(
                id.0,
                ended(before.sessions[id.0], ended_at_unix_nanos, status),
            ));
        }
        Ok(recording)
    }

    fn chosen<F: Fn(&SessionRecord) -> bool>(
        &self,
        choice: F,
        Ghost(wanted): Ghost<spec_fn(SessionRecord) -> bool>,
    ) -> (ids: Vec<i64>)
        requires
            self.well_formed(),
            forall|record: &SessionRecord| #[trigger] choice.requires((record,)),
            forall|record: &SessionRecord, r: bool| #[trigger]
                choice.ensures((record,), r) ==> r == wanted(*record),
        ensures
            ids@.no_duplicates(),
            ids@.to_set() == self@.sessions.dom().filter(
                |id: i64| wanted(self@.sessions[id].record),
            ),
            ids@.len() == ids@.to_set().len(),
    {
        let entries = self.sessions.entries();
        let mut ids: Vec<i64> = Vec::new();
        for i in 0..entries.len()
            invariant
                self.well_formed(),
                entries@ == self.sessions.listing(),
                forall|record: &SessionRecord| #[trigger] choice.requires((record,)),
                forall|record: &SessionRecord, r: bool| #[trigger]
                    choice.ensures((record,), r) ==> r == wanted(*record),
                ids@.no_duplicates(),
                forall|id: i64| #[trigger]
                    ids@.contains(id) <==> exists|j: int|
                        0 <= j < i && (#[trigger] entries@[j]).0 == id && wanted(
                            entries@[j].1.record,
                        ),
        {
            let ghost before = ids@;
            let ghost id = entries@[i as int].0;
            if choice(&entries[i].1.record) {
                ids.push(entries[i].0);
                proof {
                    assert(!before.contains(id)) by {
                        if before.contains(id) {
                            let j = choose|j: int|
                                0 <= j < i && (#[trigger] entries@[j]).0 == id && wanted(
                                    entries@[j].1.record,
                                );
                            assert(i64::before(entries@[j].0@, entries@[i as int].0@));
                        }
                    }
                    assert forall|other: i64| #[trigger] ids@.contains(other) <==> before.contains(
                        other,
                    ) || other == id by {
                        if before.contains(other) {
                            let k = before.index_of(other);
                            assert(ids@[k] == other);
                        }
                        if other == id {
                            assert(ids@[before.len() as int] == id);
                        }
                    }
                }
            }
        }
        proof {
            let set = self@.sessions.dom().filter(|id: i64| wanted(self@.sessions[id].record));
            assert forall|id: i64| #[trigger] ids@.to_set().contains(id) <==> set.contains(id) by {
                if ids@.contains(id) {
                    let j = choose|j: int|
                        0 <= j < entries@.len() && (#[trigger] entries@[j]).0 == id && wanted(
                            entries@[j].1.record,
                        );
                    ordered::lemma_entry_in_map(entries@, j);
                }
                if set.contains(id) {
                    let j = choose|j: int|
                        0 <= j < entries@.len() && (#[trigger] entries@[j]).0@ == id;
                    ordered::lemma_entry_in_map(entries@, j);
                    assert(entries@[j].0 == id);
                }
            }
            assert(ids@.to_set() =~= set);
            ids@.unique_seq_to_set();
        }
        ids
    }

    /// Interrupts every session that is being recorded, as after a shutdown that was not clean, and
    /// says how many there were.
    pub fn recover_interrupted_sessions(&mut self, recovered_at_unix_nanos: u64) -> (r: Result<
        usize,
        StorageError,
    >)
        requires
            old(self).well_formed(),
        ensures
            final(self).well_formed(),
            fails_as(r, number_failure(recovered_at_unix_nanos)),
            match r {
                Ok(count) => count == active(old(self)@.sessions).len() && final(self)@
                    == recovered(old(self)@, recovered_at_unix_nanos),
                Err(_) => final(self)@ == old(self)@,
            },
    {
        if let Err(error) = storage::to_i64(recovered_at_unix_nanos) {
            return Err(error);
        }
        let ghost before = self@;
        let recording = |record: &SessionRecord| -> (r: bool)
            ensures
                r == (record.status == SessionStatus::Recording)
            { record.status == SessionStatus::Recording };
        let ghost wanted = |record: SessionRecord| record.status == SessionStatus::Recording;
        let ids = self.chosen(recording, Ghost(wanted));
        proof {
            assert(active(before.sessions) =~= ids@.to_set());
        }
        for i in 0..ids.len()
            invariant
                self.well_formed(),
                ids@.no_duplicates(),
                ids@.to_set() == active(before.sessions),
                self@.alerts == before.alerts,
                self@.settings == before.settings,
                self@.sessions.dom() == before.sessions.dom(),
                forall|id: i64| #[trigger]
                    before.sessions.dom().contains(id) ==> self@.sessions[id] == (
                    if ids@.take(i as int).contains(id) {
                        ended(
                            before.sessions[id],
                            recovered_at_unix_nanos,
                            SessionStatus::Interrupted,
                        )
                    } else {
                        before.sessions[id]
                    }),
        {
            let id: i64 = ids[i];
            let ghost taken = ids@.take(i as int);
            let ghost step = self@;
            proof {
                assert(ids@.to_set().contains(id));
                assert(!taken.contains(id));
                assert forall|other: i64| #[trigger]
                    ids@.take(i + 1).contains(other) <==> taken.contains(other) || other == id by {
                    if taken.contains(other) {
                        let k = taken.index_of(other);
                        assert(ids@.take(i + 1)[k] == other);
                    }
                    if other == id {
                        assert(ids@.take(i + 1)[i as int] == id);
                    }
                    if ids@.take(i + 1).contains(other) {
                        let k = ids@.take(i + 1).index_of(other);
                        if k < i {
                            assert(taken[k] == other);
                        }
                    }
                }
            }
            let session = self.sessions.at(&id);
            session.record.ended_at_unix_nanos = Some(recovered_at_unix_nanos);
            session.record.status = SessionStatus::Interrupted;
            assert(self@.sessions =~= step.sessions.insert(
                id,
                ended(
                    before.sessions[id],
                    recovered_at_unix_nanos,
                    SessionStatus::Interrupted,
                ),
            ));
            assert(self@.sessions.dom() =~= before.sessions.dom());
        }
        proof {
            assert(ids@.take(ids@.len() as int) =~= ids@);
            assert forall|id: i64| #[trigger] before.sessions.dom().contains(id) implies ids@.contains(
                id,
            ) == is_active(before.sessions[id]) by {
                assert(ids@.to_set().contains(id) == active(before.sessions).contains(id));
            }
            assert(self@ =~= recovered(before, recovered_at_unix_nanos));
        }
        Ok(ids.len())
    }

    /// Forgets the sessions that the choice falls on, with all that belongs to them.
    fn drop_sessions(&mut self, gone: &SortedMap<i64, bool>)
        requires
            old(self).well_formed(),
            gone.well_formed(),
        ensures
            final(self).well_formed(),
            final(self)@ == without(old(self)@, gone@.dom()),
    {
        let ghost before = self@;
        let ghost held = self.sessions@;
        let keep_session = |id: &i64, session: &StoredSession| -> (r: bool)
            requires
                gone.well_formed(),
            ensures
                r == !gone@.dom().contains(*id)
            { !gone.contains(id) };
        let ghost kept_session = |id: i64, session: StoredSession| !gone@.dom().contains(id);
        self.sessions.retain(keep_session, Ghost(kept_session));
        let keep_alert = |id: &i64, alert: &AlertRecord| -> (r: bool)
            requires
                gone.well_formed(),
            ensures
                r == !gone@.dom().contains(alert.session_id.0)
            { !gone.contains(&alert.session_id.0) };
        let ghost kept_alert = |id: i64, alert: AlertRecord|
            !gone@.dom().contains(alert.session_id.0);
        self.alerts.retain(keep_alert, Ghost(kept_alert));
        proof {
            let after = without(before, gone@.dom());
            assert(self@.sessions =~= after.sessions);
            assert(self@.alerts =~= after.alerts);
            assert(alerts_belong(self@));
        }
    }

    /// Forgets a session that is not being recorded, with all that belongs to it, and says whether
    /// it was there.
    pub fn delete_session(&mut self, id: SessionId) -> (deleted: bool)
        requires
            old(self).well_formed(),
        ensures
            final(self).well_formed(),
            deleted == (old(self)@.sessions.dom().contains(id.0) && !is_active(
                old(self)@.sessions[id.0],
            )),
            final(self)@ == (if deleted {
                without(old(self)@, set![id.0])
            } else {
                old(self)@
            }),
    {
        let over = match self.sessions.get(&id.0) {
            Some(session) => session.record.status != SessionStatus::Recording,
            None => false,
        };
        if over {
            let mut gone: SortedMap<i64, bool> = SortedMap::new();
            gone.insert(id.0, true);
            assert(gone@.dom() =~= set![id.0]);
            self.drop_sessions(&gone);
        }
        over
    }

    /// Forgets the sessions that ended before a moment, with all that belongs to them, and says how
    /// many there were.
    pub fn delete_sessions_ended_before(&mut self, cutoff_unix_nanos: u64) -> (r: Result<
        usize,
        StorageError,
    >)
        requires
            old(self).well_formed(),
        ensures
            final(self).well_formed(),
            fails_as(r, number_failure(cutoff_unix_nanos)),
            match r {
                Ok(count) => {
                    let gone = ended_before(old(self)@.sessions, cutoff_unix_nanos);
                    count == gone.len() && final(self)@ == without(old(self)@, gone)
                },
                Err(_) => final(self)@ == old(self)@,
            },
    {
        if let Err(error) = storage::to_i64(cutoff_unix_nanos) {
            return Err(error);
        }
        let old_enough = |record: &SessionRecord| -> (r: bool)
            ensures
                r == (record.ended_at_unix_nanos matches Some(at) && at < cutoff_unix_nanos)
            {
                match record.ended_at_unix_nanos {
                    Some(at) => at < cutoff_unix_nanos,
                    None => false,
                }
            };
        let ghost wanted = |record: SessionRecord|
            record.ended_at_unix_nanos matches Some(at) && at < cutoff_unix_nanos;
        let ids = self.chosen(old_enough, Ghost(wanted));
        let ghost expired = ended_before(self@.sessions, cutoff_unix_nanos);
        proof {
            assert(expired =~= ids@.to_set());
        }
        let mut gone: SortedMap<i64, bool> = SortedMap::new();
        assert(ids@.take(0).to_set() =~= gone@.dom());
        for i in 0..ids.len()
            invariant
                gone.well_formed(),
                gone@.dom() == ids@.take(i as int).to_set(),
        {
            gone.insert(ids[i], true);
            assert(ids@.take(i + 1) =~= ids@.take(i as int).push(ids@[i as int]));
            assert(ids@.take(i + 1).to_set() =~= ids@.take(i as int).to_set().insert(
                ids@[i as int],
            )) by {
                broadcast use vstd::seq_lib::group_seq_properties;

            }
        }
        assert(ids@.take(ids@.len() as int) =~= ids@);
        self.drop_sessions(&gone);
        Ok(ids.len())
    }

    /// The records of the sessions that started last, at most `limit` of them.
    pub fn list_sessions(&self, limit: usize) -> (list: Vec<SessionRecord>)
        requires
            self.well_formed(),
        ensures
            list@ == ({
                let all = newest_first(self@.sessions);
                all.take(
                    if limit < all.len() {
                        limit as int
                    } else {
                        all.len() as int
                    },
                )
            }),
    {
        let entries = self.sessions.entries();
        let ghost rows_listed = records(self@.sessions);
        proof {
            lemma_records(self.sessions);
        }
        let mut rows: Vec<SessionRecord> = Vec::new();
        let mut keys: Vec<u64> = Vec::new();
        for i in 0..entries.len()
            invariant
                rows_listed.len() == entries@.len(),
                forall|j: int|
                    0 <= j < entries@.len() ==> #[trigger] rows_listed[j] == entries@[j].1.record,
                rows@ == rows_listed.take(i as int),
                keys@.len() == i,
                forall|j: int| 0 <= j < i ==> #[trigger] keys@[j] == start_order(rows_listed[j]),
        {
            let record = &entries[i].1.record;
            assert(rows_listed[i as int] == *record);
            rows.push(record.clone());
            keys.push(u64::MAX - record.started_at_unix_nanos);
            assert(rows_listed.take(i + 1) =~= rows_listed.take(i as int).push(*record));
        }
        assert(rows_listed.take(entries@.len() as int) =~= rows_listed);
        assert(ordered::key_views(keys@) =~= Seq::new(
            rows_listed.len(),
            |i: int| start_order(rows_listed[i]),
        ));
        let mut list = arrange(rows.as_slice(), keys);
        list.truncate(limit);
        list
    }

    /// The record of a session.
    pub fn session(&self, id: SessionId) -> (record: Option<SessionRecord>)
        requires
            self.well_formed(),
        ensures
            record == (if self@.sessions.dom().contains(id.0) {
                Some(self@.sessions[id.0].record)
            } else {
                None
            }),
    {
        match self.sessions.get(&id.0) {
            Some(session) => Some(session.record.clone()),
            None => None,
        }
    }

    /// The buckets of a session, oldest first.
    pub fn session_buckets(&self, id: SessionId) -> (list: Vec<SessionBucket>)
        requires
            self.well_formed(),
        ensures
            list@ == (if self@.sessions.dom().contains(id.0) {
                bucket_list(self@.sessions[id.0].buckets)
            } else {
                Seq::empty()
            }),
    {
        match self.sessions.get(&id.0) {
            Some(session) => {
                assert(row_list::<u64, SessionBucket>(session.buckets@) =~= bucket_list(
                    session.buckets@,
                ));
                rows_of(&session.buckets)
            },
            None => Vec::new(),
        }
    }

    /// The processes of a session, those with the most traffic first.
    pub fn session_processes(&self, id: SessionId) -> (list: Vec<ProcessSessionSummary>)
        requires
            self.well_formed(),
        ensures
            list@ == (if self@.sessions.dom().contains(id.0) {
                processes_listed(self@.sessions[id.0])
            } else {
                Seq::empty()
            }),
    {
        let session = match self.sessions.get(&id.0) {
            Some(session) => session,
            None => {
                return Vec::new();
            },
        };
        let rows = rows_of(&session.processes);
        let mut keys: Vec<(u128, String)> = Vec::new();
        for i in 0..rows.len()
            invariant
                keys@.len() == i,
                forall|j: int| 0 <= j < i ==> (#[trigger] keys@[j])@ == traffic_order(rows@[j]),
        {
            let traffic: u128 = rows[i].send_bytes as u128 + rows[i].receive_bytes as u128;
            keys.push((u128::MAX - traffic, rows[i].name.clone()));
        }
        assert(ordered::key_views(keys@) =~= Seq::new(
            rows@.len(),
            |i: int| traffic_order(rows@[i]),
        ));
        arrange(rows.as_slice(), keys)
    }

    /// The endpoints of a session, the last seen first.
    pub fn session_endpoints(&self, id: SessionId) -> (list: Vec<EndpointSummary>)
        requires
            self.well_formed(),
        ensures
            list@ == (if self@.sessions.dom().contains(id.0) {
                endpoints_listed(self@.sessions[id.0])
            } else {
                Seq::empty()
            }),
    {
        let session = match self.sessions.get(&id.0) {
            Some(session) => session,
            None => {
                return Vec::new();
            },
        };
        let rows = rows_of(&session.endpoints);
        let mut keys: Vec<(u64, String)> = Vec::new();
        for i in 0..rows.len()
            invariant
                keys@.len() == i,
                forall|j: int| 0 <= j < i ==> (#[trigger] keys@[j])@ == seen_order(rows@[j]),
        {
            keys.push((u64::MAX - rows[i].last_seen_unix_nanos, rows[i].remote_address.clone()));
        }
        assert(ordered::key_views(keys@) =~= Seq::new(rows@.len(), |i: int| seen_order(rows@[i])));
        arrange(rows.as_slice(), keys)
    }

    /// The alerts of a session, the last to occur first.
    pub fn session_alerts(&self, id: SessionId) -> (list: Vec<AlertRecord>)
        requires
            self.well_formed(),
        ensures
            list@ == alerts_listed(self@.alerts, id),
    {
        let all = rows_of(&self.alerts);
        let ghost chosen = |alert: AlertRecord| alert.session_id == id;
        let mut rows: Vec<AlertRecord> = Vec::new();
        let mut keys: Vec<(u64, i64)> = Vec::new();
        proof {
            reveal(Seq::filter);
        }
        for i in 0..all.len()
            invariant
                chosen == (|alert: AlertRecord| alert.session_id == id),
                rows@ == all@.take(i as int).filter(chosen),
                keys@.len() == rows@.len(),
                forall|j: int| 0 <= j < rows@.len() ==> (#[trigger] keys@[j])@ == alert_order(rows@[j]),
        {
            proof {
                reveal(Seq::filter);
                assert(all@.take(i + 1).drop_last() =~= all@.take(i as int));
            }
            if all[i].session_id == id {
                keys.push((u64::MAX - all[i].occurred_at_unix_nanos, -1 - all[i].id));
                rows.push(copy_alert(&all[i]));
            }
        }
        assert(all@.take(all@.len() as int) =~= all@);
        assert(ordered::key_views(keys@) =~= Seq::new(
            rows@.len(),
            |i: int| alert_order(rows@[i]),
        ));
        arrange(rows.as_slice(), keys)
    }

    /// All that is stored of a session.
    pub fn detail(&self, id: SessionId) -> (detail: Option<SessionDetail>)
        requires
            self.well_formed(),
        ensures
            match detail {
                Some(told) => self@.sessions.dom().contains(id.0) && tells(told, self@, id),
                None => !self@.sessions.dom().contains(id.0),
            },
    {
        match self.session(id) {
            Some(session) => Some(
                SessionDetail {
                    session,
                    buckets: self.session_buckets(id),
                    processes: self.session_processes(id),
                    endpoints: self.session_endpoints(id),
                    alerts: self.session_alerts(id),
                },
            ),
            None => None,
        }
    }

    /// Puts a session back as it was told, in place of the one of its identity.
    pub fn restore_session(&mut self, detail: SessionDetail)
        requires
            old(self).well_formed(),
            forall|i: int|
                0 <= i < detail.alerts@.len() ==> (#[trigger] detail.alerts@[i]).session_id
                    == detail.session.id,
        ensures
            final(self).well_formed(),
            final(self)@ == with_restored(old(self)@, detail),
    {
        let ghost before = self@;
        let ghost told = detail;
        let id: i64 = detail.session.id.0;
        let mut buckets: SortedMap<u64, SessionBucket> = SortedMap::new();
        assert(detail.buckets@.take(0) =~= Seq::<SessionBucket>::empty());
        assert(buckets@ =~= Map::empty());
        for i in 0..detail.buckets.len()
            invariant
                buckets.well_formed(),
                buckets@ == buckets_with(Map::empty(), detail.buckets@.take(i as int)),
        {
            assert(detail.buckets@.take(i + 1).drop_last() =~= detail.buckets@.take(i as int));
            buckets.insert(detail.buckets[i].start_unix_nanos, detail.buckets[i]);
        }
        assert(detail.buckets@.take(detail.buckets@.len() as int) =~= detail.buckets@);
        let mut session = StoredSession {
            record: detail.session,
            buckets,
            processes: SortedMap::new(),
            endpoints: SortedMap::new(),
        };
        assert(session@.processes =~= Map::empty());
        assert(session@.endpoints =~= Map::empty());
        session.put_processes(detail.processes.as_slice());
        session.put_endpoints(detail.endpoints.as_slice());
        self.sessions.insert(id, session);
        put_alerts(&mut self.alerts, detail.alerts.as_slice());
        proof {
            lemma_buckets_keyed(Map::empty(), told.buckets@);
            lemma_processes_keyed(Map::empty(), told.processes@);
            lemma_endpoints_keyed(Map::empty(), told.endpoints@);
            lemma_told_alerts_belong(before.alerts, told.session.id, told.alerts@);
            assert(self@.sessions =~= with_restored(before, told).sessions);
        }
    }

    /// The value of a setting.
    pub fn setting(&self, key: &str) -> (value: Option<String>)
        requires
            self.well_formed(),
        ensures
            value == (if self@.settings.dom().contains(key@) {
                Some(self@.settings[key@])
            } else {
                None
            }),
    {
        match self.settings.get(&key.to_owned()) {
            Some(value) => Some(value.clone()),
            None => None,
        }
    }

    /// Gives a setting a value.
    pub fn set_setting(&mut self, key: &str, value: &str)
        requires
            old(self).well_formed(),
        ensures
            final(self).well_formed(),
            final(self)@.settings.dom() == old(self)@.settings.dom().insert(key@),
            final(self)@.settings[key@]@ == value@,
            final(self)@ == (DatabaseView {
                settings: old(self)@.settings.insert(key@, final(self)@.settings[key@]),
                ..old(self)@
            }),
    {
        self.settings.insert(key.to_owned(), value.to_owned());
    }
}

proof fn lemma_records(sessions: SortedMap<i64, StoredSession>)
    requires
        sessions.well_formed(),
    ensures
        ({
            let rows = records(sessions_of(sessions@));
            let entries = sessions.listing();
            rows.len() == entries.len() && forall|i: int|
                0 <= i < entries.len() ==> #[trigger] rows[i] == entries[i].1.record
        }),
{
    let entries = sessions.listing();
    let map = sessions_of(sessions@);
    ordered::lemma_keys_in_order(entries);
    assert(map.dom() =~= sessions@.dom());
    let rows = records(map);
    assert forall|i: int| 0 <= i < entries.len() implies #[trigger] rows[i]
        == entries[i].1.record by {
        ordered::lemma_entry_in_map(entries, i);
        assert(ordered::keys_of(entries)[i] == entries[i].0);
    }
}

proof fn lemma_told_alerts_belong(
    stored: Map<i64, AlertRecord>,
    session: SessionId,
    alerts: Seq<AlertRecord>,
)
    requires
        forall|i: int|
            0 <= i < alerts.len() ==> (#[trigger] alerts[i]).session_id == session,
    ensures
        forall|id: i64| #[trigger]
            alerts_with(stored, alerts).dom().contains(id) ==> alerts_with(stored, alerts)[id].session_id
                == session || (stored.dom().contains(id) && alerts_with(stored, alerts)[id]
                == stored[id]),
    decreases alerts.len(),
{
    if alerts.len() > 0 {
        assert(alerts.last() == alerts[alerts.len() - 1]);
        lemma_told_alerts_belong(stored, session, alerts.drop_last());
    }
}

/// What is read back of buckets is the last that was written of each start, and what stood there
/// before where none was.
pub proof fn law_buckets_are_read_back(
    stored: Map<u64, SessionBucket>,
    buckets: Seq<SessionBucket>,
    start: u64,
)
    ensures
        ({
            let after = buckets_with(stored, buckets);
            &&& forall|i: int|
                #![trigger buckets[i]]
                0 <= i < buckets.len() && buckets[i].start_unix_nanos == start && (forall|j: int|
                    i < j < buckets.len() ==> (#[trigger] buckets[j]).start_unix_nanos != start)
                    ==> after.dom().contains(start) && after[start] == buckets[i]
            &&& (forall|i: int|
                0 <= i < buckets.len() ==> (#[trigger] buckets[i]).start_unix_nanos != start) ==> (
            after.dom().contains(start) == stored.dom().contains(start) && (after.dom().contains(
                start,
            ) ==> after[start] == stored[start]))
        }),
    decreases buckets.len(),
{
    if buckets.len() > 0 {
        let before = buckets.drop_last();
        law_buckets_are_read_back(stored, before, start);
        assert(buckets.last() == buckets[buckets.len() - 1]);
        assert forall|i: int| 0 <= i < before.len() implies #[trigger] before[i] == buckets[i] by {}
        let after = buckets_with(stored, buckets);
        assert forall|i: int|
            #![trigger buckets[i]]
            0 <= i < buckets.len() && buckets[i].start_unix_nanos == start && (forall|j: int|
                i < j < buckets.len() ==> (#[trigger] buckets[j]).start_unix_nanos
                    != start) implies after.dom().contains(start) && after[start] == buckets[i] by {
            if i < before.len() {
                assert(before[i] == buckets[i]);
                assert(buckets.last().start_unix_nanos != start);
            }
        }
    }
}

/// A snapshot that is recorded is found again: its second holds what was recorded of it, whatever
/// stood there, and the other seconds and the other sessions stay as they were.
pub proof fn law_recorded_second_is_read_back(
    database: DatabaseView,
    id: i64,
    bucket: SessionBucket,
    processes: Seq<ProcessSessionSummary>,
    endpoints: Seq<EndpointSummary>,
    alerts: Seq<AlertRecord>,
)
    requires
        database.sessions.dom().contains(id),
    ensures
        ({
            let after = with_batch(database, id, seq![bucket], processes, endpoints, alerts);
            &&& after.sessions[id].buckets == database.sessions[id].buckets.insert(
                bucket.start_unix_nanos,
                bucket,
            )
            &&& after.sessions.dom() == database.sessions.dom()
            &&& forall|other: i64|
                other != id && database.sessions.dom().contains(other)
                    ==> #[trigger] after.sessions[other] == database.sessions[other]
        }),
{
    reveal_with_fuel(buckets_with, 2);
    assert(seq![bucket].drop_last() =~= Seq::empty());
    assert(with_batch(
        database,
        id,
        seq![bucket],
        processes,
        endpoints,
        alerts,
    ).sessions.dom() =~= database.sessions.dom());
}

/// A batch that is stored leaves its session's totals at the sums of the session's buckets.
pub proof fn law_totals_are_sums(
    database: DatabaseView,
    id: i64,
    buckets: Seq<SessionBucket>,
    processes: Seq<ProcessSessionSummary>,
    endpoints: Seq<EndpointSummary>,
    alerts: Seq<AlertRecord>,
)
    requires
        database.sessions.dom().contains(id),
        batch_failure(database, id, buckets, processes, endpoints, alerts) is None,
    ensures
        ({
            let session = with_batch(
                database,
                id,
                buckets,
                processes,
                endpoints,
                alerts,
            ).sessions[id];
            let totals = sums(bucket_list(session.buckets));
            &&& session.record.send_bytes == totals.0
            &&& session.record.receive_bytes == totals.1
            &&& session.record.event_count == totals.2
        }),
{
    lemma_sums_count(bucket_list(buckets_with(database.sessions[id].buckets, buckets)));
}

proof fn lemma_sums_count(buckets: Seq<SessionBucket>)
    ensures
        sums(buckets).0 >= 0,
        sums(buckets).1 >= 0,
        sums(buckets).2 >= 0,
    decreases buckets.len(),
{
    if buckets.len() > 0 {
        lemma_sums_count(buckets.drop_last());
    }
}

/// A process's name that was known stays known, and so does its path.
pub proof fn law_known_names_are_kept(
    stored: Map<(u32, u64), ProcessSessionSummary>,
    processes: Seq<ProcessSessionSummary>,
    key: (u32, u64),
)
    requires
        stored.dom().contains(key),
    ensures
        ({
            let after = processes_with(stored, processes);
            &&& after.dom().contains(key)
            &&& !only_number(stored[key].name@) ==> !only_number(after[key].name@)
            &&& stored[key].image_path is Some ==> after[key].image_path is Some
        }),
    decreases processes.len(),
{
    if processes.len() > 0 {
        law_known_names_are_kept(stored, processes.drop_last(), key);
    }
}

/// The time in which an endpoint was seen only widens.
pub proof fn law_sightings_widen(
    stored: Map<(Seq<char>, (Seq<char>, Seq<char>)), EndpointSummary>,
    endpoints: Seq<EndpointSummary>,
    key: (Seq<char>, (Seq<char>, Seq<char>)),
)
    requires
        stored.dom().contains(key),
    ensures
        ({
            let after = endpoints_with(stored, endpoints);
            &&& after.dom().contains(key)
            &&& after[key].first_seen_unix_nanos <= stored[key].first_seen_unix_nanos
            &&& after[key].last_seen_unix_nanos >= stored[key].last_seen_unix_nanos
        }),
    decreases endpoints.len(),
{
    if endpoints.len() > 0 {
        law_sightings_widen(stored, endpoints.drop_last(), key);
    }
}

/// An alert that is stored is not changed by another of its identity.
pub proof fn law_stored_alerts_stay(
    stored: Map<i64, AlertRecord>,
    alerts: Seq<AlertRecord>,
    id: i64,
)
    requires
        stored.dom().contains(id),
    ensures
        alerts_with(stored, alerts).dom().contains(id),
        alerts_with(stored, alerts)[id] == stored[id],
    decreases alerts.len(),
{
    if alerts.len() > 0 {
        law_stored_alerts_stay(stored, alerts.drop_last(), id);
    }
}

/// Recovery interrupts the sessions that were being recorded and touches no other; after it none is
/// being recorded, and recovering once more changes nothing.
pub proof fn law_recovery_interrupts_only_active(database: DatabaseView, at: u64, later: u64)
    ensures
        recovered(database, at).sessions.dom() == database.sessions.dom(),
        forall|id: i64| #[trigger]
            database.sessions.dom().contains(id) && !is_active(database.sessions[id]) ==> recovered(
                database,
                at,
            ).sessions[id] == database.sessions[id],
        active(recovered(database, at).sessions) == Set::<i64>::empty(),
        recovered(recovered(database, at), later) == recovered(database, at),
{
    let once = recovered(database, at);
    assert(once.sessions.dom() =~= database.sessions.dom());
    assert(active(once.sessions) =~= Set::<i64>::empty());
    assert(recovered(once, later).sessions =~= once.sessions);
}

/// Forgetting sessions leaves nothing that belonged to them and changes nothing else.
pub proof fn law_forgetting_takes_all_that_belongs(database: DatabaseView, gone: Set<i64>)
    requires
        alerts_belong(database),
    ensures
        ({
            let after = without(database, gone);
            &&& alerts_belong(after)
            &&& forall|id: i64| #[trigger]
                after.sessions.dom().contains(id) <==> database.sessions.dom().contains(id)
                    && !gone.contains(id)
            &&& forall|id: i64| #[trigger]
                after.sessions.dom().contains(id) ==> after.sessions[id] == database.sessions[id]
            &&& forall|id: i64| #[trigger]
                after.alerts.dom().contains(id) <==> database.alerts.dom().contains(id)
                    && !gone.contains(database.alerts[id].session_id.0)
            &&& forall|id: i64| #[trigger]
                after.alerts.dom().contains(id) ==> after.alerts[id] == database.alerts[id]
            &&& after.settings == database.settings
        }),
{
}

/// The list of all sessions holds each as often as it is stored, the last to start first.
pub proof fn law_sessions_are_listed_newest_first(sessions: Map<i64, StoredView>)
    requires
        sessions.dom().finite(),
        sessions.dom().len() <= usize::MAX,
    ensures
        newest_first(sessions).len() == sessions.dom().len(),
        newest_first(sessions).to_multiset() == records(sessions).to_multiset(),
        forall|i: int, j: int|
            #![trigger newest_first(sessions)[i], newest_first(sessions)[j]]
            0 <= i < j < sessions.dom().len() ==> newest_first(sessions)[i].started_at_unix_nanos
                >= newest_first(sessions)[j].started_at_unix_nanos,
{
    ordered::lemma_order_exists::<i64>(sessions.dom());
    let rows = records(sessions);
    let key = |record: SessionRecord| start_order(record);
    lemma_arranged::<u64, SessionRecord>(
        rows,
        Seq::new(rows.len(), |i: int| start_order(rows[i])),
        key,
    );
    let list = newest_first(sessions);
    assert forall|i: int, j: int|
        #![trigger list[i], list[j]]
        0 <= i < j < list.len() implies list[i].started_at_unix_nanos
        >= list[j].started_at_unix_nanos by {
        assert(key(list[i]) == start_order(list[i]) && key(list[j]) == start_order(list[j]));
    }
}

/// What is stored of a session's buckets is listed: each bucket once, each after those that
/// started before it.
pub proof fn law_buckets_are_listed_by_start(session: StoredView)
    requires
        rows_keyed(session),
        session.buckets.dom().finite(),
    ensures
        ({
            let list = bucket_list(session.buckets);
            &&& list.len() == session.buckets.dom().len()
            &&& forall|i: int, j: int|
                #![trigger list[i], list[j]]
                0 <= i < j < list.len() ==> list[i].start_unix_nanos < list[j].start_unix_nanos
            &&& forall|start: u64| #[trigger]
                session.buckets.dom().contains(start) ==> list.contains(session.buckets[start])
        }),
{
    let keys = ordered::ordered_list::<u64>(session.buckets.dom());
    let list = bucket_list(session.buckets);
    ordered::lemma_order_exists::<u64>(session.buckets.dom());
    assert forall|i: int, j: int|
        #![trigger list[i], list[j]]
        0 <= i < j < list.len() implies list[i].start_unix_nanos < list[j].start_unix_nanos by {
        assert(session.buckets.dom().contains(keys[i]));
        assert(session.buckets.dom().contains(keys[j]));
        assert(u64::before(keys[i], keys[j]));
    }
    assert forall|start: u64| #[trigger] session.buckets.dom().contains(start) implies list.contains(
        session.buckets[start],
    ) by {
        let i = choose|i: int| 0 <= i < keys.len() && #[trigger] keys[i] == start;
        assert(list[i] == session.buckets[start]);
    }
}

/// Arranging rows by their keys keeps each as often as it is there and puts no key behind a later
/// one.
proof fn lemma_arranged<S: OrderedKey, T>(rows: Seq<T>, keys: Seq<S::V>, key: spec_fn(T) -> S::V)
    requires
        keys =~= rows.map_values(key),
        rows.len() <= usize::MAX,
    ensures
        arranged::<S, T>(rows, keys).len() == rows.len(),
        arranged::<S, T>(rows, keys).to_multiset() == rows.to_multiset(),
        forall|i: int, j: int|
            #![trigger arranged::<S, T>(rows, keys)[i], arranged::<S, T>(rows, keys)[j]]
            0 <= i < j < rows.len() ==> S::before(
                key(arranged::<S, T>(rows, keys)[i]),
                key(arranged::<S, T>(rows, keys)[j]),
            ) || key(arranged::<S, T>(rows, keys)[i]) == key(arranged::<S, T>(rows, keys)[j]),
{
    ordered::law_rows_are_put_in_order::<S, T>(rows, key);
    assert(arranged::<S, T>(rows, keys) =~= ordered::by_key::<S, T>(rows, key));
}

/// The list of a session's processes holds each as often as it is stored, the most traffic first;
/// of equal traffic, the first in the order of the names.
pub proof fn law_processes_are_listed_busiest_first(session: StoredView)
    requires
        session.processes.dom().finite(),
        session.processes.dom().len() <= usize::MAX,
    ensures
        ({
            let list = processes_listed(session);
            &&& list.len() == session.processes.dom().len()
            &&& list.to_multiset() == row_list::<ProcessRowKey, ProcessSessionSummary>(
                session.processes,
            ).to_multiset()
            &&& forall|i: int, j: int|
                #![trigger list[i], list[j]]
                0 <= i < j < list.len() ==> {
                    let earlier = list[i].send_bytes + list[i].receive_bytes;
                    let later = list[j].send_bytes + list[j].receive_bytes;
                    earlier > later || (earlier == later && (String::before(
                        list[i].name@,
                        list[j].name@,
                    ) || list[i].name@ == list[j].name@))
                }
        }),
{
    ordered::lemma_order_exists::<ProcessRowKey>(session.processes.dom());
    let rows = row_list::<ProcessRowKey, ProcessSessionSummary>(session.processes);
    let key = |process: ProcessSessionSummary| traffic_order(process);
    lemma_arranged::<(u128, String), ProcessSessionSummary>(
        rows,
        Seq::new(rows.len(), |i: int| traffic_order(rows[i])),
        key,
    );
    let list = processes_listed(session);
    assert forall|i: int, j: int|
        #![trigger list[i], list[j]]
        0 <= i < j < list.len() implies {
        let earlier = list[i].send_bytes + list[i].receive_bytes;
        let later = list[j].send_bytes + list[j].receive_bytes;
        earlier > later || (earlier == later && (String::before(list[i].name@, list[j].name@)
            || list[i].name@ == list[j].name@))
    } by {
        assert(key(list[i]) == traffic_order(list[i]) && key(list[j]) == traffic_order(list[j]));
    }
}

/// The list of a session's endpoints holds each as often as it is stored, the last seen first; of
/// those last seen at one time, the first in the order of the addresses.
pub proof fn law_endpoints_are_listed_newest_first(session: StoredView)
    requires
        session.endpoints.dom().finite(),
        session.endpoints.dom().len() <= usize::MAX,
    ensures
        ({
            let list = endpoints_listed(session);
            &&& list.len() == session.endpoints.dom().len()
            &&& list.to_multiset() == row_list::<EndpointRowKey, EndpointSummary>(
                session.endpoints,
            ).to_multiset()
            &&& forall|i: int, j: int|
                #![trigger list[i], list[j]]
                0 <= i < j < list.len() ==> {
                    let earlier = list[i].last_seen_unix_nanos;
                    let later = list[j].last_seen_unix_nanos;
                    earlier > later || (earlier == later && (String::before(
                        list[i].remote_address@,
                        list[j].remote_address@,
                    ) || list[i].remote_address@ == list[j].remote_address@))
                }
        }),
{
    ordered::lemma_order_exists::<EndpointRowKey>(session.endpoints.dom());
    let rows = row_list::<EndpointRowKey, EndpointSummary>(session.endpoints);
    let key = |endpoint: EndpointSummary| seen_order(endpoint);
    lemma_arranged::<(u64, String), EndpointSummary>(
        rows,
        Seq::new(rows.len(), |i: int| seen_order(rows[i])),
        key,
    );
    let list = endpoints_listed(session);
    assert forall|i: int, j: int|
        #![trigger list[i], list[j]]
        0 <= i < j < list.len() implies {
        let earlier = list[i].last_seen_unix_nanos;
        let later = list[j].last_seen_unix_nanos;
        earlier > later || (earlier == later && (String::before(
            list[i].remote_address@,
            list[j].remote_address@,
        ) || list[i].remote_address@ == list[j].remote_address@))
    } by {
        assert(key(list[i]) == seen_order(list[i]) && key(list[j]) == seen_order(list[j]));
    }
}

/// The list of a session's alerts holds each of the session's as often as it is stored, the last to
/// occur first; of those that occurred at one time, the one of the larger identity.
pub proof fn law_alerts_are_listed_newest_first(alerts: Map<i64, AlertRecord>, id: SessionId)
    requires
        alerts.dom().finite(),
        alerts.dom().len() <= usize::MAX,
    ensures
        ({
            let list = alerts_listed(alerts, id);
            &&& list.to_multiset() == row_list::<i64, AlertRecord>(alerts).filter(
                |alert: AlertRecord| alert.session_id == id,
            ).to_multiset()
            &&& forall|i: int, j: int|
                #![trigger list[i], list[j]]
                0 <= i < j < list.len() ==> {
                    let earlier = list[i].occurred_at_unix_nanos;
                    let later = list[j].occurred_at_unix_nanos;
                    earlier > later || (earlier == later && list[i].id >= list[j].id)
                }
        }),
{
    ordered::lemma_order_exists::<i64>(alerts.dom());
    let all = row_list::<i64, AlertRecord>(alerts);
    let of_session = |alert: AlertRecord| alert.session_id == id;
    let rows = all.filter(of_session);
    all.lemma_filter_len(of_session);
    let key = |alert: AlertRecord| alert_order(alert);
    lemma_arranged::<(u64, i64), AlertRecord>(
        rows,
        Seq::new(rows.len(), |i: int| alert_order(rows[i])),
        key,
    );
    let list = alerts_listed(alerts, id);
    assert forall|i: int, j: int|
        #![trigger list[i], list[j]]
        0 <= i < j < list.len() implies {
        let earlier = list[i].occurred_at_unix_nanos;
        let later = list[j].occurred_at_unix_nanos;
        earlier > later || (earlier == later && list[i].id >= list[j].id)
    } by {
        assert(key(list[i]) == alert_order(list[i]) && key(list[j]) == alert_order(list[j]));
    }
}

/// The totals of buckets are the bytes sent, the bytes received and the events of them all.
pub proof fn law_totals_add_up(a: Seq<SessionBucket>, b: SessionBucket)
    ensures
        sums(Seq::empty()) == (0int, 0int, 0int),
        sums(a.push(b)).0 == sums(a).0 + b.send_bytes,
        sums(a.push(b)).1 == sums(a).1 + b.receive_bytes,
        sums(a.push(b)).2 == sums(a).2 + b.event_count,
{
    assert(a.push(b).drop_last() =~= a);
}

/// The row of a process that is stored again takes the counts of the new row. It takes the new name,
/// but keeps a name where the new one is only a number; it takes the new image where there is one.
pub proof fn law_stored_process_is_brought_up_to_date(
    stored: Map<(u32, u64), ProcessSessionSummary>,
    new: ProcessSessionSummary,
)
    ensures
        ({
            let key = (new.pid, new.started_at_unix_nanos);
            let after = processes_with(stored, seq![new]);
            let row = after[key];
            &&& after.dom() == stored.dom().insert(key)
            &&& row.pid == new.pid
            &&& row.started_at_unix_nanos == new.started_at_unix_nanos
            &&& row.send_bytes == new.send_bytes
            &&& row.receive_bytes == new.receive_bytes
            &&& row.connection_count == new.connection_count
            &&& !stored.dom().contains(key) ==> row == new
            &&& stored.dom().contains(key) && !only_number(new.name@) ==> row.name == new.name
            &&& stored.dom().contains(key) && only_number(new.name@) && !only_number(
                stored[key].name@,
            ) ==> row.name == stored[key].name
            &&& stored.dom().contains(key) && new.image_path is Some ==> row.image_path
                == new.image_path
            &&& stored.dom().contains(key) && new.image_path is None ==> row.image_path
                == stored[key].image_path
            &&& forall|other: (u32, u64)|
                other != key && stored.dom().contains(other) ==> #[trigger] after[other]
                    == stored[other]
        }),
{
    assert(seq![new].drop_last() =~= Seq::empty());
    reveal_with_fuel(processes_with, 2);
}

/// The row of an endpoint that is stored again has been seen from the first time that either row
/// tells to the last, with the connections of the new row.
pub proof fn law_stored_endpoint_is_brought_up_to_date(
    stored: Map<(Seq<char>, (Seq<char>, Seq<char>)), EndpointSummary>,
    new: EndpointSummary,
)
    ensures
        ({
            let key = (new.protocol@, (new.remote_address@, new.process_name@));
            let after = endpoints_with(stored, seq![new]);
            let row = after[key];
            &&& after.dom() == stored.dom().insert(key)
            &&& row.connection_count == new.connection_count
            &&& row.protocol == new.protocol
            &&& row.remote_address == new.remote_address
            &&& row.process_name == new.process_name
            &&& !stored.dom().contains(key) ==> row == new
            &&& stored.dom().contains(key) ==> row.first_seen_unix_nanos
                <= new.first_seen_unix_nanos && row.first_seen_unix_nanos
                <= stored[key].first_seen_unix_nanos && (row.first_seen_unix_nanos
                == new.first_seen_unix_nanos || row.first_seen_unix_nanos
                == stored[key].first_seen_unix_nanos)
            &&& stored.dom().contains(key) ==> row.last_seen_unix_nanos
                >= new.last_seen_unix_nanos && row.last_seen_unix_nanos
                >= stored[key].last_seen_unix_nanos && (row.last_seen_unix_nanos
                == new.last_seen_unix_nanos || row.last_seen_unix_nanos
                == stored[key].last_seen_unix_nanos)
        }),
{
    assert(seq![new].drop_last() =~= Seq::empty());
    reveal_with_fuel(endpoints_with, 2);
}

/// A name is only a number where it is the four characters of `PID` and a space with a digit behind
/// them.
pub proof fn law_numbers_for_names(n: nat, name: Seq<char>)
    ensures
        only_number("PID "@ + text::decimal(n)),
        only_number(name) ==> name.take(4) == "PID "@,
{
    reveal_strlit("PID ");
    text::law_numeral_is_read_back(n, n);
    let s = "PID "@ + text::decimal(n);
    assert(s[4] == text::decimal(n)[0]);
    if only_number(name) {
        assert(name.take(4) =~= "PID "@);
    }
}

/// The first session is numbered one, and each later one follows the largest number that is taken.
pub proof fn law_sessions_are_numbered_on(id: i64, taken: Set<i64>, largest: i64)
    ensures
        may_have(id, Set::empty()) ==> id == 1,
        taken.contains(largest) && largest < i64::MAX && (forall|other: i64| #[trigger]
            taken.contains(other) ==> other <= largest) && may_have(id, taken) ==> id
            == largest + 1,
        may_have(id, taken) ==> !taken.contains(id),
{
    if may_have(id, taken) && taken.contains(largest) && largest < i64::MAX && (forall|other: i64|
        #[trigger] taken.contains(other) ==> other <= largest) {
        assert(!taken.contains(i64::MAX));
        assert(taken != Set::<i64>::empty());
        assert(taken.contains((id - 1) as i64));
    }
}

/// A number is refused where it has no place among the positive numbers of 64 bits with a sign.
pub proof fn law_large_numbers_are_refused(value: u64)
    ensures
        number_failure(value) is Some <==> value > 0x7fff_ffff_ffff_ffff,
{
}

/// A session that has begun is recorded, has not ended, has carried nothing, and holds nothing.
pub proof fn law_begun_session_is_empty(
    id: i64,
    name: Seq<char>,
    notes: Seq<char>,
    started: u64,
    session: StoredView,
)
    requires
        begun(id, name, notes, started, session),
    ensures
        session.record.status == SessionStatus::Recording,
        session.record.ended_at_unix_nanos is None,
        session.record.started_at_unix_nanos == started,
        session.record.id.0 == id,
        session.record.send_bytes == 0,
        session.record.receive_bytes == 0,
        session.record.event_count == 0,
        session.record.name@ == text::trimmed(name),
        session.record.notes@ == text::trimmed(notes),
        is_active(session),
        session.buckets.dom() =~= Set::empty(),
        session.processes.dom() =~= Set::empty(),
        session.endpoints.dom() =~= Set::empty(),
{
}

/// A session that is ended has its end and its new state, and all else as it was.
pub proof fn law_ended_session_keeps_the_rest(session: StoredView, at: u64, status: SessionStatus)
    ensures
        ended(session, at, status).record.ended_at_unix_nanos == Some(at),
        ended(session, at, status).record.status == status,
        ended(session, at, status).record.started_at_unix_nanos
            == session.record.started_at_unix_nanos,
        ended(session, at, status).record.name == session.record.name,
        ended(session, at, status).record.send_bytes == session.record.send_bytes,
        ended(session, at, status).record.receive_bytes == session.record.receive_bytes,
        ended(session, at, status).record.event_count == session.record.event_count,
        ended(session, at, status).buckets == session.buckets,
        ended(session, at, status).processes == session.processes,
        ended(session, at, status).endpoints == session.endpoints,
        is_active(session) <==> session.record.status == SessionStatus::Recording,
{
}

/// The sessions that are too old are those that ended before the time given; one that has not ended
/// is none of them.
pub proof fn law_old_sessions_have_ended(sessions: Map<i64, StoredView>, cutoff: u64, id: i64)
    requires
        sessions.dom().finite(),
        sessions.dom().contains(id),
    ensures
        ended_before(sessions, cutoff).contains(id) <==> (
        match sessions[id].record.ended_at_unix_nanos {
            Some(at) => at < cutoff,
            None => false,
        }),
{
}

/// A batch is refused as a whole for a session that is not there, if it holds anything of the
/// session.
pub proof fn law_unknown_session_is_refused(
    database: DatabaseView,
    id: i64,
    bucket: SessionBucket,
    processes: Seq<ProcessSessionSummary>,
    endpoints: Seq<EndpointSummary>,
    alerts: Seq<AlertRecord>,
)
    requires
        !database.sessions.dom().contains(id),
    ensures
        batch_failure(database, id, seq![bucket], processes, endpoints, alerts) is Some,
{
    reveal_with_fuel(buckets_failure, 2);
    assert(seq![bucket].drop_last() =~= Seq::empty());
}

} // verus!
