//! Traffic rates of processes.
use crate::model;
use crate::model::{NetworkEvent, ProcessTrafficCounters, TrafficDirection};
use crate::ordered;
use crate::ordered::{OrderedKey, SortedMap};
use vstd::prelude::*;

verus! {

/// Traffic of one process as a value: its totals, the time of its newest event, and what it sent
/// and received in the recent stretches of time.
#[verifier::ext_equal]
pub struct ProcessTraffic {
    pub sent: u64,
    pub received: u64,
    pub last: u64,
    pub buckets: Map<u64, (u64, u64)>,
}

/// What is known of a process before its first event.
pub open spec fn no_traffic() -> ProcessTraffic {
    ProcessTraffic { sent: 0, received: 0, last: 0, buckets: Map::empty() }
}

/// The later of two times.
pub open spec fn later(a: u64, b: u64) -> u64 {
    if a < b {
        b
    } else {
        a
    }
}

/// A time less a stretch, held at zero.
pub open spec fn back(time: u64, stretch: u64) -> u64 {
    if time < stretch {
        0
    } else {
        (time - stretch) as u64
    }
}

impl ProcessTraffic {
    /// What was sent and received in the stretch that starts at a time.
    pub open spec fn at(self, start: u64) -> (u64, u64) {
        if self.buckets.dom().contains(start) {
            self.buckets[start]
        } else {
            (0, 0)
        }
    }

    /// The process with one more event; stretches more than one before the event's are forgotten.
    pub open spec fn counted(self, event: NetworkEvent, width: u64) -> ProcessTraffic {
        let start = model::bucket_start(event.timestamp_unix_nanos, width);
        let (sent, received) = self.at(start);
        let earliest = back(start, width);
        let recent = Set::new(|k: u64| k >= earliest);
        match event.direction {
            TrafficDirection::Send => ProcessTraffic {
                sent: model::saturated(self.sent + event.bytes),
                received: self.received,
                last: later(self.last, event.timestamp_unix_nanos),
                buckets: self.buckets.insert(
                    start,
                    (model::saturated(sent + event.bytes), received),
                ).restrict(recent),
            },
            TrafficDirection::Receive => ProcessTraffic {
                sent: self.sent,
                received: model::saturated(self.received + event.bytes),
                last: later(self.last, event.timestamp_unix_nanos),
                buckets: self.buckets.insert(
                    start,
                    (sent, model::saturated(received + event.bytes)),
                ).restrict(recent),
            },
        }
    }

    /// What was sent and received in the stretch that holds the sample time.
    pub open spec fn sampled(self, timestamp: u64, width: u64) -> (u64, u64) {
        self.at(model::bucket_start(timestamp, width))
    }

    /// The counters of the process at a sample time.
    pub open spec fn counters(
        self,
        pid: u32,
        timestamp: u64,
        width: u64,
    ) -> ProcessTrafficCounters {
        let (sent, received) = self.sampled(timestamp, width);
        ProcessTrafficCounters {
            pid,
            send_bytes_total: self.sent,
            receive_bytes_total: self.received,
            send_bytes_per_second: per_second(sent, width),
            receive_bytes_per_second: per_second(received, width),
            last_timestamp_unix_nanos: self.last,
        }
    }
}

/// Bytes in a stretch of nanoseconds as a rate.
pub open spec fn per_second(bytes: u64, width: u64) -> u64 {
    model::saturated(bytes * 1_000_000_000 / (width as int))
}

fn bytes_per_second(bytes: u64, bucket_width_nanos: u64) -> (rate: u64)
    requires
        bucket_width_nanos > 0,
    ensures
        rate == per_second(bytes, bucket_width_nanos),
{
    let rate: u128 = bytes as u128 * 1_000_000_000 / bucket_width_nanos as u128;
    if rate > u64::MAX as u128 {
        u64::MAX
    } else {
        rate as u64
    }
}

#[derive(Debug)]
struct ProcessTrafficState {
    send_bytes_total: u64,
    receive_bytes_total: u64,
    last_timestamp_unix_nanos: u64,
    buckets: SortedMap<u64, (u64, u64)>,
}

impl View for ProcessTrafficState {
    type V = ProcessTraffic;

    closed spec fn view(&self) -> ProcessTraffic {
        ProcessTraffic {
            sent: self.send_bytes_total,
            received: self.receive_bytes_total,
            last: self.last_timestamp_unix_nanos,
            buckets: self.buckets@,
        }
    }
}

/// The traffic of processes, in stretches of time of one width.
#[derive(Debug)]
pub struct ProcessTrafficTracker {
    bucket_width_nanos: u64,
    processes: SortedMap<u32, ProcessTrafficState>,
}

/// A tracker as a value.
#[verifier::ext_equal]
pub struct TrackerView {
    pub width: u64,
    pub processes: Map<u32, ProcessTraffic>,
}

impl View for ProcessTrafficTracker {
    type V = TrackerView;

    closed spec fn view(&self) -> TrackerView {
        TrackerView {
            width: self.bucket_width_nanos,
            processes: self.processes@.map_values(|state: ProcessTrafficState| state@),
        }
    }
}

impl TrackerView {
    /// What is known of a process.
    pub open spec fn process(self, pid: u32) -> ProcessTraffic {
        if self.processes.dom().contains(pid) {
            self.processes[pid]
        } else {
            no_traffic()
        }
    }

    /// The tracker with one more event.
    pub open spec fn recorded(self, event: NetworkEvent) -> TrackerView {
        TrackerView {
            processes: self.processes.insert(
                event.pid,
                self.process(event.pid).counted(event, self.width),
            ),
            ..self
        }
    }

    /// The tracker without the processes that were last seen before a time.
    pub open spec fn since(self, minimum: u64) -> TrackerView {
        TrackerView {
            processes: self.processes.restrict(
                Set::new(|pid: u32| self.processes[pid].last >= minimum),
            ),
            ..self
        }
    }

    /// Whether counters are those of every process at a sample time, in the order of the process
    /// numbers.
    pub open spec fn sampled_as(
        self,
        timestamp: u64,
        counters: Seq<ProcessTrafficCounters>,
    ) -> bool {
        &&& forall|i: int, j: int|
            #![trigger counters[i], counters[j]]
            0 <= i < j < counters.len() ==> counters[i].pid < counters[j].pid
        &&& forall|i: int|
            0 <= i < counters.len() ==> self.processes.dom().contains(
                (#[trigger] counters[i]).pid,
            ) && counters[i] == self.processes[counters[i].pid].counters(
                counters[i].pid,
                timestamp,
                self.width,
            )
        &&& forall|pid: u32| #[trigger]
            self.processes.dom().contains(pid) ==> exists|i: int|
                0 <= i < counters.len() && (#[trigger] counters[i]).pid == pid
    }
}

impl ProcessTrafficTracker {
    /// The width is not zero, and every process is kept once.
    pub closed spec fn well_formed(&self) -> bool {
        &&& self.bucket_width_nanos > 0
        &&& self.processes.well_formed()
        &&& forall|pid: u32| #[trigger]
            self.processes@.dom().contains(pid) ==> self.processes@[pid].buckets.well_formed()
    }

    /// A tracker of no process yet; there is none without width.
    pub fn new(bucket_width_nanos: u64) -> (tracker: Option<ProcessTrafficTracker>)
        ensures
            match tracker {
                Some(tracker) => tracker.well_formed() && tracker@ == (TrackerView {
                    width: bucket_width_nanos,
                    processes: Map::empty(),
                }),
                None => true,
            },
            tracker is Some <==> bucket_width_nanos != 0,
    {
        if bucket_width_nanos == 0 {
            return None;
        }
        let tracker = ProcessTrafficTracker { bucket_width_nanos, processes: SortedMap::new() };
        assert(tracker@.processes =~= Map::empty());
        Some(tracker)
    }

    /// Counts an event.
    pub fn record(&mut self, event: &NetworkEvent)
        requires
            old(self).well_formed(),
        ensures
            final(self).well_formed(),
            final(self)@ == old(self)@.recorded(*event),
    {
        let width: u64 = self.bucket_width_nanos;
        let start: u64 = model::start_of_bucket(event.timestamp_unix_nanos, width);
        let ghost before = self.processes@;
        let fresh = ProcessTrafficState {
            send_bytes_total: 0,
            receive_bytes_total: 0,
            last_timestamp_unix_nanos: 0,
            buckets: SortedMap::new(),
        };
        assert(fresh@ =~= no_traffic());
        let state = self.processes.entry(event.pid, fresh);
        let ghost known = state@;
        if state.last_timestamp_unix_nanos < event.timestamp_unix_nanos {
            state.last_timestamp_unix_nanos = event.timestamp_unix_nanos;
        }
        let bucket = state.buckets.entry(start, (0, 0));
        match event.direction {
            TrafficDirection::Send => {
                state.send_bytes_total = state.send_bytes_total.saturating_add(event.bytes);
                bucket.0 = bucket.0.saturating_add(event.bytes);
            },
            TrafficDirection::Receive => {
                state.receive_bytes_total = state.receive_bytes_total.saturating_add(event.bytes);
                bucket.1 = bucket.1.saturating_add(event.bytes);
            },
        }
        let earliest: u64 = start.saturating_sub(width);
        let ghost recent = |k: u64, v: (u64, u64)| k >= earliest;
        let keep = |k: &u64, v: &(u64, u64)| -> (r: bool)
            ensures
                r == recent(k@, *v)
        {
            *k >= earliest
        };
        state.buckets.retain(keep, Ghost(recent));
        assert(state@ =~= known.counted(*event, width));
        assert(self@.processes =~= old(self)@.recorded(*event).processes);
    }

    /// The counters of every process at a sample time, in the order of the process numbers.
    pub fn snapshot_at(&self, timestamp_unix_nanos: u64) -> (counters: Vec<ProcessTrafficCounters>)
        requires
            self.well_formed(),
        ensures
            self@.sampled_as(timestamp_unix_nanos, counters@),
    {
        let width: u64 = self.bucket_width_nanos;
        let start: u64 = model::start_of_bucket(timestamp_unix_nanos, width);
        let entries = self.processes.entries();
        let mut counters: Vec<ProcessTrafficCounters> = Vec::new();
        for i in 0..entries.len()
            invariant
                self.well_formed(),
                width == self.bucket_width_nanos,
                start == model::bucket_start(timestamp_unix_nanos, width),
                entries@ == self.processes.listing(),
                counters@.len() == i,
                forall|j: int|
                    0 <= j < i ==> #[trigger] counters@[j] == entries@[j].1@.counters(
                        entries@[j].0,
                        timestamp_unix_nanos,
                        width,
                    ),
        {
            let pid: u32 = entries[i].0;
            let state = &entries[i].1;
            proof {
                ordered::lemma_entry_in_map(entries@, i as int);
                assert(self.processes@.dom().contains(pid));
            }
            let (send, receive): (u64, u64) = match state.buckets.get(&start) {
                Some(bucket) => *bucket,
                None => (0, 0),
            };
            counters.push(
                ProcessTrafficCounters {
                    pid,
                    send_bytes_total: state.send_bytes_total,
                    receive_bytes_total: state.receive_bytes_total,
                    send_bytes_per_second: bytes_per_second(send, width),
                    receive_bytes_per_second: bytes_per_second(receive, width),
                    last_timestamp_unix_nanos: state.last_timestamp_unix_nanos,
                },
            );
        }
        proof {
            let all = self.processes.listing();
            assert forall|i: int| 0 <= i < counters@.len() implies self@.processes.dom().contains(
                (#[trigger] counters@[i]).pid,
            ) && counters@[i] == self@.processes[counters@[i].pid].counters(
                counters@[i].pid,
                timestamp_unix_nanos,
                self@.width,
            ) by {
                ordered::lemma_entry_in_map(all, i);
            }
            assert forall|i: int, j: int|
                #![trigger counters@[i], counters@[j]]
                0 <= i < j < counters@.len() implies counters@[i].pid < counters@[j].pid by {
                assert(u32::before(all[i].0@, all[j].0@));
            }
            assert forall|pid: u32| #[trigger]
                self@.processes.dom().contains(pid) implies exists|i: int|
                0 <= i < counters@.len() && (#[trigger] counters@[i]).pid == pid by {
                let i = choose|i: int| 0 <= i < all.len() && (#[trigger] all[i]).0@ == pid;
                assert(counters@[i].pid == pid);
            }
        }
        counters
    }

    /// Forgets the processes that were last seen before a time.
    pub fn retain_since(&mut self, minimum_timestamp_unix_nanos: u64)
        requires
            old(self).well_formed(),
        ensures
            final(self).well_formed(),
            final(self)@ == old(self)@.since(minimum_timestamp_unix_nanos),
    {
        let ghost recent = |k: u32, state: ProcessTrafficState|
            state.last_timestamp_unix_nanos >= minimum_timestamp_unix_nanos;
        let keep = |k: &u32, state: &ProcessTrafficState| -> (r: bool)
            ensures
                r == recent(k@, *state)
        {
            state.last_timestamp_unix_nanos >= minimum_timestamp_unix_nanos
        };
        self.processes.retain(keep, Ghost(recent));
        assert(self@.processes =~= old(self)@.since(minimum_timestamp_unix_nanos).processes);
    }

    /// Forgets the processes that were last seen longest ago until no more than `maximum` are
    /// known.
    pub fn trim_to_maximum(&mut self, maximum: usize)
        requires
            old(self).well_formed(),
        ensures
            final(self).well_formed(),
            final(self)@.width == old(self)@.width,
            ordered::newest_kept::<u32, ProcessTraffic>(
                old(self)@.processes,
                final(self)@.processes,
                maximum as nat,
                |process: ProcessTraffic| process.last,
            ),
    {
        let ghost last = |state: ProcessTrafficState| state.last_timestamp_unix_nanos;
        let age = |state: &ProcessTrafficState| -> (r: u64)
            ensures
                r == last(*state)
        {
            state.last_timestamp_unix_nanos
        };
        let ghost before = self.processes@;
        self.processes.keep_newest(maximum, age, Ghost(last));
        proof {
            assert forall|pid: u32| #[trigger]
                self.processes@.dom().contains(pid) implies before.dom().contains(pid)
                && self.processes@[pid] == before[pid] by {}
            assert(self@.processes.dom() =~= self.processes@.dom());
            assert(old(self)@.processes.dom() =~= before.dom());
            if before.dom().len() <= maximum {
                assert(self@.processes =~= old(self)@.processes);
            }
        }
    }
}

impl ProcessTraffic {
    /// No stretch starts after the newest event.
    pub open spec fn dated(self) -> bool {
        forall|start: u64| #[trigger] self.buckets.dom().contains(start) ==> start <= self.last
    }
}

/// Counting an event starts no stretch after the newest event.
pub proof fn law_stretches_are_dated(process: ProcessTraffic, event: NetworkEvent, width: u64)
    requires
        width > 0,
        process.dated(),
    ensures
        process.counted(event, width).dated(),
        no_traffic().dated(),
{
    vstd::arithmetic::div_mod::lemma_fundamental_div_mod(
        event.timestamp_unix_nanos as int,
        width as int,
    );
    vstd::arithmetic::div_mod::lemma_mod_bound(event.timestamp_unix_nanos as int, width as int);
    vstd::arithmetic::mul::lemma_mul_is_commutative(
        event.timestamp_unix_nanos as int / width as int,
        width as int,
    );
}

/// From the stretch of time after its newest event on a process has no rate; its totals stay.
pub proof fn law_quiet_process_has_no_rate(
    process: ProcessTraffic,
    pid: u32,
    timestamp: u64,
    width: u64,
)
    requires
        width > 0,
        process.dated(),
        model::bucket_start(timestamp, width) > process.last,
    ensures
        process.counters(pid, timestamp, width).send_bytes_per_second == 0,
        process.counters(pid, timestamp, width).receive_bytes_per_second == 0,
        process.counters(pid, timestamp, width).send_bytes_total == process.sent,
        process.counters(pid, timestamp, width).receive_bytes_total == process.received,
{
    assert(process.sampled(timestamp, width) == (0u64, 0u64));
    assert(per_second(0, width) == 0) by {
        vstd::arithmetic::div_mod::lemma_div_basics(width as int);
    }
}

/// Forgetting twice what is older than a time is the same as forgetting it once.
pub proof fn law_forgetting_is_idempotent(tracker: TrackerView, minimum: u64)
    ensures
        tracker.since(minimum).since(minimum) == tracker.since(minimum),
{
    assert(tracker.since(minimum).since(minimum).processes =~= tracker.since(minimum).processes);
}

/// The bytes that the events of a process carried one way at a time from `start` up to, not at,
/// `end`.
pub open spec fn carried(
    events: Seq<NetworkEvent>,
    pid: u32,
    direction: TrafficDirection,
    start: int,
    end: int,
) -> nat
    decreases events.len(),
{
    if events.len() == 0 {
        0
    } else {
        let last = events.last();
        carried(events.drop_last(), pid, direction, start, end) + (if last.pid == pid
            && last.direction == direction && start <= last.timestamp_unix_nanos < end {
            last.bytes as nat
        } else {
            0
        })
    }
}

/// A tracker after a run of events.
pub open spec fn after_events(tracker: TrackerView, events: Seq<NetworkEvent>) -> TrackerView
    decreases events.len(),
{
    if events.len() == 0 {
        tracker
    } else {
        after_events(tracker, events.drop_last()).recorded(events.last())
    }
}

/// After a run of events a process has as totals the bytes that its events carried, those sent and
/// those received, and as its last time that of its newest event. Sampled at a time that no event
/// is after, its rates are what it carried in the stretch of that time.
pub proof fn law_counters_sum_their_events(
    tracker: TrackerView,
    events: Seq<NetworkEvent>,
    pid: u32,
    timestamp: u64,
)
    requires
        tracker.width > 0,
        tracker.processes == Map::<u32, ProcessTraffic>::empty(),
        forall|i: int|
            0 <= i < events.len() ==> (#[trigger] events[i]).timestamp_unix_nanos <= timestamp,
    ensures
        ({
            let width = tracker.width as int;
            let start = (timestamp as int / width) * width;
            let after = after_events(tracker, events);
            let counters = after.process(pid).counters(pid, timestamp, tracker.width);
            &&& after.width == tracker.width
            &&& counters.pid == pid
            &&& counters.send_bytes_total == model::saturated(
                carried(events, pid, TrafficDirection::Send, 0, u64::MAX + 1) as int,
            )
            &&& counters.receive_bytes_total == model::saturated(
                carried(events, pid, TrafficDirection::Receive, 0, u64::MAX + 1) as int,
            )
            &&& after.process(pid).at(start as u64).0 == model::saturated(
                carried(events, pid, TrafficDirection::Send, start, start + width) as int,
            )
            &&& after.process(pid).at(start as u64).1 == model::saturated(
                carried(events, pid, TrafficDirection::Receive, start, start + width) as int,
            )
            &&& counters.send_bytes_per_second == model::saturated(
                after.process(pid).at(start as u64).0 * 1_000_000_000 / width,
            )
            &&& counters.receive_bytes_per_second == model::saturated(
                after.process(pid).at(start as u64).1 * 1_000_000_000 / width,
            )
            &&& forall|i: int|
                0 <= i < events.len() && (#[trigger] events[i]).pid == pid
                    ==> events[i].timestamp_unix_nanos <= counters.last_timestamp_unix_nanos
            &&& after.processes.dom().contains(pid) ==> exists|i: int|
                0 <= i < events.len() && (#[trigger] events[i]).pid == pid
                    && events[i].timestamp_unix_nanos == counters.last_timestamp_unix_nanos
            &&& after.processes.dom().contains(pid) <==> exists|i: int|
                0 <= i < events.len() && (#[trigger] events[i]).pid == pid
        }),
    decreases events.len(),
{
    let width = tracker.width as int;
    let start = model::bucket_start(timestamp, tracker.width);
    model::law_stretch_holds_its_timestamp(timestamp, tracker.width);
    assert(start == (timestamp as int / width) * width);
    if events.len() > 0 {
        let shorter = events.drop_last();
        let last = events.last();
        assert forall|i: int| 0 <= i < shorter.len() implies (
        #[trigger] shorter[i]).timestamp_unix_nanos <= timestamp by {
            assert(events[i].timestamp_unix_nanos <= timestamp);
        }
        law_counters_sum_their_events(tracker, shorter, pid, timestamp);
        assert(events[events.len() - 1] == last);
        let before = after_events(tracker, shorter);
        let after = after_events(tracker, events);
        let at = model::bucket_start(last.timestamp_unix_nanos, tracker.width);
        model::law_stretch_holds_its_timestamp(last.timestamp_unix_nanos, tracker.width);
        lemma_stretches_in_order(last.timestamp_unix_nanos, timestamp, tracker.width);
        if last.pid == pid {
            assert(after.process(pid) == before.process(pid).counted(last, tracker.width));
            assert forall|i: int|
                0 <= i < events.len() && (#[trigger] events[i]).pid == pid implies
                events[i].timestamp_unix_nanos <= after.process(pid).last by {
                if i < shorter.len() {
                    assert(shorter[i] == events[i]);
                }
            }
            assert(exists|i: int|
                0 <= i < events.len() && (#[trigger] events[i]).pid == pid
                    && events[i].timestamp_unix_nanos == after.process(pid).last) by {
                if before.processes.dom().contains(pid) && last.timestamp_unix_nanos
                    < before.process(pid).last {
                    let i = choose|i: int|
                        0 <= i < shorter.len() && (#[trigger] shorter[i]).pid == pid
                            && shorter[i].timestamp_unix_nanos == before.process(pid).last;
                    assert(events[i] == shorter[i]);
                } else {
                    assert(events[events.len() - 1].timestamp_unix_nanos
                        == after.process(pid).last);
                }
            }
        } else {
            assert(after.process(pid) == before.process(pid));
            assert forall|i: int|
                0 <= i < events.len() && (#[trigger] events[i]).pid == pid implies
                events[i].timestamp_unix_nanos <= after.process(pid).last by {
                assert(shorter[i] == events[i]);
            }
            if after.processes.dom().contains(pid) {
                let i = choose|i: int|
                    0 <= i < shorter.len() && (#[trigger] shorter[i]).pid == pid
                        && shorter[i].timestamp_unix_nanos == before.process(pid).last;
                assert(events[i] == shorter[i]);
            } else {
                assert forall|i: int| 0 <= i < events.len() implies (#[trigger] events[i]).pid
                    != pid by {
                    if i < shorter.len() {
                        assert(shorter[i] == events[i]);
                    }
                }
            }
        }
    }
}

/// The stretch of an earlier time is no later, and is the same where it holds the later time too.
proof fn lemma_stretches_in_order(earlier: u64, time: u64, width: u64)
    requires
        width > 0,
        earlier <= time,
    ensures
        model::bucket_start(earlier, width) <= model::bucket_start(time, width),
        model::bucket_start(earlier, width) == model::bucket_start(time, width) <==> earlier
            >= model::bucket_start(time, width),
{
    let w = width as int;
    model::law_stretch_holds_its_timestamp(earlier, width);
    model::law_stretch_holds_its_timestamp(time, width);
    let p = earlier as int / w;
    let q = time as int / w;
    vstd::arithmetic::div_mod::lemma_div_is_ordered(earlier as int, time as int, w);
    assert(p * w <= q * w) by (nonlinear_arith)
        requires
            p <= q,
            w > 0,
    ;
    if earlier >= model::bucket_start(time, width) {
        assert(p == q) by (nonlinear_arith)
            requires
                p <= q,
                w > 0,
                q * w <= earlier < p * w + w,
        ;
    }
}

/// A rate is the whole number of bytes a second: times the width it is no more than the bytes times
/// the nanoseconds of a second, and less than that by less than the width.
pub proof fn law_rate_is_of_a_second(bytes: u64, width: u64)
    requires
        width > 0,
        bytes as int * 1_000_000_000 / (width as int) <= u64::MAX,
    ensures
        per_second(bytes, width) * width <= bytes * 1_000_000_000,
        bytes * 1_000_000_000 < per_second(bytes, width) * width + width,
        per_second(bytes, 1_000_000_000) == bytes,
{
    let w = width as int;
    let n = bytes as int * 1_000_000_000;
    vstd::arithmetic::div_mod::lemma_fundamental_div_mod(n, w);
    vstd::arithmetic::div_mod::lemma_mod_bound(n, w);
    vstd::arithmetic::mul::lemma_mul_is_commutative(n / w, w);
    assert(n >= 0);
    vstd::arithmetic::div_mod::lemma_div_pos_is_pos(n, w);
}

/// A process is forgotten if and only if its newest event is older than the time given.
pub proof fn law_old_processes_are_forgotten(tracker: TrackerView, minimum: u64, pid: u32)
    ensures
        tracker.since(minimum).processes.dom().contains(pid) <==> tracker.processes.dom().contains(
            pid,
        ) && tracker.processes[pid].last >= minimum,
        tracker.since(minimum).processes.dom().contains(pid) ==> tracker.since(
            minimum,
        ).processes[pid] == tracker.processes[pid],
{
}

} // verus!
