//! The running application: a bounded queue of events, the worker that aggregates them, and what
//! it publishes.
use crate::aggregator;
use crate::aggregator::TrafficAggregator;
use crate::curve::{CurveView, TrafficCurve};
use crate::duration;
use crate::model::{
    FlowKey, FlowSnapshot, NetworkEvent, ProcessIconState, ProcessSnapshot, ProcessTrafficCounters,
    SystemSnapshot, SystemView,
};
use crate::ordered;
use crate::ordered::OrderedKey;
use crate::snapshot;
use crate::snapshot::{
    ApplicationSnapshot, CaptureStatus, Publication, RuntimeConfig, RuntimeCounters,
};
use crate::text;
use crate::tracker;
use crate::tracker::{ProcessTraffic, ProcessTrafficTracker, TrackerView};
use std::collections::VecDeque;
use vstd::prelude::*;

verus! {

/// What became of an event that was submitted.
#[derive(Debug, Clone, Copy, PartialEq, Eq, Structural)]
pub enum SubmitOutcome {
    Accepted,
    DroppedFull,
    Stopped,
}

/// Why the application could not run.
#[derive(Debug, Clone, PartialEq, Eq)]
pub struct RuntimeError(String);

impl View for RuntimeError {
    type V = Seq<char>;

    closed spec fn view(&self) -> Seq<char> {
        self.0@
    }
}

impl RuntimeError {
    /// An error with a message.
    pub fn new(message: &str) -> (error: RuntimeError)
        ensures
            error@ == message@,
    {
        RuntimeError(message.to_owned())
    }

    /// The message.
    pub fn message(&self) -> (message: &str)
        ensures
            message@ == self@,
    {
        self.0.as_str()
    }
}

/// A reading of the clocks: the calendar's, and one that never goes back.
#[derive(Debug, Clone, Copy, PartialEq, Eq, Structural)]
pub struct Moment {
    pub unix_nanos: u64,
    pub steady_nanos: u64,
}

/// Whether every bound of a configuration is there.
pub open spec fn bounds_hold(config: RuntimeConfig) -> bool {
    &&& config.queue_capacity > 0
    &&& config.snapshot_interval@ > 0
    &&& config.flow_idle_timeout@ > 0
    &&& config.maximum_flows > 0
    &&& config.curve_bucket_width@ > 0
    &&& config.curve_maximum_buckets > 0
}

/// Refuses a configuration without a bound.
pub fn validate_config(config: &RuntimeConfig) -> (r: Result<(), RuntimeError>)
    ensures
        r is Ok <==> bounds_hold(*config),
        r matches Err(error) ==> error@
            == "runtime queue, snapshot interval, flow idle timeout and maximum flows must be nonzero"@,
{
    if config.queue_capacity == 0 || config.snapshot_interval.is_zero()
        || config.flow_idle_timeout.is_zero() || config.maximum_flows == 0
        || config.curve_bucket_width.is_zero() || config.curve_maximum_buckets == 0 {
        return Err(
            RuntimeError::new(
                "runtime queue, snapshot interval, flow idle timeout and maximum flows must be nonzero",
            ),
        );
    }
    Ok(())
}

/// The queue of events as a value.
#[verifier::ext_equal]
pub struct IngressView {
    pub capacity: usize,
    pub accepting: bool,
    pub queue: Seq<NetworkEvent>,
    pub counters: RuntimeCounters,
}

impl IngressView {
    /// Counts agree with each other and with the queue. They are counted modulo two to the power of
    /// sixty-four: what was received was accepted, or dropped for want of room, or came after the
    /// stop; what was accepted was processed, or is waiting.
    pub open spec fn well_formed(self) -> bool {
        &&& self.capacity > 0
        &&& self.queue.len() <= self.capacity
        &&& self.counters.queue_depth == self.queue.len()
        &&& self.counters.queue_depth <= self.counters.queue_peak <= self.capacity
        &&& (self.counters.accepted + self.counters.dropped_full + self.counters.dropped_stopped
            - self.counters.received) % 0x1_0000_0000_0000_0000 == 0
        &&& (self.counters.processed + self.queue.len() - self.counters.accepted)
            % 0x1_0000_0000_0000_0000 == 0
    }

    /// What becomes of an event.
    pub open spec fn outcome(self) -> SubmitOutcome {
        if !self.accepting {
            SubmitOutcome::Stopped
        } else if self.queue.len() >= self.capacity {
            SubmitOutcome::DroppedFull
        } else {
            SubmitOutcome::Accepted
        }
    }

    /// The queue once an event has been submitted.
    pub open spec fn submitted(self, event: NetworkEvent) -> IngressView {
        let seen = RuntimeCounters {
            received: one_more(self.counters.received),
            ..self.counters
        };
        match self.outcome() {
            SubmitOutcome::Stopped => IngressView {
                counters: RuntimeCounters {
                    dropped_stopped: one_more(seen.dropped_stopped),
                    ..seen
                },
                ..self
            },
            SubmitOutcome::DroppedFull => IngressView {
                counters: RuntimeCounters { dropped_full: one_more(seen.dropped_full), ..seen },
                ..self
            },
            SubmitOutcome::Accepted => IngressView {
                queue: self.queue.push(event),
                counters: RuntimeCounters {
                    accepted: one_more(seen.accepted),
                    queue_depth: (seen.queue_depth + 1) as usize,
                    queue_peak: if seen.queue_peak < seen.queue_depth + 1 {
                        (seen.queue_depth + 1) as usize
                    } else {
                        seen.queue_peak
                    },
                    ..seen
                },
                ..self
            },
        }
    }

    /// The queue once its first event has been taken out and processed.
    pub open spec fn taken(self) -> IngressView {
        IngressView {
            queue: self.queue.drop_first(),
            counters: RuntimeCounters {
                processed: one_more(self.counters.processed),
                queue_depth: (self.counters.queue_depth - 1) as usize,
                ..self.counters
            },
            ..self
        }
    }
}

/// A count with one more, starting again from zero behind the largest.
pub open spec fn one_more(n: u64) -> u64 {
    if n == u64::MAX {
        0
    } else {
        (n + 1) as u64
    }
}

fn count_one(n: u64) -> (m: u64)
    ensures
        m == one_more(n),
{
    if n == u64::MAX {
        0
    } else {
        n + 1
    }
}

/// Where events come in. It never waits for room.
#[derive(Debug)]
pub struct EventIngress {
    capacity: usize,
    accepting: bool,
    queue: VecDeque<NetworkEvent>,
    counters: RuntimeCounters,
}

impl View for EventIngress {
    type V = IngressView;

    closed spec fn view(&self) -> IngressView {
        IngressView {
            capacity: self.capacity,
            accepting: self.accepting,
            queue: self.queue@,
            counters: self.counters,
        }
    }
}

/// No counts yet.
pub open spec fn no_counts() -> RuntimeCounters {
    RuntimeCounters {
        received: 0,
        accepted: 0,
        dropped_full: 0,
        dropped_stopped: 0,
        processed: 0,
        queue_depth: 0,
        queue_peak: 0,
    }
}

impl EventIngress {
    /// An empty queue.
    pub fn new(config: &RuntimeConfig) -> (ingress: EventIngress)
        requires
            config.queue_capacity > 0,
        ensures
            ingress@ == (IngressView {
                capacity: config.queue_capacity,
                accepting: true,
                queue: Seq::empty(),
                counters: no_counts(),
            }),
            ingress@.well_formed(),
    {
        EventIngress {
            capacity: config.queue_capacity,
            accepting: true,
            queue: VecDeque::new(),
            counters: RuntimeCounters {
                received: 0,
                accepted: 0,
                dropped_full: 0,
                dropped_stopped: 0,
                processed: 0,
                queue_depth: 0,
                queue_peak: 0,
            },
        }
    }

    /// Hands an event over, unless the queue is full or no longer accepts any.
    pub fn try_submit(&mut self, event: NetworkEvent) -> (outcome: SubmitOutcome)
        requires
            old(self)@.well_formed(),
        ensures
            outcome == old(self)@.outcome(),
            final(self)@ == old(self)@.submitted(event),
            final(self)@.well_formed(),
    {
        self.counters.received = count_one(self.counters.received);
        if !self.accepting {
            self.counters.dropped_stopped = count_one(self.counters.dropped_stopped);
            return SubmitOutcome::Stopped;
        }
        if self.queue.len() >= self.capacity {
            self.counters.dropped_full = count_one(self.counters.dropped_full);
            return SubmitOutcome::DroppedFull;
        }
        self.queue.push_back(event);
        self.counters.accepted = count_one(self.counters.accepted);
        self.counters.queue_depth = self.counters.queue_depth + 1;
        if self.counters.queue_peak < self.counters.queue_depth {
            self.counters.queue_peak = self.counters.queue_depth;
        }
        SubmitOutcome::Accepted
    }

    /// Takes the first event out of the queue.
    fn take(&mut self) -> (event: Option<NetworkEvent>)
        requires
            old(self)@.well_formed(),
        ensures
            match event {
                Some(event) => old(self)@.queue.len() > 0 && event == old(self)@.queue[0]
                    && final(self)@ == old(self)@.taken(),
                None => old(self)@.queue.len() == 0 && final(self)@ == old(self)@,
            },
            final(self)@.well_formed(),
    {
        match self.queue.pop_front() {
            Some(event) => {
                self.counters.queue_depth = self.counters.queue_depth - 1;
                self.counters.processed = count_one(self.counters.processed);
                assert(self@.queue =~= old(self)@.queue.drop_first());
                Some(event)
            },
            None => None,
        }
    }
}

/// Who holds the latest view of the system.
#[derive(Debug, PartialEq, Eq)]
pub struct SystemSnapshotPublisher {
    snapshot: Option<SystemSnapshot>,
}

impl View for SystemSnapshotPublisher {
    type V = Option<SystemView>;

    closed spec fn view(&self) -> Option<SystemView> {
        snapshot::system_view(self.snapshot)
    }
}

/// A process with the picture that a later look has found: it is taken over from the process with
/// the same identity, if that has the same image and its picture was looked for.
pub open spec fn with_icon(
    process: ProcessSnapshot,
    enriched: Seq<ProcessSnapshot>,
) -> ProcessSnapshot {
    match snapshot::process_of(enriched, process.key) {
        Some(found) => if text::optional(found.image_path) == text::optional(process.image_path)
            && found.icon !is NotLoaded {
            ProcessSnapshot { icon: found.icon, ..process }
        } else {
            process
        },
        None => process,
    }
}

impl SystemSnapshotPublisher {
    /// No view yet.
    pub fn new() -> (publisher: SystemSnapshotPublisher)
        ensures
            publisher@ is None,
    {
        SystemSnapshotPublisher { snapshot: None }
    }

    /// Replaces the view of the system.
    pub fn publish(&mut self, snapshot: SystemSnapshot)
        ensures
            final(self)@ == Some(snapshot@),
    {
        self.snapshot = Some(snapshot);
    }

    /// Takes pictures over into the processes of the latest view that they belong to.
    pub fn merge_process_icons(&mut self, enriched: &SystemSnapshot)
        ensures
            final(self)@ == (match old(self)@ {
                Some(system) => Some(
                    SystemView {
                        processes: system.processes.map_values(
                            |process: ProcessSnapshot| with_icon(process, enriched@.processes),
                        ),
                        ..system
                    },
                ),
                None => None,
            }),
    {
        let current = match &self.snapshot {
            Some(current) => current,
            None => {
                return;
            },
        };
        let index = snapshot::index_by_key(&enriched.processes);
        let mut changed = current.clone();
        let n: usize = changed.processes.len();
        let ghost before = current@;
        let mut i: usize = 0;
        while i < n
            invariant
                i <= n,
                n == before.processes.len(),
                changed@ == (SystemView { processes: changed@.processes, ..before }),
                changed@.processes.len() == n,
                forall|j: int|
                    0 <= j < i ==> #[trigger] changed@.processes[j] == with_icon(
                        before.processes[j],
                        enriched@.processes,
                    ),
                forall|j: int| i <= j < n ==> #[trigger] changed@.processes[j] == before.processes[j],
                index.well_formed(),
                forall|key: crate::model::ProcessKey|
                    #![trigger snapshot::placed_at(enriched.processes@, index@, key)]
                    snapshot::process_of(enriched.processes@, key) == snapshot::placed_at(
                        enriched.processes@,
                        index@,
                        key,
                    ),
                forall|key: crate::model::ProcessKey| #[trigger]
                    index@.dom().contains(key) ==> index@[key] < enriched.processes@.len(),
            decreases n - i,
        {
            let key = changed.processes[i].key;
            assert(changed@.processes[i as int] == before.processes[i as int]);
            assert(snapshot::placed_at(enriched.processes@, index@, key) == snapshot::process_of(
                enriched@.processes,
                key,
            ));
            if let Some(at) = index.get(&key) {
                let found = &enriched.processes[*at];
                let looked_for = match found.icon {
                    ProcessIconState::NotLoaded => false,
                    _ => true,
                };
                if text::same_optional(&found.image_path, &changed.processes[i].image_path) && looked_for {
                    changed.processes[i].icon = found.icon.clone();
                }
            }
            i += 1;
        }
        assert(changed@.processes =~= before.processes.map_values(
            |process: ProcessSnapshot| with_icon(process, enriched@.processes),
        ));
        self.snapshot = Some(changed);
    }
}

/// The worker's state as a value.
#[verifier::ext_equal]
pub struct WorkerView {
    pub config: RuntimeConfig,
    pub flows: Map<FlowKey, FlowSnapshot>,
    pub curve: CurveView,
    pub tracker: TrackerView,
    /// The newest event's time, and the steady clock when it came.
    pub clock: Option<(u64, u64)>,
    /// When the next publication is due on the steady clock.
    pub next_publication: u64,
}

impl WorkerView {
    /// The worker with one more event.
    pub open spec fn aggregated(self, event: NetworkEvent, now: Moment) -> WorkerView {
        WorkerView {
            flows: aggregator::recorded(self.flows, event),
            curve: self.curve.recorded(event),
            tracker: self.tracker.recorded(event),
            clock: match self.clock {
                Some((timestamp, seen_at)) if event.timestamp_unix_nanos < timestamp => self.clock,
                _ => Some((event.timestamp_unix_nanos, now.steady_nanos)),
            },
            ..self
        }
    }

    /// The time that the curve shows: that of the newest event and what has passed since.
    pub open spec fn curve_time(self, now: Moment) -> u64 {
        match self.clock {
            Some((timestamp, seen_at)) => crate::model::saturated(
                timestamp + tracker::back(now.steady_nanos, seen_at),
            ),
            None => now.unix_nanos,
        }
    }

    /// The oldest last event of what is not idle.
    pub open spec fn idle_cutoff(self, now: Moment) -> u64 {
        tracker::back(now.unix_nanos, duration::clamped(self.config.flow_idle_timeout@))
    }
}

/// Aggregates events and publishes what it has.
pub struct AggregationWorker {
    config: RuntimeConfig,
    aggregator: TrafficAggregator,
    curve: TrafficCurve,
    process_tracker: ProcessTrafficTracker,
    curve_clock: Option<(u64, u64)>,
    next_publication: u64,
}

impl View for AggregationWorker {
    type V = WorkerView;

    closed spec fn view(&self) -> WorkerView {
        WorkerView {
            config: self.config,
            flows: self.aggregator@,
            curve: self.curve@,
            tracker: self.process_tracker@,
            clock: self.curve_clock,
            next_publication: self.next_publication,
        }
    }
}

/// A publication of a worker's state: flows and processes idle for too long, and more of them than
/// there may be, have been forgotten, and the clock of the curve has been put forward.
pub open spec fn published_as(
    before: WorkerView,
    after: WorkerView,
    publication: Publication,
    now: Moment,
) -> bool {
    &&& after == (WorkerView {
        flows: after.flows,
        curve: before.curve.advanced(before.curve_time(now)),
        tracker: after.tracker,
        next_publication: crate::model::saturated(
            now.steady_nanos + duration::clamped(before.config.snapshot_interval@),
        ),
        ..before
    })
    &&& ordered::newest_kept::<FlowKey, FlowSnapshot>(
        aggregator::since(before.flows, before.idle_cutoff(now)),
        after.flows,
        before.config.maximum_flows as nat,
        |flow: FlowSnapshot| flow.last_timestamp_unix_nanos,
    )
    &&& after.tracker.width == before.tracker.width
    &&& ordered::newest_kept::<u32, ProcessTraffic>(
        before.tracker.since(before.idle_cutoff(now)).processes,
        after.tracker.processes,
        before.config.maximum_flows as nat,
        |process: ProcessTraffic| process.last,
    )
    &&& aggregator::listed_as(after.flows, publication.flows@)
    &&& publication.curve@ == after.curve
    &&& after.tracker.sampled_as(now.unix_nanos, publication.process_counters@)
}

impl AggregationWorker {
    /// What the worker holds is as it should be.
    pub closed spec fn well_formed(&self) -> bool {
        &&& bounds_hold(self.config)
        &&& self.aggregator.well_formed()
        &&& self.curve@.well_formed()
        &&& self.process_tracker.well_formed()
        &&& self.curve@.width == duration::clamped(self.config.curve_bucket_width@)
        &&& self.curve@.maximum == self.config.curve_maximum_buckets
        &&& self.process_tracker@.width == self.curve@.width
    }

    /// What being well formed says of the curve.
    pub proof fn lemma_curve(&self)
        requires
            self.well_formed(),
        ensures
            self@.curve.well_formed(),
            bounds_hold(self@.config),
            self@.curve.width == duration::clamped(self@.config.curve_bucket_width@),
            self@.curve.maximum == self@.config.curve_maximum_buckets,
            self@.tracker.width == self@.curve.width,
    {
    }

    /// A worker that has seen no event.
    pub fn new(
        config: RuntimeConfig,
        now: Moment,
    ) -> (worker: Result<AggregationWorker, RuntimeError>)
        ensures
            worker is Ok <==> bounds_hold(config),
            match worker {
                Ok(worker) => {
                    &&& worker.well_formed()
                    &&& worker@.config == config
                    &&& worker@.flows == Map::<FlowKey, FlowSnapshot>::empty()
                    &&& worker@.tracker.processes == Map::<u32, ProcessTraffic>::empty()
                    &&& worker@.tracker.width == duration::clamped(config.curve_bucket_width@)
                    &&& worker@.curve == (CurveView {
                        width: duration::clamped(config.curve_bucket_width@),
                        maximum: config.curve_maximum_buckets,
                        events_received: 0,
                        events_accepted: 0,
                        events_late_dropped: 0,
                        bytes_received: 0,
                        bytes_accepted: 0,
                        bytes_late_dropped: 0,
                        buckets: Seq::empty(),
                    })
                    &&& worker@.clock is None
                    &&& worker@.next_publication == crate::model::saturated(
                        now.steady_nanos + duration::clamped(config.snapshot_interval@),
                    )
                },
                Err(error) => error@
                    == "runtime queue, snapshot interval, flow idle timeout and maximum flows must be nonzero"@,
            },
    {
        if let Err(error) = validate_config(&config) {
            return Err(error);
        }
        let width: u64 = config.curve_bucket_width.clamped_nanos();
        let curve = TrafficCurve::new(width, config.curve_maximum_buckets).unwrap();
        let process_tracker = ProcessTrafficTracker::new(width).unwrap();
        Ok(
            AggregationWorker {
                config,
                aggregator: TrafficAggregator::default(),
                curve,
                process_tracker,
                curve_clock: None,
                next_publication: now.steady_nanos.saturating_add(
                    config.snapshot_interval.clamped_nanos(),
                ),
            },
        )
    }

    /// Aggregates an event.
    pub fn aggregate(&mut self, event: &NetworkEvent, now: Moment)
        requires
            old(self).well_formed(),
        ensures
            final(self).well_formed(),
            final(self)@ == old(self)@.aggregated(*event, now),
    {
        let newest = match self.curve_clock {
            Some((timestamp, _)) => event.timestamp_unix_nanos >= timestamp,
            None => true,
        };
        if newest {
            self.curve_clock = Some((event.timestamp_unix_nanos, now.steady_nanos));
        }
        self.aggregator.record(event);
        self.curve.record(event);
        self.process_tracker.record(event);
    }

    /// Whether a publication is due.
    pub fn is_due(&self, now: Moment) -> (due: bool)
        ensures
            due == (now.steady_nanos >= self@.next_publication),
    {
        now.steady_nanos >= self.next_publication
    }

    /// How long it is to the next publication, in nanoseconds.
    pub fn remaining_nanos(&self, now: Moment) -> (nanos: u64)
        ensures
            nanos == tracker::back(self@.next_publication, now.steady_nanos),
    {
        self.next_publication.saturating_sub(now.steady_nanos)
    }

    /// Forgets what is idle or too much, puts the clock of the curve forward, and publishes.
    pub fn publish(&mut self, now: Moment) -> (publication: Publication)
        requires
            old(self).well_formed(),
        ensures
            final(self).well_formed(),
            published_as(old(self)@, final(self)@, publication, now),
    {
        let timestamp: u64 = match self.curve_clock {
            Some((timestamp, seen_at)) => timestamp.saturating_add(
                now.steady_nanos.saturating_sub(seen_at),
            ),
            None => now.unix_nanos,
        };
        self.curve.advance_to(timestamp);
        let cutoff: u64 = now.unix_nanos.saturating_sub(
            self.config.flow_idle_timeout.clamped_nanos(),
        );
        self.aggregator.retain_since(cutoff);
        self.aggregator.trim_to_maximum(self.config.maximum_flows);
        self.process_tracker.retain_since(cutoff);
        self.process_tracker.trim_to_maximum(self.config.maximum_flows);
        self.next_publication = now.steady_nanos.saturating_add(
            self.config.snapshot_interval.clamped_nanos(),
        );
        let flows = self.aggregator.snapshot();
        let curve = self.curve.snapshot();
        let process_counters = self.process_tracker.snapshot_at(now.unix_nanos);
        Publication { flows, curve, process_counters }
    }
}

/// The application while it runs.
pub struct ApplicationRuntime {
    ingress: EventIngress,
    worker: AggregationWorker,
    published: Publication,
    running: bool,
    capture_status: CaptureStatus,
    system: SystemSnapshotPublisher,
}

/// A running application as a value.
#[verifier::ext_equal]
pub struct RuntimeView {
    pub ingress: IngressView,
    pub worker: WorkerView,
    pub flows: Seq<FlowSnapshot>,
    pub curve: CurveView,
    pub counters: Seq<ProcessTrafficCounters>,
    pub running: bool,
    pub capture_status: CaptureStatus,
    pub system: Option<SystemView>,
}

impl View for ApplicationRuntime {
    type V = RuntimeView;

    closed spec fn view(&self) -> RuntimeView {
        RuntimeView {
            ingress: self.ingress@,
            worker: self.worker@,
            flows: self.published.flows@,
            curve: self.published.curve@,
            counters: self.published.process_counters@,
            running: self.running,
            capture_status: self.capture_status,
            system: self.system@,
        }
    }
}

impl RuntimeView {
    /// The worker once it has aggregated a run of events, all at one time.
    pub open spec fn drained(self, n: nat, now: Moment) -> RuntimeView
        decreases n,
    {
        if n == 0 {
            self
        } else {
            let earlier = self.drained((n - 1) as nat, now);
            RuntimeView {
                ingress: earlier.ingress.taken(),
                worker: earlier.worker.aggregated(earlier.ingress.queue[0], now),
                ..earlier
            }
        }
    }

    /// Whether `after` is this application with its worker's state published.
    pub open spec fn publishes(self, after: RuntimeView, now: Moment) -> bool {
        &&& after == (RuntimeView {
            worker: after.worker,
            flows: after.flows,
            curve: after.curve,
            counters: after.counters,
            ..self
        })
        &&& exists|publication: Publication|
            {
                &&& #[trigger] published_as(self.worker, after.worker, publication, now)
                &&& publication.flows@ == after.flows
                &&& publication.curve@ == after.curve
                &&& publication.process_counters@ == after.counters
            }
    }

    /// Whether a snapshot shows this application at a sample time.
    pub open spec fn shows(self, out: ApplicationSnapshot, sampled_at: u64) -> bool {
        &&& out.running == self.running
        &&& out.capture_status == self.capture_status
        &&& out.counters_view() == self.ingress.counters
        &&& out.queue_capacity == self.worker.config.queue_capacity
        &&& out.snapshot_interval_millis == self.worker.config.snapshot_interval@ / 1_000_000
        &&& out.flow_idle_timeout_millis == self.worker.config.flow_idle_timeout@ / 1_000_000
        &&& out.maximum_flows == self.worker.config.maximum_flows
        &&& out.joined_view() == snapshot::joined(
            self.flows,
            self.curve,
            self.counters,
            self.system,
            sampled_at,
        )
    }
}

/// Draining leaves everything but the queue and the worker alone, and takes as many events as it
/// says.
proof fn lemma_drained(runtime: RuntimeView, n: nat, now: Moment)
    requires
        runtime.ingress.well_formed(),
        n <= runtime.ingress.queue.len(),
    ensures
        runtime.drained(n, now) == (RuntimeView {
            ingress: runtime.drained(n, now).ingress,
            worker: runtime.drained(n, now).worker,
            ..runtime
        }),
        runtime.drained(n, now).ingress.queue == runtime.ingress.queue.skip(n as int),
        runtime.drained(n, now).ingress.well_formed(),
        runtime.drained(n, now).worker.config == runtime.worker.config,
        runtime.drained(n, now).ingress == (IngressView {
            queue: runtime.drained(n, now).ingress.queue,
            counters: RuntimeCounters {
                processed: runtime.drained(n, now).ingress.counters.processed,
                queue_depth: runtime.drained(n, now).ingress.counters.queue_depth,
                ..runtime.ingress.counters
            },
            ..runtime.ingress
        }),
    decreases n,
{
    if n == 0 {
        assert(runtime.ingress.queue.skip(0) =~= runtime.ingress.queue);
    } else {
        lemma_drained(runtime, (n - 1) as nat, now);
        assert(runtime.ingress.queue.skip(n - 1).drop_first() =~= runtime.ingress.queue.skip(
            n as int,
        ));
    }
}

impl ApplicationRuntime {
    /// What the application holds is as it should be.
    pub closed spec fn well_formed(&self) -> bool {
        &&& self.ingress@.well_formed()
        &&& self.worker.well_formed()
        &&& self.published.curve.bucket_width_nanos == self.worker@.curve.width
        &&& self.ingress@.capacity == self.worker@.config.queue_capacity
    }

    /// What being well formed says of the counts and the curve.
    pub proof fn law_counts_are_kept(&self)
        requires
            self.well_formed(),
        ensures
            self@.ingress.well_formed(),
            self@.ingress.capacity == self@.worker.config.queue_capacity,
            self@.worker.curve.well_formed(),
            bounds_hold(self@.worker.config),
    {
        self.worker.lemma_curve();
    }

    /// Starts with the usual bounds and a queue of the given capacity; without capacity there is
    /// no start.
    pub fn start(queue_capacity: usize, now: Moment) -> (runtime: Result<
        ApplicationRuntime,
        RuntimeError,
    >)
        ensures
            runtime is Ok <==> queue_capacity > 0,
            match runtime {
                Ok(runtime) => {
                    &&& runtime.well_formed()
                    &&& runtime@.worker.config.queue_capacity == queue_capacity
                    &&& runtime@.worker.config.snapshot_interval@ == 100_000_000
                    &&& runtime@.worker.config.flow_idle_timeout@ == 300_000_000_000
                    &&& runtime@.worker.config.maximum_flows == 100_000
                    &&& runtime@.worker.config.curve_bucket_width@ == 1_000_000_000
                    &&& runtime@.worker.config.curve_maximum_buckets == 300
                    &&& fresh(runtime@, runtime@.worker.config, now)
                },
                Err(error) => error@
                    == "runtime queue, snapshot interval, flow idle timeout and maximum flows must be nonzero"@,
            },
    {
        ApplicationRuntime::start_with_config(RuntimeConfig::bounded(queue_capacity), now)
    }

    /// Starts with the given bounds; where one is missing there is no start.
    pub fn start_with_config(config: RuntimeConfig, now: Moment) -> (runtime: Result<
        ApplicationRuntime,
        RuntimeError,
    >)
        ensures
            runtime is Ok <==> bounds_hold(config),
            match runtime {
                Ok(runtime) => runtime.well_formed() && fresh(runtime@, config, now),
                Err(error) => error@
                    == "runtime queue, snapshot interval, flow idle timeout and maximum flows must be nonzero"@,
            },
    {
        let worker = match AggregationWorker::new(config, now) {
            Ok(worker) => worker,
            Err(error) => {
                return Err(error);
            },
        };
        let curve = worker.curve.snapshot();
        let runtime = ApplicationRuntime {
            ingress: EventIngress::new(&config),
            worker,
            published: Publication { flows: Vec::new(), curve, process_counters: Vec::new() },
            running: true,
            capture_status: CaptureStatus::Available,
            system: SystemSnapshotPublisher::new(),
        };
        Ok(runtime)
    }

    /// Where events come in.
    pub fn ingress(&mut self) -> (ingress: &mut EventIngress)
        requires
            old(self).well_formed(),
        ensures
            ingress@ == old(self)@.ingress,
            final(self)@ == (RuntimeView { ingress: final(ingress)@, ..old(self)@ }),
            final(ingress)@.well_formed() && final(ingress)@.capacity == old(self)@.ingress.capacity
                ==> final(self).well_formed(),
    {
        &mut self.ingress
    }

    /// Hands an event over, unless the queue is full or no longer accepts any.
    pub fn try_submit(&mut self, event: NetworkEvent) -> (outcome: SubmitOutcome)
        requires
            old(self).well_formed(),
        ensures
            final(self).well_formed(),
            outcome == old(self)@.ingress.outcome(),
            final(self)@ == (RuntimeView {
                ingress: old(self)@.ingress.submitted(event),
                ..old(self)@
            }),
    {
        self.ingress.try_submit(event)
    }

    /// Who holds the view of the system.
    pub fn system_snapshot_publisher(&mut self) -> (publisher: &mut SystemSnapshotPublisher)
        requires
            old(self).well_formed(),
        ensures
            publisher@ == old(self)@.system,
            final(self).well_formed(),
            final(self)@ == (RuntimeView { system: final(publisher)@, ..old(self)@ }),
    {
        &mut self.system
    }

    /// Sets what later snapshots show of the capture.
    pub fn set_capture_status(&mut self, status: CaptureStatus)
        requires
            old(self).well_formed(),
        ensures
            final(self).well_formed(),
            final(self)@ == (RuntimeView { capture_status: status, ..old(self)@ }),
    {
        self.capture_status = status;
    }

    /// Replaces the view of the system.
    pub fn publish_system_snapshot(&mut self, snapshot: SystemSnapshot)
        requires
            old(self).well_formed(),
        ensures
            final(self).well_formed(),
            final(self)@ == (RuntimeView { system: Some(snapshot@), ..old(self)@ }),
    {
        self.system.publish(snapshot);
    }

    /// Processes the event that has waited longest.
    pub fn process_next(&mut self, now: Moment) -> (processed: bool)
        requires
            old(self).well_formed(),
        ensures
            final(self).well_formed(),
            processed == (old(self)@.ingress.queue.len() > 0),
            final(self)@ == (if processed {
                old(self)@.drained(1, now)
            } else {
                old(self)@
            }),
    {
        proof {
            reveal_with_fuel(RuntimeView::drained, 2);
        }
        match self.ingress.take() {
            Some(event) => {
                self.worker.aggregate(&event, now);
                proof {
                    self.worker.lemma_curve();
                }
                true
            },
            None => false,
        }
    }

    /// Whether a publication is due.
    pub fn is_due(&self, now: Moment) -> (due: bool)
        ensures
            due == (now.steady_nanos >= self@.worker.next_publication),
    {
        self.worker.is_due(now)
    }

    /// How long it is to the next publication, in nanoseconds.
    pub fn remaining_nanos(&self, now: Moment) -> (nanos: u64)
        ensures
            nanos == tracker::back(self@.worker.next_publication, now.steady_nanos),
    {
        self.worker.remaining_nanos(now)
    }

    /// Publishes what has been aggregated.
    pub fn publish(&mut self, now: Moment)
        requires
            old(self).well_formed(),
        ensures
            final(self).well_formed(),
            old(self)@.publishes(final(self)@, now),
    {
        let publication = self.worker.publish(now);
        proof {
            self.worker.lemma_curve();
            assert(published_as(old(self)@.worker, self.worker@, publication, now));
        }
        self.published = publication;
    }

    /// What the application shows.
    pub fn snapshot(&self, sampled_at_unix_nanos: u64) -> (out: ApplicationSnapshot)
        requires
            self.well_formed(),
        ensures
            self@.shows(out, sampled_at_unix_nanos),
    {
        proof {
            self.worker.lemma_curve();
        }
        snapshot::snapshot(
            &self.ingress.counters,
            &self.worker.config,
            &self.published,
            self.capture_status,
            &self.system.snapshot,
            self.running,
            sampled_at_unix_nanos,
        )
    }

    /// A handle that only reads.
    pub fn snapshot_reader(&self) -> (reader: SnapshotReader<'_>)
        requires
            self.well_formed(),
        ensures
            reader@ == self@,
            reader.well_formed(),
    {
        SnapshotReader { runtime: self }
    }

    /// Accepts no more events, processes all that wait, publishes, and stops: what the
    /// application shows at the end.
    pub fn stop(&mut self, now: Moment) -> (out: ApplicationSnapshot)
        requires
            old(self).well_formed(),
        ensures
            final(self).well_formed(),
            final(self)@.shows(out, now.unix_nanos),
            final(self)@.ingress.queue.len() == 0,
            !final(self)@.ingress.accepting,
            !final(self)@.running,
            ({
                let closed = RuntimeView {
                    ingress: IngressView { accepting: false, ..old(self)@.ingress },
                    ..old(self)@
                };
                let drained = closed.drained(closed.ingress.queue.len(), now);
                exists|after: RuntimeView| #[trigger] drained.publishes(after, now) && final(self)@
                    == (RuntimeView { running: false, ..after })
            }),
    {
        let ghost closed = RuntimeView {
            ingress: IngressView { accepting: false, ..self@.ingress },
            ..self@
        };
        self.ingress.accepting = false;
        let ghost mut done: nat = 0;
        loop
            invariant_except_break
                self.well_formed(),
                self@ == closed.drained(done, now),
                done <= closed.ingress.queue.len(),
                closed.ingress.well_formed(),
                self@.ingress.queue.len() == closed.ingress.queue.len() - done,
            ensures
                self.well_formed(),
                done == closed.ingress.queue.len(),
                closed.ingress.well_formed(),
                self@ == closed.drained(done, now),
                self@.ingress.queue.len() == 0,
            decreases self@.ingress.queue.len(),
        {
            let ghost before = self@;
            if !self.process_next(now) {
                break;
            }
            proof {
                reveal_with_fuel(RuntimeView::drained, 2);
                done = done + 1;
                lemma_drained(closed, done, now);
                assert(self@ == closed.drained(done, now));
            }
        }
        proof {
            lemma_drained(closed, done, now);
        }
        self.publish(now);
        let ghost after = self@;
        self.running = false;
        assert(closed.drained(closed.ingress.queue.len(), now).publishes(after, now));
        assert(self@ == (RuntimeView { running: false, ..after }));
        self.snapshot(now.unix_nanos)
    }
}

/// Whether an application has just started.
pub open spec fn fresh(runtime: RuntimeView, config: RuntimeConfig, now: Moment) -> bool {
    &&& runtime.ingress == (IngressView {
        capacity: config.queue_capacity,
        accepting: true,
        queue: Seq::empty(),
        counters: no_counts(),
    })
    &&& runtime.worker == (WorkerView {
        config,
        flows: Map::empty(),
        curve: CurveView {
            width: duration::clamped(config.curve_bucket_width@),
            maximum: config.curve_maximum_buckets,
            events_received: 0,
            events_accepted: 0,
            events_late_dropped: 0,
            bytes_received: 0,
            bytes_accepted: 0,
            bytes_late_dropped: 0,
            buckets: Seq::empty(),
        },
        tracker: TrackerView {
            width: duration::clamped(config.curve_bucket_width@),
            processes: Map::empty(),
        },
        clock: None,
        next_publication: crate::model::saturated(
            now.steady_nanos + duration::clamped(config.snapshot_interval@),
        ),
    })
    &&& runtime.flows.len() == 0
    &&& runtime.curve == runtime.worker.curve
    &&& runtime.counters.len() == 0
    &&& runtime.running
    &&& runtime.capture_status == CaptureStatus::Available
    &&& runtime.system is None
}

/// Reads what the application shows.
#[derive(Clone, Copy)]
pub struct SnapshotReader<'a> {
    runtime: &'a ApplicationRuntime,
}

impl<'a> View for SnapshotReader<'a> {
    type V = RuntimeView;

    closed spec fn view(&self) -> RuntimeView {
        self.runtime@
    }
}

impl<'a> SnapshotReader<'a> {
    /// What is read is as it should be.
    pub closed spec fn well_formed(&self) -> bool {
        self.runtime.well_formed()
    }

    /// What the application shows.
    pub fn snapshot(&self, sampled_at_unix_nanos: u64) -> (out: ApplicationSnapshot)
        requires
            self.well_formed(),
        ensures
            self@.shows(out, sampled_at_unix_nanos),
    {
        self.runtime.snapshot(sampled_at_unix_nanos)
    }
}

/// An application that has stopped has processed every event that it accepted.
pub proof fn law_stop_processes_every_accepted_event(stopped: IngressView)
    requires
        stopped.well_formed(),
        stopped.queue.len() == 0,
    ensures
        stopped.counters.processed == stopped.counters.accepted,
        stopped.counters.queue_depth == 0,
{
}

/// Every event that is submitted is accounted for once, and the queue never holds more than its
/// capacity.
pub proof fn law_submission_is_accounted_for(ingress: IngressView, event: NetworkEvent)
    requires
        ingress.well_formed(),
    ensures
        ingress.submitted(event).well_formed(),
        ingress.submitted(event).counters.queue_peak <= ingress.capacity,
        ingress.outcome() == SubmitOutcome::Accepted ==> ingress.submitted(event).queue
            == ingress.queue.push(event),
        ingress.outcome() != SubmitOutcome::Accepted ==> ingress.submitted(event).queue
            == ingress.queue,
{
}

/// A publication shows no more flows than the bound allows, and none that has been idle for longer
/// than the bound allows.
pub proof fn law_publication_is_bounded(
    before: WorkerView,
    after: WorkerView,
    publication: Publication,
    now: Moment,
)
    requires
        published_as(before, after, publication, now),
        before.flows.dom().finite(),
    ensures
        publication.flows@.len() <= before.config.maximum_flows,
        forall|i: int|
            0 <= i < publication.flows@.len() ==> (
            #[trigger] publication.flows@[i]).last_timestamp_unix_nanos >= before.idle_cutoff(now),
{
    let list = publication.flows@;
    let recent = aggregator::since(before.flows, before.idle_cutoff(now));
    let keys = list.map_values(|flow: FlowSnapshot| flow.key);
    assert(recent.dom().subset_of(before.flows.dom()));
    vstd::set_lib::lemma_len_subset(recent.dom(), before.flows.dom());
    assert(keys.no_duplicates()) by {
        assert forall|i: int, j: int|
            0 <= i < keys.len() && 0 <= j < keys.len() && i != j implies keys[i] != keys[j] by {
            FlowKey::lemma_irreflexive(keys[i]);
            if i < j {
                assert(FlowKey::before(list[i].key, list[j].key));
            } else {
                assert(FlowKey::before(list[j].key, list[i].key));
            }
        }
    }
    keys.unique_seq_to_set();
    assert(keys.to_set().subset_of(after.flows.dom())) by {
        assert forall|key: FlowKey| keys.to_set().contains(key) implies after.flows.dom().contains(
            key,
        ) by {
            let i = keys.index_of(key);
            assert(after.flows.dom().contains(list[i].key));
        }
    }
    vstd::set_lib::lemma_len_subset(keys.to_set(), after.flows.dom());
    assert forall|i: int| 0 <= i < list.len() implies (
    #[trigger] list[i]).last_timestamp_unix_nanos >= before.idle_cutoff(now) by {
        assert(after.flows.dom().contains(list[i].key));
        assert(recent.dom().contains(list[i].key));
    }
}

/// What becomes of an event that is handed in: it is turned away where the runtime has stopped,
/// dropped where as many events wait as may, and else waits behind the others. It is counted as
/// received and under what became of it, and under nothing else.
pub proof fn law_event_waits_or_is_counted_away(ingress: IngressView, event: NetworkEvent)
    requires
        ingress.well_formed(),
        ingress.counters.received < u64::MAX,
        ingress.counters.accepted < u64::MAX,
        ingress.counters.dropped_full < u64::MAX,
        ingress.counters.dropped_stopped < u64::MAX,
    ensures
        ({
            let after = ingress.submitted(event);
            let a = ingress.counters;
            let b = after.counters;
            &&& b.received == a.received + 1
            &&& b.processed == a.processed
            &&& !ingress.accepting ==> ingress.outcome() == SubmitOutcome::Stopped
                && b.dropped_stopped == a.dropped_stopped + 1 && b.dropped_full == a.dropped_full
                && b.accepted == a.accepted && after.queue == ingress.queue
            &&& ingress.accepting && ingress.queue.len() == ingress.capacity ==> ingress.outcome()
                == SubmitOutcome::DroppedFull && b.dropped_full == a.dropped_full + 1
                && b.dropped_stopped == a.dropped_stopped && b.accepted == a.accepted && after.queue
                == ingress.queue
            &&& ingress.accepting && ingress.queue.len() < ingress.capacity ==> ingress.outcome()
                == SubmitOutcome::Accepted && b.accepted == a.accepted + 1 && b.dropped_full
                == a.dropped_full && b.dropped_stopped == a.dropped_stopped && after.queue.len()
                == ingress.queue.len() + 1 && after.queue.last() == event && b.queue_depth
                == a.queue_depth + 1 && b.queue_peak >= b.queue_depth && b.queue_peak
                >= a.queue_peak && (b.queue_peak == a.queue_peak || b.queue_peak == b.queue_depth)
        }),
{
}

/// Events leave in the order in which they came, each counted as processed.
pub proof fn law_events_leave_in_order(ingress: IngressView, event: NetworkEvent)
    requires
        ingress.well_formed(),
        ingress.queue.len() > 0,
        ingress.counters.processed < u64::MAX,
        ingress.accepting,
        ingress.queue.len() < ingress.capacity,
    ensures
        ingress.taken().counters.processed == ingress.counters.processed + 1,
        ingress.taken().counters.queue_depth + 1 == ingress.counters.queue_depth,
        ingress.submitted(event).queue[0] == ingress.queue[0],
        ingress.taken().queue == ingress.queue.subrange(1, ingress.queue.len() as int),
{
}

/// An event is counted in its flow, in the curve and with its process, and the clock of the curve
/// follows the newest event.
pub proof fn law_event_is_counted_everywhere(worker: WorkerView, event: NetworkEvent, now: Moment)
    ensures
        ({
            let after = worker.aggregated(event, now);
            &&& after.flows == aggregator::recorded(worker.flows, event)
            &&& after.curve == worker.curve.recorded(event)
            &&& after.tracker == worker.tracker.recorded(event)
            &&& after.clock matches Some(clock) && clock.0 >= event.timestamp_unix_nanos
            &&& worker.clock is None ==> after.clock == Some(
                (event.timestamp_unix_nanos, now.steady_nanos),
            )
            &&& worker.clock matches Some(known) ==> (after.clock matches Some(clock) ==> clock.0
                >= known.0)
        }),
{
}

/// The curve is put forward by what the steady clock has advanced since the newest event, and flows
/// are forgotten that have been idle for the time that is set.
pub proof fn law_clocks_of_a_worker(worker: WorkerView, now: Moment, newest: u64, seen_at: u64)
    requires
        worker.clock == Some((newest, seen_at)),
        seen_at <= now.steady_nanos,
        newest + (now.steady_nanos - seen_at) <= u64::MAX,
        worker.config.flow_idle_timeout@ <= now.unix_nanos,
    ensures
        worker.curve_time(now) == newest + (now.steady_nanos - seen_at),
        worker.idle_cutoff(now) + worker.config.flow_idle_timeout@ == now.unix_nanos,
{
}

} // verus!
