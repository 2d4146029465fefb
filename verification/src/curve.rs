//! The curve of recent traffic: stretches of time of one width, a bounded number of them.
use crate::model;
use crate::model::{NetworkEvent, TrafficBucket, TrafficDirection};
use vstd::prelude::*;

verus! {

/// What became of an event that was added to the curve.
#[derive(Debug, Clone, Copy, PartialEq, Eq, Structural)]
pub enum CurveRecordOutcome {
    Accepted,
    LateDropped,
}

/// The curve with its account of late events.
#[derive(Debug, Clone, PartialEq, Eq)]
pub struct TrafficCurveSnapshot {
    pub bucket_width_nanos: u64,
    pub maximum_buckets: usize,
    pub events_received: u64,
    pub events_accepted: u64,
    pub events_late_dropped: u64,
    pub bytes_received: u64,
    pub bytes_accepted: u64,
    pub bytes_late_dropped: u64,
    pub buckets: Vec<TrafficBucket>,
}

/// A curve as a value: its settings, its accounts and its buckets, oldest first.
#[verifier::ext_equal]
pub struct CurveView {
    pub width: u64,
    pub maximum: usize,
    pub events_received: u64,
    pub events_accepted: u64,
    pub events_late_dropped: u64,
    pub bytes_received: u64,
    pub bytes_accepted: u64,
    pub bytes_late_dropped: u64,
    pub buckets: Seq<TrafficBucket>,
}

impl View for TrafficCurveSnapshot {
    type V = CurveView;

    open spec fn view(&self) -> CurveView {
        CurveView {
            width: self.bucket_width_nanos,
            maximum: self.maximum_buckets,
            events_received: self.events_received,
            events_accepted: self.events_accepted,
            events_late_dropped: self.events_late_dropped,
            bytes_received: self.bytes_received,
            bytes_accepted: self.bytes_accepted,
            bytes_late_dropped: self.bytes_late_dropped,
            buckets: self.buckets@,
        }
    }
}

impl CurveView {
    /// The buckets follow each other without a gap, there are no more than the curve may hold, and
    /// what was received is what was accepted and what came too late.
    pub open spec fn well_formed(self) -> bool {
        &&& self.width > 0
        &&& self.maximum > 0
        &&& self.buckets.len() <= self.maximum
        &&& contiguous(self.buckets, self.width as int)
        &&& self.events_received == model::saturated(
            self.events_accepted + self.events_late_dropped,
        )
        &&& self.bytes_received == model::saturated(self.bytes_accepted + self.bytes_late_dropped)
    }

    /// The start of the newest bucket once the bucket that starts at `start` has been seen.
    pub open spec fn latest_with(self, start: u64) -> int {
        if self.buckets.len() == 0 || self.buckets.last().start_unix_nanos < start {
            start as int
        } else {
            self.buckets.last().start_unix_nanos as int
        }
    }

    /// The oldest bucket that a curve keeps whose newest bucket starts at `latest`.
    pub open spec fn earliest_for(self, latest: int) -> int {
        let oldest = latest - (self.maximum - 1) * self.width;
        if oldest < 0 {
            0
        } else {
            oldest
        }
    }

    /// Where the curve starts once the bucket that starts at `start` has been seen: at its oldest
    /// bucket, or at the oldest that it may keep where buckets have grown too old.
    pub open spec fn first_with(self, start: u64) -> int {
        let earliest = self.earliest_for(self.latest_with(start));
        if self.buckets.len() == 0 {
            start as int
        } else if self.buckets[0].start_unix_nanos < earliest {
            earliest
        } else if self.buckets[0].start_unix_nanos < start {
            self.buckets[0].start_unix_nanos as int
        } else {
            start as int
        }
    }

    /// The curve's buckets once the bucket that starts at `start` has been seen and `addition`
    /// has been counted in it: without a gap, with no traffic where none was counted.
    pub open spec fn buckets_with(self, start: u64, addition: Option<NetworkEvent>) -> Seq<
        TrafficBucket,
    > {
        filled(
            self.buckets,
            start as int,
            addition,
            self.first_with(start),
            self.latest_with(start) + self.width,
            self.width as int,
        )
    }

    /// Whether an event has come too late to be kept.
    pub open spec fn is_late(self, event: NetworkEvent) -> bool {
        let start = model::bucket_start(event.timestamp_unix_nanos, self.width);
        start < self.earliest_for(self.latest_with(start))
    }

    /// The curve with one more event.
    pub open spec fn recorded(self, event: NetworkEvent) -> CurveView {
        let start = model::bucket_start(event.timestamp_unix_nanos, self.width);
        let seen = CurveView {
            events_received: model::saturated(self.events_received + 1),
            bytes_received: model::saturated(self.bytes_received + event.bytes),
            ..self
        };
        if self.is_late(event) {
            CurveView {
                events_late_dropped: model::saturated(self.events_late_dropped + 1),
                bytes_late_dropped: model::saturated(self.bytes_late_dropped + event.bytes),
                ..seen
            }
        } else {
            CurveView {
                events_accepted: model::saturated(self.events_accepted + 1),
                bytes_accepted: model::saturated(self.bytes_accepted + event.bytes),
                buckets: self.buckets_with(start, Some(event)),
                ..seen
            }
        }
    }

    /// The curve with its clock put forward to a timestamp; a clock never goes back.
    pub open spec fn advanced(self, timestamp: u64) -> CurveView {
        let start = model::bucket_start(timestamp, self.width);
        if self.buckets.len() == 0 || start > self.buckets.last().start_unix_nanos {
            CurveView { buckets: self.buckets_with(start, None), ..self }
        } else {
            self
        }
    }
}

/// Each bucket starts where the one before it ends, on a multiple of the width.
pub open spec fn contiguous(buckets: Seq<TrafficBucket>, width: int) -> bool {
    &&& buckets.len() > 0 ==> buckets[0].start_unix_nanos as int % width == 0
    &&& forall|i: int|
        0 <= i < buckets.len() ==> (#[trigger] buckets[i]).start_unix_nanos
            == buckets[0].start_unix_nanos + i * width
}

/// The bucket that starts at a time: the one that is there, or one without traffic.
pub open spec fn bucket_at(buckets: Seq<TrafficBucket>, start: int) -> TrafficBucket {
    if exists|i: int| 0 <= i < buckets.len() && (#[trigger] buckets[i]).start_unix_nanos == start {
        buckets[choose|i: int|
            0 <= i < buckets.len() && (#[trigger] buckets[i]).start_unix_nanos == start]
    } else {
        TrafficBucket { start_unix_nanos: start as u64, send_bytes: 0, receive_bytes: 0 }
    }
}

/// A bucket with one more event.
pub open spec fn with_event(bucket: TrafficBucket, event: NetworkEvent) -> TrafficBucket {
    match event.direction {
        TrafficDirection::Send => TrafficBucket {
            send_bytes: model::saturated(bucket.send_bytes + event.bytes),
            ..bucket
        },
        TrafficDirection::Receive => TrafficBucket {
            receive_bytes: model::saturated(bucket.receive_bytes + event.bytes),
            ..bucket
        },
    }
}

/// The bucket that starts at `start` when `addition` is counted in the one that starts at `at`.
pub open spec fn bucket_after(
    buckets: Seq<TrafficBucket>,
    at: int,
    addition: Option<NetworkEvent>,
    start: int,
) -> TrafficBucket {
    match addition {
        Some(event) if start == at => with_event(bucket_at(buckets, start), event),
        _ => bucket_at(buckets, start),
    }
}

/// The buckets from `first` up to `end`, one for each step of the width.
pub open spec fn filled(
    buckets: Seq<TrafficBucket>,
    at: int,
    addition: Option<NetworkEvent>,
    first: int,
    end: int,
    width: int,
) -> Seq<TrafficBucket>
    decreases
            (if end > first {
                end - first
            } else {
                0
            }),
{
    if end <= first || width <= 0 {
        Seq::empty()
    } else {
        filled(buckets, at, addition, first, end - width, width).push(
            bucket_after(buckets, at, addition, end - width),
        )
    }
}

/// The curve of traffic, with room for a bounded number of buckets.
#[derive(Debug)]
pub struct TrafficCurve {
    bucket_width_nanos: u64,
    maximum_buckets: usize,
    events_received: u64,
    events_accepted: u64,
    events_late_dropped: u64,
    bytes_received: u64,
    bytes_accepted: u64,
    bytes_late_dropped: u64,
    buckets: Vec<TrafficBucket>,
}

impl View for TrafficCurve {
    type V = CurveView;

    closed spec fn view(&self) -> CurveView {
        CurveView {
            width: self.bucket_width_nanos,
            maximum: self.maximum_buckets,
            events_received: self.events_received,
            events_accepted: self.events_accepted,
            events_late_dropped: self.events_late_dropped,
            bytes_received: self.bytes_received,
            bytes_accepted: self.bytes_accepted,
            bytes_late_dropped: self.bytes_late_dropped,
            buckets: self.buckets@,
        }
    }
}

/// A difference that is a multiple of the width and not zero is at least the width.
proof fn lemma_step(start: int, latest: int, width: int)
    requires
        width > 0,
        start < latest,
        start % width == 0,
        latest % width == 0,
    ensures
        start + width <= latest,
        (start + width) % width == 0,
{
    vstd::arithmetic::div_mod::lemma_fundamental_div_mod(start, width);
    vstd::arithmetic::div_mod::lemma_fundamental_div_mod(latest, width);
    let p = start / width;
    let q = latest / width;
    assert(start == width * p && latest == width * q);
    assert(p < q) by (nonlinear_arith)
        requires
            width > 0,
            width * p < width * q,
    ;
    assert(width * p + width <= width * q) by (nonlinear_arith)
        requires
            width > 0,
            p < q,
    ;
    vstd::arithmetic::div_mod::lemma_mod_add_multiples_vanish(start, width);
}

/// A step back from a multiple of the width is one.
proof fn lemma_step_back(end: int, width: int)
    requires
        width > 0,
        end % width == 0,
    ensures
        (end - width) % width == 0,
{
    vstd::arithmetic::div_mod::lemma_mod_sub_multiples_vanish(end, width);
}

/// A filled stretch is contiguous, starts at `first`, and is as long as it is wide.
pub proof fn lemma_filled(
    buckets: Seq<TrafficBucket>,
    at: int,
    addition: Option<NetworkEvent>,
    first: int,
    end: int,
    width: int,
)
    requires
        width > 0,
        0 <= first <= end,
        end <= u64::MAX + width,
        first % width == 0,
        end % width == 0,
    ensures
        ({
            let out = filled(buckets, at, addition, first, end, width);
            &&& out.len() * width == end - first
            &&& contiguous(out, width)
            &&& out.len() > 0 ==> out[0].start_unix_nanos == first
            &&& forall|i: int|
                0 <= i < out.len() ==> #[trigger] out[i] == bucket_after(
                    buckets,
                    at,
                    addition,
                    first + i * width,
                )
        }),
    decreases end - first,
{
    let out = filled(buckets, at, addition, first, end, width);
    if first < end {
        lemma_step(first, end, width);
        lemma_step_back(end, width);
        lemma_filled(buckets, at, addition, first, end - width, width);
        let shorter = filled(buckets, at, addition, first, end - width, width);
        assert(out.len() == shorter.len() + 1);
        assert((shorter.len() + 1) * width == shorter.len() * width + width) by (nonlinear_arith);
        assert(first + shorter.len() * width == end - width);
        assert forall|i: int| 0 <= i < out.len() implies #[trigger] out[i] == bucket_after(
            buckets,
            at,
            addition,
            first + i * width,
        ) && out[i].start_unix_nanos == first + i * width by {
            if i < shorter.len() {
                assert(out[i] == shorter[i]);
                assert(shorter[i].start_unix_nanos == shorter[0].start_unix_nanos + i * width);
            } else {
                assert(i == shorter.len());
                assert(out[i] == bucket_after(buckets, at, addition, end - width));
                assert(0 <= end - width <= u64::MAX);
            }
        }
        assert(out[0].start_unix_nanos == first) by {
            assert(0 * width == 0);
        }
    } else {
        assert(0 * width == 0);
    }
}

/// The bucket that stands at a place is the one of its start.
proof fn lemma_bucket_at(buckets: Seq<TrafficBucket>, width: int, i: int)
    requires
        width > 0,
        contiguous(buckets, width),
        0 <= i < buckets.len(),
    ensures
        bucket_at(buckets, buckets[i].start_unix_nanos as int) == buckets[i],
{
    let start = buckets[i].start_unix_nanos;
    let j = choose|j: int| 0 <= j < buckets.len() && (#[trigger] buckets[j]).start_unix_nanos == start;
    assert(buckets[i].start_unix_nanos == start);
    assert(i * width == j * width);
    assert(i == j) by (nonlinear_arith)
        requires
            width > 0,
            i * width == j * width,
    ;
}

/// The bucket that starts at a time.
fn find_bucket(buckets: &Vec<TrafficBucket>, start: u64, width: u64) -> (bucket: TrafficBucket)
    requires
        width > 0,
        contiguous(buckets@, width as int),
        start % width == 0,
    ensures
        bucket == bucket_at(buckets@, start as int),
{
    let n: usize = buckets.len();
    if n > 0 && buckets[0].start_unix_nanos <= start && start <= buckets[n - 1].start_unix_nanos {
        let first: u64 = buckets[0].start_unix_nanos;
        let i: u64 = (start - first) / width;
        proof {
            let w = width as int;
            let last = buckets@[n - 1].start_unix_nanos as int;
            vstd::arithmetic::div_mod::lemma_fundamental_div_mod(start as int, w);
            vstd::arithmetic::div_mod::lemma_fundamental_div_mod(first as int, w);
            let p = start as int / w;
            let q = first as int / w;
            assert(start - first == (p - q) * w) by (nonlinear_arith)
                requires
                    start == w * p,
                    first == w * q,
            ;
            vstd::arithmetic::div_mod::lemma_div_multiples_vanish(p - q, w);
            assert(i == p - q);
            assert(i <= n - 1) by (nonlinear_arith)
                requires
                    w > 0,
                    i * w <= (n - 1) * w,
            ;
            lemma_bucket_at(buckets@, w, i as int);
        }
        buckets[i as usize]
    } else {
        proof {
            assert forall|i: int| 0 <= i < n implies (#[trigger] buckets@[i]).start_unix_nanos
                != start by {
                let w = width as int;
                assert(0 <= i * w <= (n - 1) * w) by (nonlinear_arith)
                    requires
                        w > 0,
                        0 <= i <= n - 1,
                ;
                assert(buckets@[n - 1].start_unix_nanos == buckets@[0].start_unix_nanos + (n - 1)
                    * w);
            }
        }
        TrafficBucket { start_unix_nanos: start, send_bytes: 0, receive_bytes: 0 }
    }
}

/// A bucket with one more event.
fn add_event(bucket: TrafficBucket, event: &NetworkEvent) -> (counted: TrafficBucket)
    ensures
        counted == with_event(bucket, *event),
{
    match event.direction {
        TrafficDirection::Send => TrafficBucket {
            send_bytes: bucket.send_bytes.saturating_add(event.bytes),
            ..bucket
        },
        TrafficDirection::Receive => TrafficBucket {
            receive_bytes: bucket.receive_bytes.saturating_add(event.bytes),
            ..bucket
        },
    }
}

/// The buckets from `first` to `latest`, one for each step of the width.
fn fill(
    buckets: &Vec<TrafficBucket>,
    at: u64,
    addition: Option<&NetworkEvent>,
    first: u64,
    latest: u64,
    width: u64,
) -> (out: Vec<TrafficBucket>)
    requires
        width > 0,
        contiguous(buckets@, width as int),
        first <= latest,
        first % width == 0,
        latest % width == 0,
    ensures
        out@ == filled(
            buckets@,
            at as int,
            (match addition {
                Some(event) => Some(*event),
                None => None,
            }),
            first as int,
            latest + width,
            width as int,
        ),
{
    let ghost counted: Option<NetworkEvent> = match addition {
        Some(event) => Some(*event),
        None => None,
    };
    let mut out: Vec<TrafficBucket> = Vec::new();
    let mut start: u64 = first;
    loop
        invariant_except_break
            out@ == filled(
                buckets@,
                at as int,
                counted,
                first as int,
                start as int,
                width as int,
            ),
        invariant
            width > 0,
            contiguous(buckets@, width as int),
            first <= start <= latest,
            start % width == 0,
            latest % width == 0,
            counted == (match addition {
                Some(event) => Some(*event),
                None => None,
            }),
        ensures
            out@ == filled(
                buckets@,
                at as int,
                counted,
                first as int,
                latest + width,
                width as int,
            ),
        decreases latest - start,
    {
        let mut bucket = find_bucket(buckets, start, width);
        if let Some(event) = addition {
            if start == at {
                bucket = add_event(bucket, event);
            }
        }
        out.push(bucket);
        if start >= latest {
            break;
        }
        proof {
            lemma_step(start as int, latest as int, width as int);
        }
        start = start + width;
    }
    out
}

impl TrafficCurve {
    /// A curve of buckets of one width, none yet; there is none without width or room.
    pub fn new(bucket_width_nanos: u64, maximum_buckets: usize) -> (curve: Option<TrafficCurve>)
        ensures
            match curve {
                Some(curve) => curve@.well_formed() && curve@ == (CurveView {
                    width: bucket_width_nanos,
                    maximum: maximum_buckets,
                    events_received: 0,
                    events_accepted: 0,
                    events_late_dropped: 0,
                    bytes_received: 0,
                    bytes_accepted: 0,
                    bytes_late_dropped: 0,
                    buckets: Seq::empty(),
                }),
                None => bucket_width_nanos == 0 || maximum_buckets == 0,
            },
            curve is Some <==> bucket_width_nanos != 0 && maximum_buckets != 0,
    {
        if bucket_width_nanos == 0 || maximum_buckets == 0 {
            return None;
        }
        Some(
            TrafficCurve {
                bucket_width_nanos,
                maximum_buckets,
                events_received: 0,
                events_accepted: 0,
                events_late_dropped: 0,
                bytes_received: 0,
                bytes_accepted: 0,
                bytes_late_dropped: 0,
                buckets: Vec::new(),
            },
        )
    }

    /// The start of the newest bucket once the bucket that starts at `start` has been seen.
    fn latest_after(&self, start: u64) -> (latest: u64)
        ensures
            latest == self@.latest_with(start),
    {
        let n: usize = self.buckets.len();
        if n == 0 || self.buckets[n - 1].start_unix_nanos < start {
            start
        } else {
            self.buckets[n - 1].start_unix_nanos
        }
    }

    /// The oldest bucket that the curve keeps when its newest bucket starts at `latest`.
    fn earliest_retained(&self, latest: u64) -> (earliest: u64)
        requires
            self@.well_formed(),
        ensures
            earliest == self@.earliest_for(latest as int),
    {
        let others: u64 = (self.maximum_buckets - 1) as u64;
        proof {
            vstd::arithmetic::mul::lemma_mul_nonnegative(
                others as int,
                self.bucket_width_nanos as int,
            );
        }
        match others.checked_mul(self.bucket_width_nanos) {
            Some(span) => latest.saturating_sub(span),
            None => 0,
        }
    }

    /// Fills the curve up to the newest bucket, `start` having been seen.
    fn normalize(&mut self, start: u64, addition: Option<&NetworkEvent>)
        requires
            old(self)@.well_formed(),
            start % old(self)@.width == 0,
            start >= old(self)@.earliest_for(old(self)@.latest_with(start)),
        ensures
            final(self)@ == (CurveView {
                buckets: old(self)@.buckets_with(
                    start,
                    (match addition {
                        Some(event) => Some(*event),
                        None => None,
                    }),
                ),
                ..old(self)@
            }),
            final(self)@.well_formed(),
    {
        let latest: u64 = self.latest_after(start);
        let earliest: u64 = self.earliest_retained(latest);
        let first: u64 = if self.buckets.len() == 0 {
            start
        } else if self.buckets[0].start_unix_nanos < earliest {
            earliest
        } else if self.buckets[0].start_unix_nanos < start {
            self.buckets[0].start_unix_nanos
        } else {
            start
        };
        let ghost counted: Option<NetworkEvent> = match addition {
            Some(event) => Some(*event),
            None => None,
        };
        proof {
            lemma_window(self@, start);
            lemma_filled(
                self.buckets@,
                start as int,
                counted,
                first as int,
                latest + self.bucket_width_nanos,
                self.bucket_width_nanos as int,
            );
            lemma_window_length(self@, start, counted);
        }
        self.buckets = fill(
            &self.buckets,
            start,
            addition,
            first,
            latest,
            self.bucket_width_nanos,
        );
    }

    /// Counts an event, unless it has come too late.
    pub fn record(&mut self, event: &NetworkEvent) -> (outcome: CurveRecordOutcome)
        requires
            old(self)@.well_formed(),
        ensures
            final(self)@ == old(self)@.recorded(*event),
            outcome == (if old(self)@.is_late(*event) {
                CurveRecordOutcome::LateDropped
            } else {
                CurveRecordOutcome::Accepted
            }),
            final(self)@.well_formed(),
    {
        let start: u64 = model::start_of_bucket(
            event.timestamp_unix_nanos,
            self.bucket_width_nanos,
        );
        let latest: u64 = self.latest_after(start);
        let earliest: u64 = self.earliest_retained(latest);
        let outcome = if start < earliest {
            self.events_late_dropped = self.events_late_dropped.saturating_add(1);
            self.bytes_late_dropped = self.bytes_late_dropped.saturating_add(event.bytes);
            CurveRecordOutcome::LateDropped
        } else {
            self.normalize(start, Some(event));
            self.events_accepted = self.events_accepted.saturating_add(1);
            self.bytes_accepted = self.bytes_accepted.saturating_add(event.bytes);
            CurveRecordOutcome::Accepted
        };
        self.events_received = self.events_received.saturating_add(1);
        self.bytes_received = self.bytes_received.saturating_add(event.bytes);
        outcome
    }

    /// Puts the curve's clock forward, filling the time that has passed with no traffic.
    pub fn advance_to(&mut self, timestamp_unix_nanos: u64)
        requires
            old(self)@.well_formed(),
        ensures
            final(self)@ == old(self)@.advanced(timestamp_unix_nanos),
            final(self)@.well_formed(),
    {
        let start: u64 = model::start_of_bucket(timestamp_unix_nanos, self.bucket_width_nanos);
        let n: usize = self.buckets.len();
        if n == 0 || start > self.buckets[n - 1].start_unix_nanos {
            proof {
                vstd::arithmetic::mul::lemma_mul_nonnegative(
                    self.maximum_buckets - 1,
                    self.bucket_width_nanos as int,
                );
            }
            self.normalize(start, None);
        }
    }

    /// The curve as it stands.
    pub fn snapshot(&self) -> (snapshot: TrafficCurveSnapshot)
        ensures
            snapshot@ == self@,
    {
        let buckets = copy_buckets(self.buckets.as_slice());
        TrafficCurveSnapshot {
            bucket_width_nanos: self.bucket_width_nanos,
            maximum_buckets: self.maximum_buckets,
            events_received: self.events_received,
            events_accepted: self.events_accepted,
            events_late_dropped: self.events_late_dropped,
            bytes_received: self.bytes_received,
            bytes_accepted: self.bytes_accepted,
            bytes_late_dropped: self.bytes_late_dropped,
            buckets,
        }
    }
}

/// The same buckets again.
pub fn copy_buckets(buckets: &[TrafficBucket]) -> (copy: Vec<TrafficBucket>)
    ensures
        copy@ == buckets@,
{
    let mut copy: Vec<TrafficBucket> = Vec::new();
    for i in 0..buckets.len()
        invariant
            copy@ == buckets@.take(i as int),
    {
        copy.push(buckets[i]);
    }
    copy
}

/// The window of a curve starts and ends on multiples of the width, at or before the newest.
pub proof fn lemma_window(curve: CurveView, start: u64)
    requires
        curve.well_formed(),
        start % curve.width == 0,
        start >= curve.earliest_for(curve.latest_with(start)),
    ensures
        0 <= curve.first_with(start) <= curve.latest_with(start) <= u64::MAX,
        curve.first_with(start) >= curve.earliest_for(curve.latest_with(start)),
        curve.first_with(start) % (curve.width as int) == 0,
        curve.latest_with(start) % (curve.width as int) == 0,
        (curve.latest_with(start) + curve.width) % (curve.width as int) == 0,
{
    let w = curve.width as int;
    let latest = curve.latest_with(start);
    let n = curve.buckets.len();
    vstd::arithmetic::mul::lemma_mul_nonnegative(curve.maximum - 1, w);
    if n > 0 {
        let first = curve.buckets[0].start_unix_nanos as int;
        vstd::arithmetic::mul::lemma_mul_nonnegative(n - 1, w);
        assert(curve.buckets.last().start_unix_nanos == first + (n - 1) * w);
        vstd::arithmetic::div_mod::lemma_mod_multiples_vanish(n - 1, first, w);
        assert(w * (n - 1) + first == first + (n - 1) * w) by (nonlinear_arith);
    }
    vstd::arithmetic::div_mod::lemma_mod_multiples_vanish(-(curve.maximum - 1), latest, w);
    assert(w * (-(curve.maximum - 1)) + latest == latest - (curve.maximum - 1) * w)
        by (nonlinear_arith);
    vstd::arithmetic::div_mod::lemma_small_mod(0, w as nat);
    vstd::arithmetic::div_mod::lemma_mod_add_multiples_vanish(latest, w);
}

/// The window of a curve has no more buckets than the curve may hold.
pub proof fn lemma_window_length(curve: CurveView, start: u64, addition: Option<NetworkEvent>)
    requires
        curve.well_formed(),
        start % curve.width == 0,
        start >= curve.earliest_for(curve.latest_with(start)),
    ensures
        0 < curve.buckets_with(start, addition).len() <= curve.maximum,
{
    lemma_window(curve, start);
    let w = curve.width as int;
    let first = curve.first_with(start);
    let latest = curve.latest_with(start);
    lemma_filled(curve.buckets, start as int, addition, first, latest + w, w);
    let n = curve.buckets_with(start, addition).len();
    assert(0 < n <= curve.maximum) by (nonlinear_arith)
        requires
            w > 0,
            n * w == latest + w - first,
            first <= latest,
            first >= latest - (curve.maximum - 1) * w,
    ;
}

/// Putting the clock forward leaves every account as it was.
pub proof fn law_advancing_keeps_accounts(curve: CurveView, timestamp: u64)
    ensures
        curve.advanced(timestamp) == (CurveView {
            buckets: curve.advanced(timestamp).buckets,
            ..curve
        }),
{
}

/// An event is accepted or has come too late, and its bytes are entered in the account of what was
/// received and in one of the other two.
pub proof fn law_event_is_accounted_for(curve: CurveView, event: NetworkEvent)
    requires
        curve.well_formed(),
    ensures
        curve.recorded(event).bytes_received == model::saturated(
            curve.bytes_received + event.bytes,
        ),
        curve.is_late(event) ==> curve.recorded(event).bytes_late_dropped == model::saturated(
            curve.bytes_late_dropped + event.bytes,
        ) && curve.recorded(event).bytes_accepted == curve.bytes_accepted
            && curve.recorded(event).buckets == curve.buckets,
        !curve.is_late(event) ==> curve.recorded(event).bytes_accepted == model::saturated(
            curve.bytes_accepted + event.bytes,
        ) && curve.recorded(event).bytes_late_dropped == curve.bytes_late_dropped,
        curve.recorded(event).events_received == model::saturated(
            curve.recorded(event).events_accepted + curve.recorded(event).events_late_dropped,
        ),
        curve.recorded(event).bytes_received == model::saturated(
            curve.recorded(event).bytes_accepted + curve.recorded(event).bytes_late_dropped,
        ),
{
}

/// A step of a curve: an event is counted, or the clock is put forward.
pub enum CurveStep {
    Record(NetworkEvent),
    Advance(u64),
}

/// A curve after a run of steps.
pub open spec fn after_steps(curve: CurveView, steps: Seq<CurveStep>) -> CurveView
    decreases steps.len(),
{
    if steps.len() == 0 {
        curve
    } else {
        let before = after_steps(curve, steps.drop_last());
        match steps.last() {
            CurveStep::Record(event) => before.recorded(event),
            CurveStep::Advance(timestamp) => before.advanced(timestamp),
        }
    }
}

/// The bytes of a run's events that went one way at a time from `start` up to, not at, `end`.
pub open spec fn carried(
    steps: Seq<CurveStep>,
    direction: TrafficDirection,
    start: int,
    end: int,
) -> nat
    decreases steps.len(),
{
    if steps.len() == 0 {
        0
    } else {
        carried(steps.drop_last(), direction, start, end) + (match steps.last() {
            CurveStep::Record(event) => if event.direction == direction && start
                <= event.timestamp_unix_nanos < end {
                event.bytes as nat
            } else {
                0
            },
            CurveStep::Advance(_) => 0,
        })
    }
}

/// Two starts of buckets that hold one time are one.
proof fn lemma_one_bucket(a: int, b: int, time: int, width: int)
    requires
        width > 0,
        a % width == 0,
        b % width == 0,
        a <= time < a + width,
        b <= time < b + width,
    ensures
        a == b,
{
    if a < b {
        lemma_step(a, b, width);
    }
    if b < a {
        lemma_step(b, a, width);
    }
}

/// The last bucket of a curve starts no later than the others that it may keep allow.
proof fn lemma_oldest_is_kept(curve: CurveView)
    requires
        curve.well_formed(),
        curve.buckets.len() > 0,
    ensures
        forall|i: int|
            0 <= i < curve.buckets.len() ==> curve.earliest_for(
                curve.buckets.last().start_unix_nanos as int,
            ) <= (#[trigger] curve.buckets[i]).start_unix_nanos
                <= curve.buckets.last().start_unix_nanos,
        forall|i: int|
            0 <= i < curve.buckets.len() ==> curve.buckets[0].start_unix_nanos <= (
            #[trigger] curve.buckets[i]).start_unix_nanos,
        forall|i: int|
            0 <= i < curve.buckets.len() ==> (#[trigger] curve.buckets[i]).start_unix_nanos as int
                % curve.width as int == 0,
{
    let w = curve.width as int;
    let n = curve.buckets.len() as int;
    let m = curve.maximum as int;
    let first = curve.buckets[0].start_unix_nanos as int;
    assert(curve.buckets[n - 1].start_unix_nanos == first + (n - 1) * w);
    assert((n - 1) * w <= (m - 1) * w) by (nonlinear_arith)
        requires
            n <= m,
            w > 0,
    ;
    assert forall|i: int| 0 <= i < n implies curve.earliest_for(
        curve.buckets.last().start_unix_nanos as int,
    ) <= (#[trigger] curve.buckets[i]).start_unix_nanos
        <= curve.buckets.last().start_unix_nanos && first <= curve.buckets[i].start_unix_nanos
        && curve.buckets[i].start_unix_nanos as int % w == 0 by {
        assert(curve.buckets[i].start_unix_nanos == first + i * w);
        assert(0 <= i * w <= (n - 1) * w) by (nonlinear_arith)
            requires
                0 <= i <= n - 1,
                w > 0,
        ;
        vstd::arithmetic::div_mod::lemma_mod_multiples_vanish(i, first, w);
        assert(w * i + first == first + i * w) by (nonlinear_arith);
    }
}

/// Filling a curve leaves the traffic of every bucket that may be kept, but for what is added.
proof fn lemma_fill_keeps(curve: CurveView, start: u64, addition: Option<NetworkEvent>, s: int)
    requires
        curve.well_formed(),
        start % curve.width == 0,
        start >= curve.earliest_for(curve.latest_with(start)),
        s % (curve.width as int) == 0,
        s >= curve.earliest_for(curve.latest_with(start)),
        0 <= s <= u64::MAX,
    ensures
        bucket_at(curve.buckets_with(start, addition), s) == bucket_after(
            curve.buckets,
            start as int,
            addition,
            s,
        ),
        (CurveView { buckets: curve.buckets_with(start, addition), ..curve }).well_formed(),
        curve.buckets_with(start, addition).len() > 0,
        curve.buckets_with(start, addition).last().start_unix_nanos == curve.latest_with(start),
{
    let w = curve.width as int;
    let first = curve.first_with(start);
    let latest = curve.latest_with(start);
    lemma_window(curve, start);
    lemma_filled(curve.buckets, start as int, addition, first, latest + w, w);
    lemma_window_length(curve, start, addition);
    let out = curve.buckets_with(start, addition);
    let n = out.len() as int;
    assert(out[n - 1].start_unix_nanos == first + (n - 1) * w);
    assert((n - 1) * w == n * w - w) by (nonlinear_arith);
    if curve.buckets.len() > 0 {
        lemma_oldest_is_kept(curve);
    }
    if first <= s <= latest {
        let i = (s - first) / w;
        vstd::arithmetic::div_mod::lemma_fundamental_div_mod(s, w);
        vstd::arithmetic::div_mod::lemma_fundamental_div_mod(first, w);
        let p = s / w;
        let q = first / w;
        assert(s - first == (p - q) * w) by (nonlinear_arith)
            requires
                s == w * p,
                first == w * q,
        ;
        vstd::arithmetic::div_mod::lemma_div_multiples_vanish(p - q, w);
        assert(i == p - q);
        assert(0 <= i < n) by (nonlinear_arith)
            requires
                w > 0,
                0 <= i * w < n * w,
        ;
        assert(out[i] == bucket_after(curve.buckets, start as int, addition, first + i * w));
        assert(out[i].start_unix_nanos == s);
        lemma_bucket_at(out, w, i);
    } else {
        assert forall|i: int| 0 <= i < n implies (#[trigger] out[i]).start_unix_nanos != s by {
            assert(out[i].start_unix_nanos == first + i * w);
            assert(0 <= i * w <= (n - 1) * w) by (nonlinear_arith)
                requires
                    0 <= i <= n - 1,
                    w > 0,
            ;
        }
        assert(s != start);
        assert forall|i: int| 0 <= i < curve.buckets.len() implies (
        #[trigger] curve.buckets[i]).start_unix_nanos != s by {
        }
    }
}

/// The curve holds, of each time that it may keep, what the run carried.
proof fn lemma_run(curve: CurveView, steps: Seq<CurveStep>, s: int)
    requires
        curve.well_formed(),
        curve.buckets.len() == 0,
        s % (curve.width as int) == 0,
        0 <= s <= u64::MAX,
    ensures
        after_steps(curve, steps).well_formed(),
        after_steps(curve, steps).width == curve.width,
        after_steps(curve, steps).maximum == curve.maximum,
        ({
            let after = after_steps(curve, steps);
            let w = curve.width as int;
            after.buckets.len() == 0 || s >= after.earliest_for(
                after.buckets.last().start_unix_nanos as int,
            ) ==> {
                &&& bucket_at(after.buckets, s).send_bytes == model::saturated(
                    carried(steps, TrafficDirection::Send, s, s + w) as int,
                )
                &&& bucket_at(after.buckets, s).receive_bytes == model::saturated(
                    carried(steps, TrafficDirection::Receive, s, s + w) as int,
                )
            }
        }),
    decreases steps.len(),
{
    if steps.len() > 0 {
        let before = after_steps(curve, steps.drop_last());
        let after = after_steps(curve, steps);
        let w = curve.width as int;
        lemma_run(curve, steps.drop_last(), s);
        vstd::arithmetic::mul::lemma_mul_nonnegative(before.maximum - 1, w);
        match steps.last() {
            CurveStep::Record(event) => {
                let start = model::bucket_start(event.timestamp_unix_nanos, before.width);
                model::law_stretch_holds_its_timestamp(event.timestamp_unix_nanos, before.width);
                if s <= event.timestamp_unix_nanos < s + w {
                    lemma_one_bucket(s, start as int, event.timestamp_unix_nanos as int, w);
                }
                if !before.is_late(event) {
                    let t = before.latest_with(start);
                    lemma_window(before, start);
                    lemma_fill_keeps(before, start, Some(event), t);
                    if s >= before.earliest_for(t) {
                        lemma_fill_keeps(before, start, Some(event), s);
                    }
                }
            },
            CurveStep::Advance(timestamp) => {
                let start = model::bucket_start(timestamp, before.width);
                model::law_stretch_holds_its_timestamp(timestamp, before.width);
                if before.buckets.len() == 0 || start > before.buckets.last().start_unix_nanos {
                    let t = before.latest_with(start);
                    lemma_window(before, start);
                    lemma_fill_keeps(before, start, None, t);
                    if s >= before.earliest_for(t) {
                        lemma_fill_keeps(before, start, None, s);
                    }
                }
            },
        }
    }
}

/// After a run of events, and of the clock being put forward, each bucket of a curve that was empty
/// holds the bytes of the events of its time: those sent under what was sent, those received under
/// what was received. The buckets follow each other without a gap, the newest no more than the
/// curve's room away from the oldest.
pub proof fn law_buckets_sum_their_events(curve: CurveView, steps: Seq<CurveStep>, i: int)
    requires
        curve.well_formed(),
        curve.buckets.len() == 0,
        0 <= i < after_steps(curve, steps).buckets.len(),
    ensures
        ({
            let after = after_steps(curve, steps);
            let bucket = after.buckets[i];
            let start = bucket.start_unix_nanos as int;
            let end = start + curve.width;
            &&& bucket.send_bytes == model::saturated(
                carried(steps, TrafficDirection::Send, start, end) as int,
            )
            &&& bucket.receive_bytes == model::saturated(
                carried(steps, TrafficDirection::Receive, start, end) as int,
            )
            &&& i + 1 < after.buckets.len() ==> after.buckets[i + 1].start_unix_nanos == end
            &&& start % (curve.width as int) == 0
            &&& after.buckets.len() <= curve.maximum
        }),
{
    let after = after_steps(curve, steps);
    lemma_run(curve, steps, 0);
    lemma_oldest_is_kept(after);
    lemma_bucket_at(after.buckets, after.width as int, i);
    lemma_run(curve, steps, after.buckets[i].start_unix_nanos as int);
    if i + 1 < after.buckets.len() {
        let w = after.width as int;
        assert(after.buckets[i + 1].start_unix_nanos == after.buckets[0].start_unix_nanos + (i + 1)
            * w);
        assert((i + 1) * w == i * w + w) by (nonlinear_arith);
    }
    vstd::arithmetic::div_mod::lemma_small_mod(0, after.width as nat);
}

/// An event comes too late where its bucket lies further before the newest bucket than the curve
/// has room for; any other event is in the curve once it has been counted.
pub proof fn law_old_events_are_late(curve: CurveView, event: NetworkEvent, start: int)
    requires
        curve.well_formed(),
        start % (curve.width as int) == 0,
        start <= event.timestamp_unix_nanos < start + curve.width,
    ensures
        curve.is_late(event) <==> curve.buckets.len() > 0 && start + curve.width * (curve.maximum
            - 1) < curve.buckets.last().start_unix_nanos,
        !curve.is_late(event) ==> exists|i: int|
            0 <= i < curve.recorded(event).buckets.len() && (#[trigger] curve.recorded(
                event,
            ).buckets[i]).start_unix_nanos == start,
{
    let w = curve.width as int;
    let at = model::bucket_start(event.timestamp_unix_nanos, curve.width);
    model::law_stretch_holds_its_timestamp(event.timestamp_unix_nanos, curve.width);
    lemma_one_bucket(start, at as int, event.timestamp_unix_nanos as int, w);
    assert((curve.maximum - 1) * w == w * (curve.maximum - 1)) by (nonlinear_arith);
    vstd::arithmetic::mul::lemma_mul_nonnegative(curve.maximum - 1, w);
    if !curve.is_late(event) {
        let first = curve.first_with(at);
        let latest = curve.latest_with(at);
        lemma_window(curve, at);
        lemma_filled(curve.buckets, at as int, Some(event), first, latest + w, w);
        let out = curve.recorded(event).buckets;
        let n = out.len() as int;
        vstd::arithmetic::div_mod::lemma_fundamental_div_mod(start, w);
        vstd::arithmetic::div_mod::lemma_fundamental_div_mod(first, w);
        let i = start / w - first / w;
        assert(start - first == i * w) by (nonlinear_arith)
            requires
                start == w * (start / w),
                first == w * (first / w),
                i == start / w - first / w,
        ;
        if curve.buckets.len() > 0 {
            lemma_oldest_is_kept(curve);
        }
        assert(0 <= i < n) by (nonlinear_arith)
            requires
                w > 0,
                0 <= i * w < n * w,
        ;
        assert(out[i].start_unix_nanos == start);
    }
}

} // verus!
