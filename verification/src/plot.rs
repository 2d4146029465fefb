//! Which part of a session's curve is shown, and how tall its axis is.
use crate::model;
use crate::session::{SessionBucket, SessionId};
use vstd::prelude::*;

verus! {

/// How many stretches are shown at a time.
pub const WINDOW_BUCKETS: usize = 60;

/// The least height of the axis.
pub const DEFAULT_SESSION_CURVE_Y_MAX: u64 = 65_536;

/// Where the last full window starts.
pub open spec fn latest_start(total: usize) -> usize {
    if total > WINDOW_BUCKETS {
        (total - WINDOW_BUCKETS) as usize
    } else {
        0
    }
}

/// Where the shown window starts.
pub open spec fn window_start(total: usize, requested: usize, follow_latest: bool) -> usize {
    if follow_latest || requested > latest_start(total) {
        latest_start(total)
    } else {
        requested
    }
}

/// Where the shown window starts: at the end where it follows, else where it is asked to, but never
/// so late that it is not full.
pub fn session_window_start(total: usize, requested: usize, follow_latest: bool) -> (start: usize)
    ensures
        start == window_start(total, requested, follow_latest),
{
    let latest: usize = total.saturating_sub(WINDOW_BUCKETS);
    if follow_latest || requested > latest {
        latest
    } else {
        requested
    }
}

/// Every stretch of a session can be brought into the window, and a window that follows ends with
/// the last stretch.
pub proof fn law_every_sample_is_addressable(total: usize, sample: usize)
    requires
        sample < total,
    ensures
        window_start(total, sample, false) <= sample < window_start(total, sample, false)
            + WINDOW_BUCKETS,
        window_start(total, 0, true) <= total - 1 < window_start(total, 0, true) + WINDOW_BUCKETS,
{
}

/// The first of one, two, five, ten, twenty, fifty and so on, times a magnitude, that is no less
/// than a value.
pub open spec fn step_from(value: nat, magnitude: nat) -> nat
    decreases
            (if value > magnitude {
                value - magnitude
            } else {
                0
            }),
{
    if magnitude == 0 || value <= magnitude {
        magnitude
    } else if value <= 2 * magnitude {
        2 * magnitude
    } else if value <= 5 * magnitude {
        5 * magnitude
    } else {
        step_from(value, 10 * magnitude)
    }
}

/// The height of an axis for a value, held at the largest number of sixty-four bits.
pub open spec fn ceiling(value: u64) -> u64 {
    if step_from(value as nat, 1) > u64::MAX {
        u64::MAX
    } else {
        step_from(value as nat, 1) as u64
    }
}

/// The height of an axis for a value: the next number that starts with one, two or five.
pub fn nice_curve_ceiling(value: u64) -> (r: u64)
    ensures
        r == ceiling(value),
{
    let mut magnitude: u64 = 1;
    while value > model::saturating_product(magnitude, 10) && magnitude <= u64::MAX / 10
        invariant
            magnitude >= 1,
            step_from(value as nat, magnitude as nat) == step_from(value as nat, 1),
        decreases u64::MAX - magnitude,
    {
        magnitude = model::saturating_product(magnitude, 10);
    }
    assert(step_from(value as nat, 10 * magnitude as nat) == 10 * magnitude || value > 10 * magnitude);
    if magnitude >= value {
        magnitude
    } else if model::saturating_product(magnitude, 2) >= value {
        model::saturating_product(magnitude, 2)
    } else if model::saturating_product(magnitude, 5) >= value {
        model::saturating_product(magnitude, 5)
    } else {
        model::saturating_product(magnitude, 10)
    }
}

proof fn lemma_step_is_enough(value: nat, magnitude: nat)
    requires
        magnitude > 0,
    ensures
        step_from(value, magnitude) >= value,
        value > magnitude ==> 2 * step_from(value, magnitude) < 5 * value,
    decreases
            (if value > magnitude {
                value - magnitude
            } else {
                0
            }),
{
    if value > 5 * magnitude {
        lemma_step_is_enough(value, 10 * magnitude);
    }
}

/// The axis is tall enough for its value, and less than two and a half times as tall.
pub proof fn law_axis_fits(value: u64)
    ensures
        ceiling(value) >= value,
        value > 1 ==> 2 * ceiling(value) < 5 * value,
{
    lemma_step_is_enough(value as nat, 1);
}

/// The most bytes of any stretch in one direction.
pub open spec fn peak_of(buckets: Seq<SessionBucket>) -> u64
    decreases buckets.len(),
{
    if buckets.len() == 0 {
        0
    } else {
        larger(
            peak_of(buckets.drop_last()),
            larger(buckets.last().send_bytes, buckets.last().receive_bytes),
        )
    }
}

/// The larger of two numbers.
pub open spec fn larger(a: u64, b: u64) -> u64 {
    if a >= b {
        a
    } else {
        b
    }
}

fn find_peak(buckets: &Vec<SessionBucket>) -> (peak: u64)
    ensures
        peak == peak_of(buckets@),
{
    let mut peak: u64 = 0;
    assert(buckets@.take(0) =~= Seq::<SessionBucket>::empty());
    for i in 0..buckets.len()
        invariant
            peak == peak_of(buckets@.take(i as int)),
    {
        assert(buckets@.take(i + 1).drop_last() =~= buckets@.take(i as int));
        let bucket = buckets[i];
        let most: u64 = if bucket.send_bytes >= bucket.receive_bytes {
            bucket.send_bytes
        } else {
            bucket.receive_bytes
        };
        if most > peak {
            peak = most;
        }
    }
    assert(buckets@.take(buckets@.len() as int) =~= buckets@);
    peak
}

/// Which part of which session's curve is shown.
#[derive(Debug, Clone, Copy, PartialEq, Eq, Structural)]
pub struct SessionCurveView {
    pub session_id: Option<SessionId>,
    pub start: usize,
    pub follow_latest: bool,
    pub y_max: u64,
}

/// The curve of no session.
pub open spec fn no_curve() -> SessionCurveView {
    SessionCurveView {
        session_id: None,
        start: 0,
        follow_latest: true,
        y_max: DEFAULT_SESSION_CURVE_Y_MAX,
    }
}

impl Default for SessionCurveView {
    fn default() -> (view: SessionCurveView)
        ensures
            view == no_curve(),
    {
        SessionCurveView {
            session_id: None,
            start: 0,
            follow_latest: true,
            y_max: DEFAULT_SESSION_CURVE_Y_MAX,
        }
    }
}

/// The shown window: where it starts, where it ends, where the last one starts, and the times of its
/// first and last stretch.
#[derive(Debug, Clone, Copy, PartialEq, Eq, Structural)]
pub struct CurveWindow {
    pub start: usize,
    pub end: usize,
    pub maximum_start: usize,
    pub range_start: u64,
    pub range_end: u64,
}

/// What is shown of a session once its stretches are known. The axis never shrinks while the same
/// session is shown.
pub open spec fn shown(
    view: SessionCurveView,
    session_id: SessionId,
    buckets: Seq<SessionBucket>,
) -> SessionCurveView {
    let same = if view.session_id == Some(session_id) {
        view
    } else {
        SessionCurveView { session_id: Some(session_id), ..no_curve() }
    };
    SessionCurveView {
        start: window_start(buckets.len() as usize, same.start, same.follow_latest),
        y_max: larger(
            same.y_max,
            ceiling(larger(peak_of(buckets), DEFAULT_SESSION_CURVE_Y_MAX)),
        ),
        ..same
    }
}

impl SessionCurveView {
    /// Shows a session's curve.
    pub fn show(
        &mut self,
        session_id: SessionId,
        started_at_unix_nanos: u64,
        buckets: &Vec<SessionBucket>,
    ) -> (window: CurveWindow)
        ensures
            *final(self) == shown(*old(self), session_id, buckets@),
            window.start == final(self).start,
            window.end == (if window.start + WINDOW_BUCKETS < buckets@.len() {
                window.start + WINDOW_BUCKETS
            } else {
                buckets@.len() as int
            }),
            window.start <= window.end <= buckets@.len(),
            window.maximum_start == latest_start(buckets@.len() as usize),
            window.range_start == (if window.start < window.end {
                buckets@[window.start as int].start_unix_nanos
            } else {
                started_at_unix_nanos
            }),
            window.range_end == (if window.start < window.end {
                buckets@[window.end - 1].start_unix_nanos
            } else {
                window.range_start
            }),
    {
        if self.session_id != Some(session_id) {
            *self = SessionCurveView {
                session_id: Some(session_id),
                start: 0,
                follow_latest: true,
                y_max: DEFAULT_SESSION_CURVE_Y_MAX,
            };
        }
        let total: usize = buckets.len();
        self.start = session_window_start(total, self.start, self.follow_latest);
        let peak: u64 = find_peak(buckets);
        let tallest: u64 = if peak >= DEFAULT_SESSION_CURVE_Y_MAX {
            peak
        } else {
            DEFAULT_SESSION_CURVE_Y_MAX
        };
        let height: u64 = nice_curve_ceiling(tallest);
        if height > self.y_max {
            self.y_max = height;
        }
        let start: usize = self.start;
        let end: usize = if total - start > WINDOW_BUCKETS {
            start + WINDOW_BUCKETS
        } else {
            total
        };
        let range_start: u64 = if start < end {
            buckets[start].start_unix_nanos
        } else {
            started_at_unix_nanos
        };
        let range_end: u64 = if start < end {
            buckets[end - 1].start_unix_nanos
        } else {
            range_start
        };
        CurveWindow {
            start,
            end,
            maximum_start: total.saturating_sub(WINDOW_BUCKETS),
            range_start,
            range_end,
        }
    }

    /// Shows the end of the curve again.
    pub fn return_to_latest(&mut self, maximum_start: usize)
        ensures
            *final(self) == (SessionCurveView {
                follow_latest: true,
                start: maximum_start,
                ..*old(self)
            }),
    {
        self.follow_latest = true;
        self.start = maximum_start;
    }

    /// Moves the window; one that is moved to the end follows it.
    pub fn move_to(&mut self, start: usize, maximum_start: usize)
        ensures
            *final(self) == (SessionCurveView {
                follow_latest: start == maximum_start,
                start,
                ..*old(self)
            }),
    {
        self.start = start;
        self.follow_latest = start == maximum_start;
    }
}

/// While one session is shown its axis never shrinks, and it is always tall enough for every
/// stretch.
pub proof fn law_axis_never_shrinks(
    view: SessionCurveView,
    session_id: SessionId,
    buckets: Seq<SessionBucket>,
)
    ensures
        view.session_id == Some(session_id) ==> shown(view, session_id, buckets).y_max >= view.y_max,
        shown(view, session_id, buckets).y_max >= peak_of(buckets),
{
    law_axis_fits(larger(peak_of(buckets), DEFAULT_SESSION_CURVE_Y_MAX));
}

/// A window shows sixty samples: all where there are no more, the last sixty where it follows the
/// newest or was asked for a later start, and else those from the start asked for.
pub proof fn law_windows_hold_sixty(total: usize, requested: usize)
    ensures
        total <= 60 ==> window_start(total, requested, true) == 0 && window_start(
            total,
            requested,
            false,
        ) == 0,
        total > 60 ==> window_start(total, requested, true) == total - 60,
        total > 60 && requested + 60 > total ==> window_start(total, requested, false) == total
            - 60,
        requested + 60 <= total ==> window_start(total, requested, false) == requested,
{
}

/// The peak of buckets is the largest number of bytes that any of them sent or received.
pub proof fn law_peak_is_the_largest(buckets: Seq<SessionBucket>)
    ensures
        forall|i: int|
            0 <= i < buckets.len() ==> (#[trigger] buckets[i]).send_bytes <= peak_of(buckets)
                && buckets[i].receive_bytes <= peak_of(buckets),
        buckets.len() > 0 ==> exists|i: int|
            0 <= i < buckets.len() && ((#[trigger] buckets[i]).send_bytes == peak_of(buckets)
                || buckets[i].receive_bytes == peak_of(buckets)),
        buckets.len() == 0 ==> peak_of(buckets) == 0,
    decreases buckets.len(),
{
    if buckets.len() > 0 {
        let shorter = buckets.drop_last();
        let n = buckets.len() - 1;
        law_peak_is_the_largest(shorter);
        assert forall|i: int| 0 <= i < buckets.len() implies (#[trigger] buckets[i]).send_bytes
            <= peak_of(buckets) && buckets[i].receive_bytes <= peak_of(buckets) by {
            if i < n {
                assert(shorter[i] == buckets[i]);
            }
        }
        if shorter.len() > 0 && peak_of(buckets) == peak_of(shorter) {
            let i = choose|i: int|
                0 <= i < shorter.len() && ((#[trigger] shorter[i]).send_bytes == peak_of(shorter)
                    || shorter[i].receive_bytes == peak_of(shorter));
            assert(buckets[i] == shorter[i]);
        } else {
            assert(buckets[n].send_bytes == peak_of(buckets) || buckets[n].receive_bytes == peak_of(
                buckets,
            ));
        }
    }
}

/// A curve is shown anew for another session: from its newest samples, with the usual axis, which
/// reaches to 65536 bytes or further.
pub proof fn law_another_session_is_shown_anew(
    view: SessionCurveView,
    session_id: SessionId,
    buckets: Seq<SessionBucket>,
)
    requires
        view.session_id != Some(session_id),
        buckets.len() <= usize::MAX,
    ensures
        shown(view, session_id, buckets).session_id == Some(session_id),
        shown(view, session_id, buckets).follow_latest,
        shown(view, session_id, buckets).start == (if buckets.len() > 60 {
            buckets.len() - 60
        } else {
            0
        }),
        shown(view, session_id, buckets).y_max >= 65_536,
{
    law_axis_fits(larger(peak_of(buckets), DEFAULT_SESSION_CURVE_Y_MAX));
}

} // verus!
