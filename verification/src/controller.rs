//! The life of recording sessions: started and stopped by the user or by the detection of a high
//! risk, stored in a repository, and shown to the user.
use crate::journal;
use crate::journal::{Journal, RepositoryCall};
use crate::model;
use crate::recording;
use crate::recording::{
    ActiveSession, ActiveView, BatchView, LiveRiskEvent, MAX_LIVE_RISK_EVENTS,
};
use crate::risk;
use crate::risk::{RiskEvaluator, RiskLevel, RiskSignal, RiskView, Sighting};
use crate::session::{
    ExportFormat, SessionDetail, SessionId, SessionRecord, SessionRepository, SessionStatus,
};
use crate::settings;
use crate::settings::{StoredSettings, V2Settings};
use crate::snapshot::ApplicationSnapshot;
use crate::text;
use std::collections::VecDeque;
use vstd::prelude::*;

verus! {

/// What the user is shown of sessions.
#[derive(Debug, Clone)]
pub struct SessionUiState {
    pub active: Option<SessionRecord>,
    pub sessions: Vec<SessionRecord>,
    pub selected: Option<SessionDetail>,
    pub compare_left: Option<SessionDetail>,
    pub compare_right: Option<SessionDetail>,
    pub settings: V2Settings,
    pub persistence_queue_dropped: u64,
    pub last_error: Option<String>,
    pub recovered_sessions: usize,
    pub live_risk_events: Vec<LiveRiskEvent>,
}

/// Whether nothing is shown yet.
pub open spec fn nothing_shown(state: SessionUiState) -> bool {
    &&& state.active is None
    &&& state.sessions@.len() == 0
    &&& state.selected is None
    &&& state.compare_left is None
    &&& state.compare_right is None
    &&& state.settings == settings::default_settings()
    &&& state.persistence_queue_dropped == 0
    &&& state.last_error is None
    &&& state.recovered_sessions == 0
    &&& state.live_risk_events@.len() == 0
}

impl Default for SessionUiState {
    fn default() -> (state: SessionUiState)
        ensures
            nothing_shown(state),
    {
        SessionUiState {
            active: None,
            sessions: Vec::new(),
            selected: None,
            compare_left: None,
            compare_right: None,
            settings: V2Settings::default(),
            persistence_queue_dropped: 0,
            last_error: None,
            recovered_sessions: 0,
            live_risk_events: Vec::new(),
        }
    }
}

/// The first session of a list with an identity.
pub open spec fn first_with(sessions: Seq<SessionRecord>, id: SessionId) -> Option<SessionRecord>
    decreases sessions.len(),
{
    if sessions.len() == 0 {
        None
    } else if sessions[0].id == id {
        Some(sessions[0])
    } else {
        first_with(sessions.drop_first(), id)
    }
}

/// What is shown once the repository has answered with its sessions.
pub open spec fn relisted(
    state: SessionUiState,
    active: Option<SessionId>,
    answer: Result<Vec<SessionRecord>, String>,
) -> SessionUiState {
    match answer {
        Ok(sessions) => SessionUiState {
            active: match active {
                Some(id) => first_with(sessions@, id),
                None => None,
            },
            sessions,
            ..state
        },
        Err(error) => SessionUiState { last_error: Some(error), ..state },
    }
}

/// Shows the sessions that the repository has answered with.
pub fn relist(
    state: &mut SessionUiState,
    active: Option<SessionId>,
    answer: Result<Vec<SessionRecord>, String>,
)
    ensures
        *final(state) == relisted(*old(state), active, answer),
{
    match answer {
        Ok(sessions) => {
            let mut found: Option<SessionRecord> = None;
            if let Some(id) = active {
                let mut i: usize = 0;
                assert(sessions@.skip(0) =~= sessions@);
                while i < sessions.len() && sessions[i].id != id
                    invariant
                        i <= sessions@.len(),
                        first_with(sessions@, id) == first_with(sessions@.skip(i as int), id),
                    decreases sessions@.len() - i,
                {
                    assert(sessions@.skip(i as int).drop_first() =~= sessions@.skip(i + 1));
                    i += 1;
                }
                if i < sessions.len() {
                    found = Some(sessions[i].clone());
                }
            }
            state.active = found;
            state.sessions = sessions;
        },
        Err(error) => {
            state.last_error = Some(error);
        },
    }
}

/// What is shown and recorded at a time, with the calls of the repository so far.
#[verifier::ext_equal]
pub struct Scene {
    pub shown: SessionUiState,
    pub active: ActiveView,
    pub calls: Seq<RepositoryCall>,
}

/// A scene of what is shown and recorded and of a journal.
pub open spec fn scene<R: SessionRepository>(
    shown: SessionUiState,
    active: ActiveView,
    journal: Journal<R>,
) -> Scene {
    Scene { shown, active, calls: journal.calls() }
}

/// The scene once a call has been made.
pub open spec fn asked(before: Scene, call: RepositoryCall) -> Scene {
    Scene { calls: before.calls.push(call), ..before }
}

/// How the sessions are shown anew: the repository is asked for them once, and what it answers is
/// shown.
pub open spec fn refreshes(before: Scene, after: Scene) -> bool {
    exists|answer: Result<Vec<SessionRecord>, String>|
        after == (Scene {
            shown: relisted(before.shown, before.active.id, answer),
            ..#[trigger] asked(before, RepositoryCall::List { limit: 500, answer })
        })
}

/// Asks the repository for its sessions and shows them.
fn refresh<R: SessionRepository>(
    journal: &mut Journal<R>,
    state: &mut SessionUiState,
    active: &ActiveSession,
)
    requires
        old(journal).well_formed(),
    ensures
        final(journal).well_formed(),
        final(journal).repository() == old(journal).repository(),
        refreshes(
            scene(*old(state), active@, *old(journal)),
            scene(*final(state), active@, *final(journal)),
        ),
{
    let ghost before = scene(*state, active@, *journal);
    let answer = journal.list_sessions(500);
    let ghost next = asked(before, RepositoryCall::List { limit: 500, answer });
    relist(state, active.id(), answer);
}

/// The name of a session: what was asked for without the white space round it, or one made of the
/// second of its start.
pub open spec fn session_title(name: Seq<char>, timestamp: u64) -> Seq<char> {
    if text::trimmed(name).len() == 0 {
        "Session "@ + text::decimal((timestamp / 1_000_000_000) as nat)
    } else {
        text::trimmed(name)
    }
}

/// The name of a session.
pub fn title_for(name: &str, timestamp: u64) -> (title: String)
    ensures
        title@ == session_title(name@, timestamp),
{
    let trimmed = text::trim(name);
    if trimmed.as_str().is_empty() {
        let mut title = "Session ".to_owned();
        title.append(text::decimal_text(timestamp / 1_000_000_000).as_str());
        title
    } else {
        trimmed
    }
}

/// Whether a result is an error with a text.
pub open spec fn fails_with(result: Result<(), String>, message: Seq<char>) -> bool {
    match result {
        Ok(_) => false,
        Err(error) => error@ == message,
    }
}

/// The call that starts a session.
pub open spec fn start_call(
    name: Seq<char>,
    notes: Seq<char>,
    timestamp: u64,
    answer: Result<SessionId, String>,
) -> RepositoryCall {
    RepositoryCall::Start {
        name: session_title(name, timestamp),
        notes: text::trimmed(notes),
        timestamp,
        answer,
    }
}

/// How a session is started: the repository is asked to start it, and then for its sessions. While
/// one is recorded it is asked nothing.
pub open spec fn starts(
    before: Scene,
    name: Seq<char>,
    notes: Seq<char>,
    timestamp: u64,
    after: Scene,
    result: Result<(), String>,
) -> bool {
    if before.active.id is Some {
        after == before && fails_with(result, "a recording session is already active"@)
    } else {
        exists|answer: Result<SessionId, String>|
            {
                let next = #[trigger] asked(before, start_call(name, notes, timestamp, answer));
                match answer {
                    Ok(id) => {
                        &&& result is Ok
                        &&& refreshes(
                            Scene { active: before.active.started(id, timestamp), ..next },
                            after,
                        )
                    },
                    Err(error) => after == next && result == Err::<(), String>(error),
                }
            }
    }
}

/// Starts a session.
fn start_recording<R: SessionRepository>(
    journal: &mut Journal<R>,
    state: &mut SessionUiState,
    active: &mut ActiveSession,
    name: &str,
    notes: &str,
    timestamp: u64,
) -> (result: Result<(), String>)
    requires
        old(active).well_formed(),
        old(journal).well_formed(),
    ensures
        final(active).well_formed(),
        final(journal).well_formed(),
        final(journal).repository() == old(journal).repository(),
        starts(
            scene(*old(state), old(active)@, *old(journal)),
            name@,
            notes@,
            timestamp,
            scene(*final(state), final(active)@, *final(journal)),
            result,
        ),
{
    let ghost before = scene(*state, active@, *journal);
    if active.id().is_some() {
        return Err("a recording session is already active".to_owned());
    }
    let title = title_for(name, timestamp);
    let kept = text::trim(notes);
    let answer = journal.start_session(title.as_str(), kept.as_str(), timestamp);
    let ghost next = asked(before, start_call(name@, notes@, timestamp, answer));
    assert(next.calls == journal.calls());
    match answer {
        Ok(id) => {
            active.begin(id, timestamp);
            refresh(journal, state, active);
            Ok(())
        },
        Err(error) => {
            assert(scene(*state, active@, *journal) == next);
            Err(error)
        },
    }
}

/// How a session is stopped: the repository is asked to finish it, and then for its sessions.
/// Whatever it answers, no session is recorded afterwards.
pub open spec fn stops(
    before: Scene,
    timestamp: u64,
    after: Scene,
    result: Result<(), String>,
) -> bool {
    match before.active.id {
        None => after == before && result is Ok,
        Some(id) => exists|answer: Result<bool, String>|
            {
                let next = #[trigger] asked(
                    before,
                    RepositoryCall::Finish {
                        id,
                        timestamp,
                        status: SessionStatus::Completed,
                        answer,
                    },
                );
                let released = Scene { active: ActiveView { id: None, ..before.active }, ..next };
                match answer {
                    Ok(true) => {
                        &&& result is Ok
                        &&& refreshes(Scene { active: before.active.stopped(), ..next }, after)
                    },
                    Ok(false) => after == released && fails_with(
                        result,
                        "active session disappeared before stop"@,
                    ),
                    Err(error) => after == released && result == Err::<(), String>(error),
                }
            },
    }
}

/// Stops the session that is recorded.
fn stop_recording<R: SessionRepository>(
    journal: &mut Journal<R>,
    state: &mut SessionUiState,
    active: &mut ActiveSession,
    timestamp: u64,
) -> (result: Result<(), String>)
    requires
        old(active).well_formed(),
        old(journal).well_formed(),
    ensures
        final(active).well_formed(),
        final(journal).well_formed(),
        final(journal).repository() == old(journal).repository(),
        stops(
            scene(*old(state), old(active)@, *old(journal)),
            timestamp,
            scene(*final(state), final(active)@, *final(journal)),
            result,
        ),
{
    let ghost before = scene(*state, active@, *journal);
    let id = match active.release() {
        Some(id) => id,
        None => {
            assert(active@ == old(active)@);
            return Ok(());
        },
    };
    let answer = journal.finish_session(id, timestamp, SessionStatus::Completed);
    let ghost next = asked(
        before,
        RepositoryCall::Finish { id, timestamp, status: SessionStatus::Completed, answer },
    );
    let ghost released = Scene { active: ActiveView { id: None, ..before.active }, ..next };
    assert(scene(*state, active@, *journal) == released);
    match answer {
        Ok(found) => {
            if !found {
                return Err("active session disappeared before stop".to_owned());
            }
            active.finish();
            assert(active@ == before.active.stopped());
            refresh(journal, state, active);
            Ok(())
        },
        Err(error) => Err(error),
    }
}

/// How a snapshot is stored: in one batch that is handed over once, if the session takes it.
pub open spec fn records(
    before: Scene,
    snapshot: ApplicationSnapshot,
    events: Seq<LiveRiskEvent>,
    refresh_after: bool,
    after: Scene,
    result: Result<(), String>,
) -> bool {
    if !before.active.takes(snapshot) {
        after == before && result is Ok
    } else {
        exists|answer: Result<(), String>|
            {
                let next = #[trigger] asked(
                    before,
                    RepositoryCall::Append { batch: before.active.batch(snapshot, events), answer },
                );
                let stored = Scene { active: before.active.with_snapshot(snapshot, events), ..next };
                match answer {
                    Ok(_) => result is Ok && (if refresh_after {
                        refreshes(stored, after)
                    } else {
                        after == stored
                    }),
                    Err(error) => after == stored && result == Err::<(), String>(error),
                }
            }
    }
}

/// Stores a snapshot.
fn record<R: SessionRepository>(
    journal: &mut Journal<R>,
    state: &mut SessionUiState,
    active: &mut ActiveSession,
    snapshot: &ApplicationSnapshot,
    events: &[LiveRiskEvent],
    refresh_after: bool,
) -> (result: Result<(), String>)
    requires
        old(active).well_formed(),
        old(journal).well_formed(),
    ensures
        final(active).well_formed(),
        final(journal).well_formed(),
        final(journal).repository() == old(journal).repository(),
        records(
            scene(*old(state), old(active)@, *old(journal)),
            *snapshot,
            events@,
            refresh_after,
            scene(*final(state), final(active)@, *final(journal)),
            result,
        ),
{
    let ghost before = scene(*state, active@, *journal);
    let batch = match active.take_in(snapshot, events) {
        Some(batch) => batch,
        None => {
            return Ok(());
        },
    };
    let answer = journal.append_batch(&batch);
    let ghost next = asked(
        before,
        RepositoryCall::Append { batch: before.active.batch(*snapshot, events@), answer },
    );
    let ghost stored = Scene {
        active: before.active.with_snapshot(*snapshot, events@),
        ..next
    };
    assert(scene(*state, active@, *journal) == stored);
    match answer {
        Ok(_) => {
            if refresh_after {
                refresh(journal, state, active);
            }
            Ok(())
        },
        Err(error) => Err(error),
    }
}

/// For how long snapshots are kept for a recording that a risk starts.
pub const RISK_HISTORY_NANOS: u64 = 120_000_000_000;

/// For how long a recording that a risk started goes on after the last high risk.
pub const AUTOMATIC_AFTER_NANOS: u64 = 60_000_000_000;

/// The snapshots that are kept at a time: the oldest go while they are too old.
pub open spec fn kept_at(retained: Seq<ApplicationSnapshot>, timestamp: u64) -> Seq<
    ApplicationSnapshot,
>
    decreases retained.len(),
{
    if retained.len() > 0 && timestamp - retained[0].network_rate.sampled_at_unix_nanos
        > RISK_HISTORY_NANOS {
        kept_at(retained.drop_first(), timestamp)
    } else {
        retained
    }
}

/// A snapshot of the present is kept.
pub proof fn lemma_newest_kept(retained: Seq<ApplicationSnapshot>, timestamp: u64)
    requires
        retained.len() > 0,
        retained.last().network_rate.sampled_at_unix_nanos == timestamp,
    ensures
        kept_at(retained, timestamp).len() > 0,
        kept_at(retained, timestamp).last() == retained.last(),
    decreases retained.len(),
{
    if timestamp - retained[0].network_rate.sampled_at_unix_nanos > RISK_HISTORY_NANOS {
        assert(retained.len() > 1);
        assert(retained.drop_first().last() == retained.last());
        lemma_newest_kept(retained.drop_first(), timestamp);
    }
}

/// Nothing is kept that is older than the history reaches, as long as snapshots come in the order
/// of their time.
pub proof fn law_history_is_bounded(retained: Seq<ApplicationSnapshot>, timestamp: u64)
    requires
        forall|i: int, j: int|
            #![trigger retained[i], retained[j]]
            0 <= i < j < retained.len() ==> retained[i].network_rate.sampled_at_unix_nanos
                <= retained[j].network_rate.sampled_at_unix_nanos,
    ensures
        forall|i: int|
            0 <= i < kept_at(retained, timestamp).len() ==> timestamp - (
            #[trigger] kept_at(retained, timestamp)[i]).network_rate.sampled_at_unix_nanos
                <= RISK_HISTORY_NANOS,
    decreases retained.len(),
{
    if retained.len() > 0 && timestamp - retained[0].network_rate.sampled_at_unix_nanos
        > RISK_HISTORY_NANOS {
        let rest = retained.drop_first();
        assert forall|i: int, j: int|
            #![trigger rest[i], rest[j]]
            0 <= i < j < rest.len() implies rest[i].network_rate.sampled_at_unix_nanos
            <= rest[j].network_rate.sampled_at_unix_nanos by {
            assert(rest[i] == retained[i + 1] && rest[j] == retained[j + 1]);
        }
        law_history_is_bounded(rest, timestamp);
    }
}

/// What is kept to detect risks, as a value.
#[verifier::ext_equal]
pub struct LiveView {
    pub evaluator: RiskView,
    pub retained: Seq<ApplicationSnapshot>,
    pub last_event_id: u64,
}

/// What is kept to detect risks.
pub struct LiveRuntime {
    evaluator: RiskEvaluator,
    retained: VecDeque<ApplicationSnapshot>,
    last_event_id: u64,
}

impl View for LiveRuntime {
    type V = LiveView;

    closed spec fn view(&self) -> LiveView {
        LiveView {
            evaluator: self.evaluator@,
            retained: self.retained@,
            last_event_id: self.last_event_id,
        }
    }
}

/// What the risk evaluator sees of a snapshot.
pub open spec fn seen_in(snapshot: ApplicationSnapshot) -> Seq<Sighting> {
    Seq::new(
        snapshot.process_traffic@.len(),
        |i: int|
            recording::sighting_of(snapshot.process_traffic@, snapshot.connection_details@, i),
    )
}

impl LiveView {
    /// The evaluator with the policy of the settings.
    pub open spec fn judging(self, settings: V2Settings) -> RiskView {
        RiskView { policy: settings::policy_of(settings), ..self.evaluator }
    }

    /// What is kept once a snapshot has been looked at that raised so many signals.
    pub open spec fn observed(
        self,
        settings: V2Settings,
        snapshot: ApplicationSnapshot,
        signals: nat,
    ) -> LiveView {
        let timestamp = snapshot.network_rate.sampled_at_unix_nanos;
        LiveView {
            evaluator: self.judging(settings).evaluated(timestamp, seen_in(snapshot)),
            retained: kept_at(self.retained.push(snapshot), timestamp),
            last_event_id: model::saturated(self.last_event_id + signals),
        }
    }
}

/// Whether any signal is of a high risk.
pub open spec fn any_high(signals: Seq<RiskSignal>) -> bool {
    exists|i: int| 0 <= i < signals.len() && (#[trigger] signals[i]).level == RiskLevel::High
}

/// The first signal of a high risk.
pub open spec fn first_high(signals: Seq<RiskSignal>) -> RiskSignal
    decreases signals.len(),
{
    if signals.len() == 0 || signals[0].level == RiskLevel::High {
        signals[0]
    } else {
        first_high(signals.drop_first())
    }
}

fn find_high(signals: &Vec<RiskSignal>) -> (found: Option<usize>)
    ensures
        match found {
            Some(i) => i < signals@.len() && any_high(signals@) && signals@[i as int]
                == first_high(signals@),
            None => !any_high(signals@),
        },
{
    let mut i: usize = 0;
    assert(signals@.skip(0) =~= signals@);
    while i < signals.len()
        invariant
            i <= signals@.len(),
            first_high(signals@) == first_high(signals@.skip(i as int)),
            forall|k: int|
                0 <= k < i ==> (#[trigger] signals@[k]).level != RiskLevel::High,
        decreases signals@.len() - i,
    {
        match signals[i].level {
            RiskLevel::High => {
                assert(signals@[i as int].level == RiskLevel::High);
                return Some(i);
            },
            _ => {},
        }
        assert(signals@.skip(i as int).drop_first() =~= signals@.skip(i + 1));
        i += 1;
    }
    None
}

impl LiveRuntime {
    /// What is kept is as it should be.
    pub closed spec fn well_formed(&self) -> bool {
        self.evaluator.well_formed()
    }

    /// Nothing is kept yet.
    pub fn new(settings: &V2Settings) -> (live: LiveRuntime)
        ensures
            live.well_formed(),
            live@ == (LiveView {
                evaluator: RiskView {
                    policy: settings::policy_of(*settings),
                    initialized: false,
                    processes: Set::empty(),
                    endpoints: Set::empty(),
                    states: Map::empty(),
                },
                retained: Seq::empty(),
                last_event_id: 0,
            }),
    {
        LiveRuntime {
            evaluator: RiskEvaluator::new(settings::risk_policy(settings)),
            retained: VecDeque::new(),
            last_event_id: 0,
        }
    }

    /// Looks at a snapshot: the signals that it raises and their events.
    pub fn observe(&mut self, settings: &V2Settings, snapshot: ApplicationSnapshot) -> (raised: (
        Vec<RiskSignal>,
        Vec<LiveRiskEvent>,
    ))
        requires
            old(self).well_formed(),
        ensures
            final(self).well_formed(),
            risk::signal_views(raised.0@) == old(self)@.judging(*settings).signals(
                snapshot.network_rate.sampled_at_unix_nanos,
                seen_in(snapshot),
            ),
            raised.1@ == recording::events_of(
                raised.0@,
                old(self)@.last_event_id,
                snapshot.network_rate.sampled_at_unix_nanos,
            ),
            final(self)@ == old(self)@.observed(*settings, snapshot, raised.0@.len()),
            final(self)@.retained.len() > 0,
            final(self)@.retained.last() == snapshot,
    {
        let timestamp: u64 = snapshot.network_rate.sampled_at_unix_nanos;
        self.evaluator.set_policy(settings::risk_policy(settings));
        let observation = recording::risk_observation(&snapshot);
        assert(risk::sightings(observation.processes@) =~= seen_in(snapshot));
        let signals = self.evaluator.evaluate(&observation);
        let (events, last_id) = recording::live_events(
            signals.as_slice(),
            self.last_event_id,
            timestamp,
        );
        self.last_event_id = last_id;
        self.retained.push_back(snapshot);
        let ghost all = self.retained@;
        proof {
            lemma_newest_kept(all, timestamp);
        }
        let ghost known = (self.evaluator, self.last_event_id);
        while self.retained.len() > 0 && timestamp.saturating_sub(
            self.retained[0].network_rate.sampled_at_unix_nanos,
        ) > RISK_HISTORY_NANOS
            invariant
                kept_at(all, timestamp) == kept_at(self.retained@, timestamp),
                (self.evaluator, self.last_event_id) == known,
            decreases self.retained@.len(),
        {
            let ghost before = self.retained@;
            let _ = self.retained.pop_front();
            assert(self.retained@ =~= before.drop_first());
        }
        (signals, events)
    }
}

/// The name of a session that a risk starts.
pub open spec fn automatic_name(signal: RiskSignal) -> Seq<char> {
    "自动高风险事件 · "@ + signal.process_name@
}

/// The notes of a session that a risk starts.
pub open spec fn automatic_notes(signal: RiskSignal) -> Seq<char> {
    "由实时风险检测自动建立；风险分数 "@ + text::decimal(signal.score as nat)
        + "；已回溯保存异常前最多 2 分钟。"@ + signal.detail@
}

/// The session once a snapshot of a high risk or none has been stored: a high risk puts the end of
/// a recording that a risk started off.
pub open spec fn prolonged(active: ActiveView, high: bool, timestamp: u64) -> ActiveView {
    if active.automatic && high {
        ActiveView {
            automatic_stop_at: Some(model::saturated(timestamp + AUTOMATIC_AFTER_NANOS)),
            ..active
        }
    } else {
        active
    }
}

/// How one snapshot after the other is stored: `trace` holds the scenes in between. The events
/// belong to the last snapshot.
pub open spec fn records_run(
    trace: Seq<Scene>,
    retained: Seq<ApplicationSnapshot>,
    events: Seq<LiveRiskEvent>,
) -> bool {
    &&& 0 < trace.len() <= retained.len() + 1
    &&& forall|i: int|
        0 <= i < trace.len() - 1 ==> #[trigger] records_at(
            trace[i],
            retained,
            i,
            events,
            trace[i + 1],
            Ok(()),
        )
}

/// The events that belong to the snapshot at a place.
pub open spec fn events_at(
    retained: Seq<ApplicationSnapshot>,
    i: int,
    events: Seq<LiveRiskEvent>,
) -> Seq<LiveRiskEvent> {
    if i == retained.len() - 1 {
        events
    } else {
        Seq::empty()
    }
}

/// How the snapshot at a place is stored.
pub open spec fn records_at(
    before: Scene,
    retained: Seq<ApplicationSnapshot>,
    i: int,
    events: Seq<LiveRiskEvent>,
    after: Scene,
    result: Result<(), String>,
) -> bool {
    records(
        before,
        retained[i],
        events_at(retained, i, events),
        i == retained.len() - 1,
        after,
        result,
    )
}

/// How all the snapshots that are kept are stored, up to the first that the repository refuses.
pub open spec fn records_all(
    before: Scene,
    retained: Seq<ApplicationSnapshot>,
    events: Seq<LiveRiskEvent>,
    after: Scene,
    result: Result<(), String>,
) -> bool {
    exists|trace: Seq<Scene>|
        #[trigger] records_run(trace, retained, events) && trace[0] == before && ends_with(
            trace,
            retained,
            events,
            after,
            result,
        )
}

/// How the storing of snapshots ends: all are stored, or the repository refuses the next.
pub open spec fn ends_with(
    trace: Seq<Scene>,
    retained: Seq<ApplicationSnapshot>,
    events: Seq<LiveRiskEvent>,
    after: Scene,
    result: Result<(), String>,
) -> bool {
    match result {
        Ok(_) => trace.len() == retained.len() + 1 && trace.last() == after,
        Err(_) => trace.len() <= retained.len() && records_at(
            trace.last(),
            retained,
            trace.len() - 1,
            events,
            after,
            result,
        ),
    }
}

/// The session that a risk has started, before the snapshots that are kept are stored.
pub open spec fn marked(
    begun: Scene,
    retained: Seq<ApplicationSnapshot>,
    timestamp: u64,
) -> Scene {
    Scene {
        active: ActiveView {
            automatic: true,
            automatic_stop_at: Some(model::saturated(timestamp + AUTOMATIC_AFTER_NANOS)),
            last_events: retained[0].events_processed,
            ..begun.active
        },
        ..begun
    }
}

/// How a high risk starts a session, which begins with what has been kept.
pub open spec fn starts_at_risk(
    before: Scene,
    retained: Seq<ApplicationSnapshot>,
    signal: RiskSignal,
    events: Seq<LiveRiskEvent>,
    timestamp: u64,
    begun: Scene,
    answer: Result<(), String>,
    after: Scene,
    result: Result<(), String>,
) -> bool {
    &&& starts(
        before,
        automatic_name(signal),
        automatic_notes(signal),
        retained[0].network_rate.sampled_at_unix_nanos,
        begun,
        answer,
    )
    &&& match answer {
        Err(_) => after == begun && result == answer,
        Ok(_) => records_all(marked(begun, retained, timestamp), retained, events, after, result),
    }
}

/// What a snapshot leads to that has been looked at. While a session is recorded the snapshot is
/// stored, and a recording that a risk started may be over. While none is, a high risk starts one,
/// which begins with what has been kept.
pub open spec fn follows(
    before: Scene,
    retained: Seq<ApplicationSnapshot>,
    signals: Seq<RiskSignal>,
    events: Seq<LiveRiskEvent>,
    timestamp: u64,
    after: Scene,
    result: Result<(), String>,
) -> bool {
    if before.active.id is Some {
        exists|stored: Scene, answer: Result<(), String>|
            {
                &&& #[trigger] records(before, retained.last(), events, true, stored, answer)
                &&& match answer {
                    Err(_) => after == stored && result == answer,
                    Ok(_) => {
                        let active = prolonged(stored.active, any_high(signals), timestamp);
                        if recording::over(active, timestamp) {
                            stops(Scene { active, ..stored }, timestamp, after, result)
                        } else {
                            after == (Scene { active, ..stored }) && result is Ok
                        }
                    },
                }
            }
    } else if !any_high(signals) {
        after == before && result is Ok
    } else {
        exists|begun: Scene, answer: Result<(), String>| #[trigger]
            starts_at_risk(
                before,
                retained,
                first_high(signals),
                events,
                timestamp,
                begun,
                answer,
                after,
                result,
            )
    }
}

/// Stores all the snapshots that are kept.
fn record_all<R: SessionRepository>(
    journal: &mut Journal<R>,
    state: &mut SessionUiState,
    active: &mut ActiveSession,
    retained: &VecDeque<ApplicationSnapshot>,
    events: &[LiveRiskEvent],
) -> (result: Result<(), String>)
    requires
        old(active).well_formed(),
        old(journal).well_formed(),
    ensures
        final(active).well_formed(),
        final(journal).well_formed(),
        final(journal).repository() == old(journal).repository(),
        records_all(
            scene(*old(state), old(active)@, *old(journal)),
            retained@,
            events@,
            scene(*final(state), final(active)@, *final(journal)),
            result,
        ),
{
    let none: Vec<LiveRiskEvent> = Vec::new();
    let n: usize = retained.len();
    let ghost start = scene(*state, active@, *journal);
    let ghost mut trace: Seq<Scene> = seq![start];
    let mut i: usize = 0;
    while i < n
        invariant
            i <= n == retained@.len(),
            active.well_formed(),
            journal.well_formed(),
            journal.repository() == old(journal).repository(),
            none@ == Seq::<LiveRiskEvent>::empty(),
            start == scene(*old(state), old(active)@, *old(journal)),
            trace.len() == i + 1,
            trace[0] == start,
            trace.last() == scene(*state, active@, *journal),
            records_run(trace, retained@, events@),
        decreases n - i,
    {
        let last = i == n - 1;
        let ghost before = trace;
        let attached = if last {
            events
        } else {
            none.as_slice()
        };
        let answer = record(journal, state, active, &retained[i], attached, last);
        let ghost next = scene(*state, active@, *journal);
        assert(records_at(before.last(), retained@, i as int, events@, next, answer));
        match answer {
            Ok(_) => {},
            Err(error) => {
                assert(ends_with(trace, retained@, events@, next, answer));
                return Err(error);
            },
        }
        proof {
            trace = before.push(next);
            assert forall|k: int| 0 <= k < trace.len() - 1 implies #[trigger] records_at(
                trace[k],
                retained@,
                k,
                events@,
                trace[k + 1],
                Ok(()),
            ) by {
                if k < before.len() - 1 {
                    assert(trace[k] == before[k] && trace[k + 1] == before[k + 1]);
                    assert(records_at(before[k], retained@, k, events@, before[k + 1], Ok(())));
                } else {
                    assert(trace[k] == before.last());
                }
            }
        }
        i += 1;
    }
    Ok(())
}

/// Acts on a snapshot that has been looked at.
fn follow_up<R: SessionRepository>(
    journal: &mut Journal<R>,
    state: &mut SessionUiState,
    active: &mut ActiveSession,
    retained: &VecDeque<ApplicationSnapshot>,
    signals: &Vec<RiskSignal>,
    events: &[LiveRiskEvent],
    timestamp: u64,
) -> (result: Result<(), String>)
    requires
        old(active).well_formed(),
        old(journal).well_formed(),
        retained@.len() > 0,
    ensures
        final(active).well_formed(),
        final(journal).well_formed(),
        final(journal).repository() == old(journal).repository(),
        follows(
            scene(*old(state), old(active)@, *old(journal)),
            retained@,
            signals@,
            events@,
            timestamp,
            scene(*final(state), final(active)@, *final(journal)),
            result,
        ),
{
    let high = find_high(signals);
    let stop_at: u64 = timestamp.saturating_add(AUTOMATIC_AFTER_NANOS);
    let ghost before = scene(*state, active@, *journal);
    if active.id().is_some() {
        let current = &retained[retained.len() - 1];
        let answer = record(journal, state, active, current, events, true);
        let ghost stored = scene(*state, active@, *journal);
        assert(records(before, retained@.last(), events@, true, stored, answer));
        match answer {
            Ok(_) => {},
            Err(error) => {
                return Err(error);
            },
        }
        if active.is_automatic() && high.is_some() {
            active.postpone(stop_at);
        }
        assert(active@ == prolonged(stored.active, any_high(signals@), timestamp));
        assert(scene(*state, active@, *journal) == (Scene { active: active@, ..stored }));
        if active.is_over(timestamp) {
            return stop_recording(journal, state, active, timestamp);
        }
        return Ok(());
    }
    let primary = match high {
        Some(at) => &signals[at],
        None => {
            return Ok(());
        },
    };
    let started_at: u64 = retained[0].network_rate.sampled_at_unix_nanos;
    let mut name = "自动高风险事件 · ".to_owned();
    name.append(primary.process_name.as_str());
    let mut notes = "由实时风险检测自动建立；风险分数 ".to_owned();
    notes.append(text::decimal_text(primary.score as u64).as_str());
    notes.append("；已回溯保存异常前最多 2 分钟。");
    notes.append(primary.detail.as_str());
    let answer = start_recording(
        journal,
        state,
        active,
        name.as_str(),
        notes.as_str(),
        started_at,
    );
    let ghost begun = scene(*state, active@, *journal);
    let ghost given = answer;
    match answer {
        Ok(_) => {},
        Err(error) => {
            assert(starts_at_risk(
                before,
                retained@,
                first_high(signals@),
                events@,
                timestamp,
                begun,
                given,
                begun,
                given,
            ));
            return Err(error);
        },
    }
    active.mark_automatic(stop_at, Some(retained[0].events_processed));
    assert(scene(*state, active@, *journal) == marked(begun, retained@, timestamp));
    let result = record_all(journal, state, active, retained, events);
    assert(starts_at_risk(
        before,
        retained@,
        first_high(signals@),
        events@,
        timestamp,
        begun,
        given,
        scene(*state, active@, *journal),
        result,
    ));
    result
}

/// The scene with an error noted, where there is one.
pub open spec fn noting(scene: Scene, result: Result<(), String>) -> Scene {
    match result {
        Ok(_) => scene,
        Err(error) => Scene {
            shown: SessionUiState { last_error: Some(error), ..scene.shown },
            ..scene
        },
    }
}

fn note_error(state: &mut SessionUiState, result: Result<(), String>)
    ensures
        *final(state) == (match result {
            Ok(_) => *old(state),
            Err(error) => SessionUiState { last_error: Some(error), ..*old(state) },
        }),
{
    if let Err(error) = result {
        state.last_error = Some(error);
    }
}

/// What is shown once a session has been deleted: its details are shown no longer.
pub open spec fn without_session(state: SessionUiState, id: SessionId) -> SessionUiState {
    let shown = |detail: Option<SessionDetail>|
        match detail {
            Some(detail) => detail.session.id == id,
            None => false,
        };
    let compared = shown(state.compare_left) || shown(state.compare_right);
    SessionUiState {
        selected: if shown(state.selected) {
            None
        } else {
            state.selected
        },
        compare_left: if compared {
            None
        } else {
            state.compare_left
        },
        compare_right: if compared {
            None
        } else {
            state.compare_right
        },
        ..state
    }
}

fn shows(detail: &Option<SessionDetail>, id: SessionId) -> (r: bool)
    ensures
        r == (match *detail {
            Some(detail) => detail.session.id == id,
            None => false,
        }),
{
    match detail {
        Some(detail) => detail.session.id == id,
        None => false,
    }
}

/// Shows the details of a session no longer.
pub fn forget_session(state: &mut SessionUiState, id: SessionId)
    ensures
        *final(state) == without_session(*old(state), id),
{
    if shows(&state.selected, id) {
        state.selected = None;
    }
    if shows(&state.compare_left, id) || shows(&state.compare_right, id) {
        state.compare_left = None;
        state.compare_right = None;
    }
}

/// How a session is deleted: never the one that is recorded, of which the repository is asked
/// nothing. It is asked to delete the session, and then for its sessions.
pub open spec fn deletes(
    before: Scene,
    id: SessionId,
    after: Scene,
    result: Result<(), String>,
) -> bool {
    if before.active.id == Some(id) {
        after == before && fails_with(result, "cannot delete the active recording session"@)
    } else {
        exists|answer: Result<bool, String>|
            {
                let next = #[trigger] asked(before, RepositoryCall::Delete { id, answer });
                match answer {
                    Ok(true) => result is Ok && refreshes(
                        Scene { shown: without_session(before.shown, id), ..next },
                        after,
                    ),
                    Ok(false) => after == next && fails_with(
                        result,
                        "session "@ + text::signed_decimal(id.0 as int)
                            + " does not exist or is still recording"@,
                    ),
                    Err(error) => after == next && result == Err::<(), String>(error),
                }
            }
    }
}

fn delete_session<R: SessionRepository>(
    journal: &mut Journal<R>,
    state: &mut SessionUiState,
    active: &ActiveSession,
    id: SessionId,
) -> (result: Result<(), String>)
    requires
        old(journal).well_formed(),
    ensures
        final(journal).well_formed(),
        final(journal).repository() == old(journal).repository(),
        deletes(
            scene(*old(state), active@, *old(journal)),
            id,
            scene(*final(state), active@, *final(journal)),
            result,
        ),
{
    let ghost before = scene(*state, active@, *journal);
    if let Some(recorded) = active.id() {
        if recorded == id {
            return Err("cannot delete the active recording session".to_owned());
        }
    }
    let answer = journal.delete_session(id);
    let ghost next = asked(before, RepositoryCall::Delete { id, answer });
    assert(scene(*state, active@, *journal) == next);
    match answer {
        Ok(found) => {
            if !found {
                let mut message = "session ".to_owned();
                message.append(id.text().as_str());
                message.append(" does not exist or is still recording");
                return Err(message);
            }
            forget_session(state, id);
            refresh(journal, state, active);
            Ok(())
        },
        Err(error) => Err(error),
    }
}

/// The newest end of a session that has outlived its retention.
pub open spec fn retention_cutoff(days: u32, timestamp: u64) -> u64 {
    let span = days * 86_400_000_000_000;
    if timestamp < span {
        0
    } else {
        (timestamp - span) as u64
    }
}

/// The newest end of a session that has outlived its retention.
pub fn cutoff_for(days: u32, timestamp: u64) -> (cutoff: u64)
    requires
        days * 86_400_000_000_000 <= u64::MAX,
    ensures
        cutoff == retention_cutoff(days, timestamp),
{
    timestamp.saturating_sub(days as u64 * 86_400_000_000_000)
}

/// How the sessions that have outlived their retention are deleted: the repository is asked to
/// delete them, and then for its sessions.
pub open spec fn retains(
    before: Scene,
    timestamp: u64,
    after: Scene,
    result: Result<(), String>,
) -> bool {
    exists|answer: Result<usize, String>|
        {
            let next = #[trigger] asked(
                before,
                RepositoryCall::DeleteEnded {
                    cutoff: retention_cutoff(before.shown.settings.retention_days, timestamp),
                    answer,
                },
            );
            match answer {
                Ok(_) => result is Ok && refreshes(next, after),
                Err(error) => after == next && result == Err::<(), String>(error),
            }
        }
}

/// The calls that store the first pairs.
pub open spec fn storing(pairs: Seq<(Seq<char>, Seq<char>)>, n: int) -> Seq<RepositoryCall> {
    Seq::new(
        n as nat,
        |i: int|
            RepositoryCall::SetSetting { key: pairs[i].0, value: pairs[i].1, answer: Ok(()) },
    )
}

/// How settings are stored: pair after pair, each once, up to the first that the repository
/// refuses. They are in force once all are stored.
pub open spec fn saves(
    before: Scene,
    value: V2Settings,
    after: Scene,
    result: Result<(), String>,
) -> bool {
    let pairs = settings::stored_pairs(value);
    match result {
        Ok(_) => after == (Scene {
            shown: SessionUiState { settings: value, ..before.shown },
            calls: before.calls + storing(pairs, pairs.len() as int),
            ..before
        }),
        Err(error) => exists|n: int|
            {
                &&& 0 <= n < pairs.len()
                &&& after == (Scene {
                    calls: before.calls + (#[trigger] storing(pairs, n)).push(
                        RepositoryCall::SetSetting {
                            key: pairs[n].0,
                            value: pairs[n].1,
                            answer: Err(error),
                        },
                    ),
                    ..before
                })
            },
    }
}

fn save_settings<R: SessionRepository>(
    journal: &mut Journal<R>,
    state: &mut SessionUiState,
    value: V2Settings,
    active: Ghost<ActiveView>,
) -> (result: Result<(), String>)
    requires
        old(journal).well_formed(),
    ensures
        final(journal).well_formed(),
        final(journal).repository() == old(journal).repository(),
        saves(
            scene(*old(state), active@, *old(journal)),
            value,
            scene(*final(state), active@, *final(journal)),
            result,
        ),
{
    let pairs = settings::settings_pairs(&value);
    let ghost wanted = settings::stored_pairs(value);
    let ghost before = scene(*state, active@, *journal);
    let mut i: usize = 0;
    assert(before.calls + storing(wanted, 0) =~= before.calls);
    while i < pairs.len()
        invariant
            *state == *old(state),
            journal.well_formed(),
            journal.repository() == old(journal).repository(),
            before == scene(*old(state), active@, *old(journal)),
            wanted == settings::stored_pairs(value),
            settings::pair_texts(pairs@) == wanted,
            pairs@.len() == wanted.len(),
            i <= pairs@.len(),
            journal.calls() == before.calls + storing(wanted, i as int),
        decreases pairs@.len() - i,
    {
        assert(wanted[i as int] == (pairs@[i as int].0@, pairs@[i as int].1@));
        let ghost stored = storing(wanted, i as int);
        let answer = journal.set_setting(pairs[i].0.as_str(), pairs[i].1.as_str());
        match answer {
            Ok(done) => {
                assert(done == ());
                assert(storing(wanted, i + 1) =~= stored.push(journal.calls().last()));
                assert(journal.calls() =~= before.calls + storing(wanted, i + 1));
            },
            Err(error) => {
                assert(journal.calls() =~= before.calls + stored.push(
                    RepositoryCall::SetSetting {
                        key: wanted[i as int].0,
                        value: wanted[i as int].1,
                        answer: Err(error),
                    },
                ));
                return Err(error);
            },
        }
        i += 1;
    }
    state.settings = value;
    Ok(())
}

/// A stored value: what the repository answers, or none where it fails.
pub open spec fn value_of(answer: Result<Option<String>, String>) -> Option<String> {
    match answer {
        Ok(value) => value,
        Err(_) => None,
    }
}

fn found(answer: Result<Option<String>, String>) -> (value: Option<String>)
    ensures
        value == value_of(answer),
{
    match answer {
        Ok(value) => value,
        Err(_) => None,
    }
}

/// The calls that ask for the settings, with their answers.
pub open spec fn asking(answers: Seq<Result<Option<String>, String>>) -> Seq<RepositoryCall> {
    seq![
        RepositoryCall::Setting { key: "retention_days"@, answer: answers[0] },
        RepositoryCall::Setting { key: "upload_alert_bps"@, answer: answers[1] },
        RepositoryCall::Setting { key: "download_alert_bps"@, answer: answers[2] },
        RepositoryCall::Setting { key: "spike_multiplier"@, answer: answers[3] },
        RepositoryCall::Setting { key: "alert_new_process"@, answer: answers[4] },
        RepositoryCall::Setting { key: "alert_new_endpoint"@, answer: answers[5] },
    ]
}

/// The settings that answers make up.
pub open spec fn settings_in(answers: Seq<Result<Option<String>, String>>) -> V2Settings {
    settings::restored(
        text::optional(value_of(answers[0])),
        text::optional(value_of(answers[1])),
        text::optional(value_of(answers[2])),
        text::optional(value_of(answers[3])),
        text::optional(value_of(answers[4])),
        text::optional(value_of(answers[5])),
    )
}

/// How settings are read: the repository is asked for each of them once.
pub open spec fn loads(
    before: Seq<RepositoryCall>,
    value: V2Settings,
    after: Seq<RepositoryCall>,
) -> bool {
    exists|answers: Seq<Result<Option<String>, String>>|
        after == before + #[trigger] asking(answers) && value == settings_in(answers)
}

fn load_settings<R: SessionRepository>(journal: &mut Journal<R>) -> (value: V2Settings)
    requires
        old(journal).well_formed(),
    ensures
        final(journal).well_formed(),
        final(journal).repository() == old(journal).repository(),
        loads(old(journal).calls(), value, final(journal).calls()),
{
    let retention = journal.setting("retention_days");
    let upload = journal.setting("upload_alert_bps");
    let download = journal.setting("download_alert_bps");
    let multiplier = journal.setting("spike_multiplier");
    let process = journal.setting("alert_new_process");
    let endpoint = journal.setting("alert_new_endpoint");
    let ghost answers = seq![retention, upload, download, multiplier, process, endpoint];
    assert(journal.calls() =~= old(journal).calls() + asking(answers));
    let stored = StoredSettings {
        retention_days: found(retention),
        upload_alert_bps: found(upload),
        download_alert_bps: found(download),
        spike_multiplier: found(multiplier),
        alert_new_process: found(process),
        alert_new_endpoint: found(endpoint),
    };
    settings::settings_from(&stored)
}

/// Records sessions into a repository.
pub struct RecordingController<R: SessionRepository> {
    journal: Journal<R>,
    state: SessionUiState,
    active: ActiveSession,
    live: LiveRuntime,
}

/// A controller as a value: its repository and the calls that it has made, what is shown, what is
/// recorded, and what is kept to detect risks.
pub struct ControllerView<R: SessionRepository> {
    pub repository: R,
    pub calls: Seq<RepositoryCall>,
    pub state: SessionUiState,
    pub active: ActiveView,
    pub live: LiveView,
}

impl<R: SessionRepository> ControllerView<R> {
    /// What is shown and recorded, with the calls so far.
    pub open spec fn scene(self) -> Scene {
        Scene { shown: self.state, active: self.active, calls: self.calls }
    }
}

impl<R: SessionRepository> View for RecordingController<R> {
    type V = ControllerView<R>;

    closed spec fn view(&self) -> ControllerView<R> {
        ControllerView {
            repository: self.journal.repository(),
            calls: self.journal.calls(),
            state: self.state,
            active: self.active@,
            live: self.live@,
        }
    }
}

/// How a snapshot is taken in: it raises `signals`, which become `events`; with these `shown` is
/// shown, and acting on them leads to `acted`.
pub open spec fn takes_in<R: SessionRepository>(
    before: ControllerView<R>,
    snapshot: ApplicationSnapshot,
    signals: Vec<RiskSignal>,
    events: Vec<LiveRiskEvent>,
    shown: SessionUiState,
    acted: Scene,
    result: Result<(), String>,
    after: ControllerView<R>,
) -> bool {
    let timestamp = snapshot.network_rate.sampled_at_unix_nanos;
    &&& risk::signal_views(signals@) == before.live.judging(before.state.settings).signals(
        timestamp,
        seen_in(snapshot),
    )
    &&& events@ == recording::events_of(signals@, before.live.last_event_id, timestamp)
    &&& after.live == before.live.observed(before.state.settings, snapshot, signals@.len())
    &&& shown == (SessionUiState { live_risk_events: shown.live_risk_events, ..before.state })
    &&& shown.live_risk_events@ == recording::newest_events(
        before.state.live_risk_events@ + events@,
    )
    &&& follows(
        Scene { shown, ..before.scene() },
        after.live.retained,
        signals@,
        events@,
        timestamp,
        acted,
        result,
    )
    &&& after.scene() == noting(acted, result)
    &&& after.repository == before.repository
}

impl<R: SessionRepository> RecordingController<R> {
    /// What the controller holds is as it should be.
    pub closed spec fn well_formed(&self) -> bool {
        &&& self.journal.well_formed()
        &&& self.active.well_formed()
        &&& self.live.well_formed()
        &&& self.state.live_risk_events@.len() <= MAX_LIVE_RISK_EVENTS
    }

    /// No more risk events are shown than there is room for.
    pub proof fn law_shown_is_bounded(&self)
        requires
            self.well_formed(),
        ensures
            self@.state.live_risk_events@.len() <= MAX_LIVE_RISK_EVENTS,
    {
    }

    /// Whatever the controller makes of an answer, the repository has given it.
    pub proof fn law_answers_are_the_repositorys(&self, i: int)
        requires
            self.well_formed(),
            0 <= i < self@.calls.len(),
        ensures
            journal::answered_by(self@.repository, self@.calls[i]),
    {
        assert(journal::answered_by(self.journal.repository(), self.journal.calls()[i]));
    }

    /// Starts: sessions that were interrupted are recovered, settings and sessions are read.
    pub fn start(repository: R, now: u64) -> (controller: RecordingController<R>)
        ensures
            controller.well_formed(),
            controller@.repository == repository,
            controller@.active == recording::no_session(),
            controller@.live == (LiveView {
                evaluator: RiskView {
                    policy: settings::policy_of(controller@.state.settings),
                    initialized: false,
                    processes: Set::empty(),
                    endpoints: Set::empty(),
                    states: Map::empty(),
                },
                retained: Seq::empty(),
                last_event_id: 0,
            }),
            exists|
                answer: Result<usize, String>,
                blank: SessionUiState,
                value: V2Settings,
                read: Seq<RepositoryCall>,
            |
                {
                    &&& #[trigger] nothing_shown(blank)
                    &&& #[trigger] loads(
                        seq![RepositoryCall::Recover { timestamp: now, answer }],
                        value,
                        read,
                    )
                    &&& refreshes(
                        Scene {
                            shown: SessionUiState { settings: value, ..recovered(blank, answer) },
                            active: recording::no_session(),
                            calls: read,
                        },
                        controller@.scene(),
                    )
                },
    {
        let mut journal = Journal::new(repository);
        let mut state = SessionUiState::default();
        let ghost blank = state;
        let answer = journal.recover_interrupted(now);
        let ghost given = answer;
        assert(journal.calls() =~= seq![RepositoryCall::Recover { timestamp: now, answer: given }]);
        match answer {
            Ok(count) => {
                state.recovered_sessions = count;
            },
            Err(error) => {
                state.last_error = Some(error);
            },
        }
        assert(state == recovered(blank, given));
        state.settings = load_settings(&mut journal);
        let ghost value = state.settings;
        let ghost read = journal.calls();
        assert(loads(
            seq![RepositoryCall::Recover { timestamp: now, answer: given }],
            value,
            read,
        ));
        let active = ActiveSession::new();
        refresh(&mut journal, &mut state, &active);
        let live = LiveRuntime::new(&state.settings);
        RecordingController { journal, state, active, live }
    }

    /// What the user is shown.
    pub fn state(&self) -> (state: &SessionUiState)
        ensures
            *state == self@.state,
    {
        &self.state
    }

    /// Starts a session.
    pub fn start_recording(&mut self, name: &str, notes: &str, timestamp: u64)
        requires
            old(self).well_formed(),
        ensures
            final(self).well_formed(),
            final(self)@.repository == old(self)@.repository,
            final(self)@.live == old(self)@.live,
            exists|acted: Scene, result: Result<(), String>|
                {
                    &&& #[trigger] starts(
                        old(self)@.scene(),
                        name@,
                        notes@,
                        timestamp,
                        acted,
                        result,
                    )
                    &&& final(self)@.scene() == noting(acted, result)
                },
    {
        let result = start_recording(
            &mut self.journal,
            &mut self.state,
            &mut self.active,
            name,
            notes,
            timestamp,
        );
        let ghost acted = self@.scene();
        assert(starts(old(self)@.scene(), name@, notes@, timestamp, acted, result));
        note_error(&mut self.state, result);
        assert(self@.scene() == noting(acted, result));
    }

    /// Stops the session that is recorded.
    pub fn stop_recording(&mut self, timestamp: u64)
        requires
            old(self).well_formed(),
        ensures
            final(self).well_formed(),
            final(self)@.repository == old(self)@.repository,
            final(self)@.live == old(self)@.live,
            final(self)@.active.id is None,
            exists|acted: Scene, result: Result<(), String>|
                {
                    &&& #[trigger] stops(old(self)@.scene(), timestamp, acted, result)
                    &&& final(self)@.scene() == noting(acted, result)
                },
    {
        let result = stop_recording(
            &mut self.journal,
            &mut self.state,
            &mut self.active,
            timestamp,
        );
        let ghost acted = self@.scene();
        assert(stops(old(self)@.scene(), timestamp, acted, result));
        note_error(&mut self.state, result);
        assert(self@.scene() == noting(acted, result));
    }

    /// Shows the details of a session.
    pub fn select(&mut self, id: SessionId)
        requires
            old(self).well_formed(),
        ensures
            final(self).well_formed(),
            final(self)@.repository == old(self)@.repository,
            final(self)@.live == old(self)@.live,
            exists|answer: Result<Option<SessionDetail>, String>|
                {
                    let next = #[trigger] asked(
                        old(self)@.scene(),
                        RepositoryCall::Detail { id, answer },
                    );
                    final(self)@.scene() == (match answer {
                        Ok(detail) => Scene {
                            shown: SessionUiState { selected: detail, ..next.shown },
                            ..next
                        },
                        Err(error) => noting(next, Err(error)),
                    })
                },
    {
        let answer = self.journal.detail(id);
        let ghost next = asked(old(self)@.scene(), RepositoryCall::Detail { id, answer });
        assert(self@.scene() == next);
        match answer {
            Ok(detail) => {
                self.state.selected = detail;
            },
            Err(error) => {
                self.state.last_error = Some(error);
            },
        }
    }

    /// Shows the details of two sessions side by side.
    pub fn compare(&mut self, left: SessionId, right: SessionId)
        requires
            old(self).well_formed(),
        ensures
            final(self).well_formed(),
            final(self)@.repository == old(self)@.repository,
            final(self)@.live == old(self)@.live,
            compares(old(self)@.scene(), left, right, final(self)@.scene()),
    {
        let first = self.journal.detail(left);
        let ghost next = asked(
            old(self)@.scene(),
            RepositoryCall::Detail { id: left, answer: first },
        );
        assert(self@.scene() == next);
        match first {
            Ok(compare_left) => {
                let second = self.journal.detail(right);
                let ghost both = asked(next, RepositoryCall::Detail { id: right, answer: second });
                assert(self@.scene() == both);
                match second {
                    Ok(compare_right) => {
                        self.state.compare_left = compare_left;
                        self.state.compare_right = compare_right;
                    },
                    Err(error) => {
                        self.state.last_error = Some(error);
                    },
                }
            },
            Err(error) => {
                self.state.last_error = Some(error);
            },
        }
    }

    /// Deletes a session.
    pub fn delete_session(&mut self, id: SessionId)
        requires
            old(self).well_formed(),
        ensures
            final(self).well_formed(),
            final(self)@.repository == old(self)@.repository,
            final(self)@.live == old(self)@.live,
            exists|acted: Scene, result: Result<(), String>|
                {
                    &&& #[trigger] deletes(old(self)@.scene(), id, acted, result)
                    &&& final(self)@.scene() == noting(acted, result)
                },
    {
        let result = delete_session(&mut self.journal, &mut self.state, &self.active, id);
        let ghost acted = self@.scene();
        assert(deletes(old(self)@.scene(), id, acted, result));
        note_error(&mut self.state, result);
        assert(self@.scene() == noting(acted, result));
    }

    /// Asks the repository for its sessions and shows them.
    pub fn refresh(&mut self)
        requires
            old(self).well_formed(),
        ensures
            final(self).well_formed(),
            final(self)@.repository == old(self)@.repository,
            final(self)@.live == old(self)@.live,
            refreshes(old(self)@.scene(), final(self)@.scene()),
    {
        refresh(&mut self.journal, &mut self.state, &self.active);
        assert(refreshes(old(self)@.scene(), self@.scene()));
    }

    /// Stores settings and puts them in force.
    pub fn save_settings(&mut self, value: V2Settings)
        requires
            old(self).well_formed(),
        ensures
            final(self).well_formed(),
            final(self)@.repository == old(self)@.repository,
            final(self)@.live == old(self)@.live,
            exists|acted: Scene, result: Result<(), String>|
                {
                    &&& #[trigger] saves(old(self)@.scene(), value, acted, result)
                    &&& final(self)@.scene() == noting(acted, result)
                },
    {
        let result = save_settings(
            &mut self.journal,
            &mut self.state,
            value,
            Ghost(self.active@),
        );
        let ghost acted = self@.scene();
        assert(saves(old(self)@.scene(), value, acted, result));
        note_error(&mut self.state, result);
        assert(self@.scene() == noting(acted, result));
    }

    /// Deletes the sessions that have outlived their retention. A retention of more days than
    /// sixty-four bits of nanoseconds hold has no cutoff.
    pub fn apply_retention(&mut self, now: u64)
        requires
            old(self).well_formed(),
            old(self)@.state.settings.retention_days * 86_400_000_000_000 <= u64::MAX,
        ensures
            final(self).well_formed(),
            final(self)@.repository == old(self)@.repository,
            final(self)@.live == old(self)@.live,
            exists|acted: Scene, result: Result<(), String>|
                {
                    &&& #[trigger] retains(old(self)@.scene(), now, acted, result)
                    &&& final(self)@.scene() == noting(acted, result)
                },
    {
        let cutoff: u64 = cutoff_for(self.state.settings.retention_days, now);
        let answer = self.journal.delete_sessions_ended_before(cutoff);
        let ghost next = asked(
            old(self)@.scene(),
            RepositoryCall::DeleteEnded { cutoff, answer },
        );
        assert(self@.scene() == next);
        let result = match answer {
            Ok(_) => {
                refresh(&mut self.journal, &mut self.state, &self.active);
                Ok(())
            },
            Err(error) => Err(error),
        };
        let ghost acted = self@.scene();
        assert(retains(old(self)@.scene(), now, acted, result));
        note_error(&mut self.state, result);
        assert(self@.scene() == noting(acted, result));
    }

    /// Exports a session.
    pub fn export_session(&mut self, id: SessionId, format: ExportFormat, path: &str)
        requires
            old(self).well_formed(),
        ensures
            final(self).well_formed(),
            final(self)@.repository == old(self)@.repository,
            final(self)@.live == old(self)@.live,
            exists|answer: Result<(), String>|
                final(self)@.scene() == noting(
                    #[trigger] asked(
                        old(self)@.scene(),
                        RepositoryCall::Export { id, format, path: path@, answer },
                    ),
                    answer,
                ),
    {
        let answer = self.journal.export_session(id, format, path);
        let ghost next = asked(
            old(self)@.scene(),
            RepositoryCall::Export { id, format, path: path@, answer },
        );
        assert(self@.scene() == next);
        note_error(&mut self.state, answer);
        assert(self@.scene() == noting(next, answer));
    }

    /// Takes in a snapshot: looks for risks, shows them, and stores it where a session is recorded.
    pub fn try_record(&mut self, snapshot: ApplicationSnapshot)
        requires
            old(self).well_formed(),
        ensures
            final(self).well_formed(),
            final(self)@.repository == old(self)@.repository,
            exists|
                signals: Vec<RiskSignal>,
                events: Vec<LiveRiskEvent>,
                shown: SessionUiState,
                acted: Scene,
                result: Result<(), String>,
            | #[trigger]
                takes_in(old(self)@, snapshot, signals, events, shown, acted, result, final(self)@),
    {
        let timestamp: u64 = snapshot.network_rate.sampled_at_unix_nanos;
        let (signals, events) = self.live.observe(&self.state.settings, snapshot);
        recording::show_events(&mut self.state.live_risk_events, events.as_slice());
        let ghost shown = self.state;
        let ghost before = self@.scene();
        let result = follow_up(
            &mut self.journal,
            &mut self.state,
            &mut self.active,
            &self.live.retained,
            &signals,
            events.as_slice(),
            timestamp,
        );
        let ghost acted = self@.scene();
        proof {
            assert(before == (Scene { shown, ..old(self)@.scene() }));
            lemma_follows_keeps_events(
                before,
                self.live@.retained,
                signals@,
                events@,
                timestamp,
                acted,
                result,
            );
        }
        note_error(&mut self.state, result);
        assert(self@.scene() == noting(acted, result));
        assert(takes_in(old(self)@, snapshot, signals, events, shown, acted, result, self@));
    }

    /// Counts a snapshot that found no room in the queue to the controller.
    pub fn count_dropped(&mut self)
        requires
            old(self).well_formed(),
        ensures
            final(self).well_formed(),
            final(self)@ == (ControllerView {
                state: SessionUiState {
                    persistence_queue_dropped: model::saturated(
                        old(self)@.state.persistence_queue_dropped + 1,
                    ),
                    ..old(self)@.state
                },
                ..old(self)@
            }),
    {
        self.state.persistence_queue_dropped = self.state.persistence_queue_dropped.saturating_add(
            1,
        );
    }
}

/// How the details of two sessions come to be shown side by side: the repository is asked for the
/// one and, where it answers, for the other.
pub open spec fn compares(before: Scene, left: SessionId, right: SessionId, after: Scene) -> bool {
    exists|first: Result<Option<SessionDetail>, String>|
        {
            let next = #[trigger] asked(before, RepositoryCall::Detail { id: left, answer: first });
            match first {
                Err(error) => after == noting(next, Err(error)),
                Ok(compare_left) => exists|second: Result<Option<SessionDetail>, String>|
                    {
                        let both = #[trigger] asked(
                            next,
                            RepositoryCall::Detail { id: right, answer: second },
                        );
                        after == (match second {
                            Ok(compare_right) => Scene {
                                shown: SessionUiState { compare_left, compare_right, ..both.shown },
                                ..both
                            },
                            Err(error) => noting(both, Err(error)),
                        })
                    },
            }
        }
}

/// What is shown once the repository has answered how many sessions it has recovered.
pub open spec fn recovered(state: SessionUiState, answer: Result<usize, String>) -> SessionUiState {
    match answer {
        Ok(count) => SessionUiState { recovered_sessions: count, ..state },
        Err(error) => SessionUiState { last_error: Some(error), ..state },
    }
}

/// Acting on a snapshot changes nothing of the events that are shown.
proof fn lemma_follows_keeps_events(
    before: Scene,
    retained: Seq<ApplicationSnapshot>,
    signals: Seq<RiskSignal>,
    events: Seq<LiveRiskEvent>,
    timestamp: u64,
    after: Scene,
    result: Result<(), String>,
)
    requires
        follows(before, retained, signals, events, timestamp, after, result),
    ensures
        after.shown.live_risk_events == before.shown.live_risk_events,
{
    if before.active.id is None && any_high(signals) {
        let (begun, answer) = choose|begun: Scene, answer: Result<(), String>| #[trigger]
            starts_at_risk(
                before,
                retained,
                first_high(signals),
                events,
                timestamp,
                begun,
                answer,
                after,
                result,
            );
        assert(begun.shown.live_risk_events == before.shown.live_risk_events);
        if answer is Ok {
            let from = marked(begun, retained, timestamp);
            let trace = choose|trace: Seq<Scene>|
                #[trigger] records_run(trace, retained, events) && trace[0] == from && ends_with(
                    trace,
                    retained,
                    events,
                    after,
                    result,
                );
            lemma_run_keeps_events(trace, retained, events, trace.len() - 1);
        }
    }
}

/// Storing snapshots changes nothing of the events that are shown.
proof fn lemma_run_keeps_events(
    trace: Seq<Scene>,
    retained: Seq<ApplicationSnapshot>,
    events: Seq<LiveRiskEvent>,
    n: int,
)
    requires
        records_run(trace, retained, events),
        0 <= n < trace.len(),
    ensures
        trace[n].shown.live_risk_events == trace[0].shown.live_risk_events,
    decreases n,
{
    if n > 0 {
        lemma_run_keeps_events(trace, retained, events, n - 1);
        let i = n - 1;
        assert(records_at(trace[i], retained, i, events, trace[i + 1], Ok(())));
    }
}

/// Deleting a session leaves no detail of it shown, and touches nothing of others.
pub proof fn law_deleted_session_is_shown_no_longer(state: SessionUiState, id: SessionId)
    ensures
        ({
            let after = without_session(state, id);
            &&& after.selected matches Some(detail) ==> detail.session.id != id
            &&& after.compare_left matches Some(detail) ==> detail.session.id != id
            &&& after.compare_right matches Some(detail) ==> detail.session.id != id
            &&& after.sessions == state.sessions
            &&& after.settings == state.settings
            &&& after.active == state.active
        }),
{
}

/// The repository is not asked to delete the session that is recorded, nor anything else then.
pub proof fn law_recorded_session_is_not_deleted(
    before: Scene,
    id: SessionId,
    after: Scene,
    result: Result<(), String>,
)
    requires
        before.active.id == Some(id),
        deletes(before, id, after, result),
    ensures
        result is Err,
        after == before,
{
}

/// The batches that were handed to the repository, in their order.
pub open spec fn batches_in(calls: Seq<RepositoryCall>) -> Seq<BatchView>
    decreases calls.len(),
{
    if calls.len() == 0 {
        Seq::empty()
    } else {
        match calls.last() {
            RepositoryCall::Append { batch, .. } => batches_in(calls.drop_last()).push(batch),
            _ => batches_in(calls.drop_last()),
        }
    }
}

/// The sessions that the repository was asked to start, in their order: name, notes and time.
pub open spec fn starts_in(calls: Seq<RepositoryCall>) -> Seq<(Seq<char>, Seq<char>, u64)>
    decreases calls.len(),
{
    if calls.len() == 0 {
        Seq::empty()
    } else {
        match calls.last() {
            RepositoryCall::Start { name, notes, timestamp, .. } => starts_in(
                calls.drop_last(),
            ).push((name, notes, timestamp)),
            _ => starts_in(calls.drop_last()),
        }
    }
}

proof fn lemma_one_more_call(before: Scene, call: RepositoryCall)
    ensures
        batches_in(asked(before, call).calls) == (match call {
            RepositoryCall::Append { batch, .. } => batches_in(before.calls).push(batch),
            _ => batches_in(before.calls),
        }),
        starts_in(asked(before, call).calls) == (match call {
            RepositoryCall::Start { name, notes, timestamp, .. } => starts_in(before.calls).push(
                (name, notes, timestamp),
            ),
            _ => starts_in(before.calls),
        }),
{
    assert(before.calls.push(call).drop_last() =~= before.calls);
}

proof fn lemma_refreshing_stores_nothing(before: Scene, after: Scene)
    requires
        refreshes(before, after),
    ensures
        batches_in(after.calls) == batches_in(before.calls),
        starts_in(after.calls) == starts_in(before.calls),
        after.active == before.active,
{
    let answer = choose|answer: Result<Vec<SessionRecord>, String>|
        after == (Scene {
            shown: relisted(before.shown, before.active.id, answer),
            ..#[trigger] asked(before, RepositoryCall::List { limit: 500, answer })
        });
    lemma_one_more_call(before, RepositoryCall::List { limit: 500, answer });
}

/// The session once a snapshot has been looked at.
pub open spec fn active_with(
    active: ActiveView,
    snapshot: ApplicationSnapshot,
    events: Seq<LiveRiskEvent>,
) -> ActiveView {
    if active.takes(snapshot) {
        active.with_snapshot(snapshot, events)
    } else {
        active
    }
}

/// A snapshot that the session takes is handed to the repository in one batch, once; one that it
/// does not take is not handed over. No session is started.
pub proof fn law_snapshot_is_handed_over_once(
    before: Scene,
    snapshot: ApplicationSnapshot,
    events: Seq<LiveRiskEvent>,
    refresh_after: bool,
    after: Scene,
    result: Result<(), String>,
)
    requires
        records(before, snapshot, events, refresh_after, after, result),
    ensures
        batches_in(after.calls) == if before.active.takes(snapshot) {
            batches_in(before.calls).push(before.active.batch(snapshot, events))
        } else {
            batches_in(before.calls)
        },
        starts_in(after.calls) == starts_in(before.calls),
        after.active == active_with(before.active, snapshot, events),
{
    if before.active.takes(snapshot) {
        let batch = before.active.batch(snapshot, events);
        let active = before.active.with_snapshot(snapshot, events);
        let answer = choose|answer: Result<(), String>|
            {
                let next = #[trigger] asked(before, RepositoryCall::Append { batch, answer });
                let stored = Scene { active, ..next };
                match answer {
                    Ok(_) => result is Ok && (if refresh_after {
                        refreshes(stored, after)
                    } else {
                        after == stored
                    }),
                    Err(error) => after == stored && result == Err::<(), String>(error),
                }
            };
        let call = RepositoryCall::Append { batch, answer };
        lemma_one_more_call(before, call);
        if answer is Ok && refresh_after {
            lemma_refreshing_stores_nothing(Scene { active, ..asked(before, call) }, after);
        }
    }
}

/// The session once the first of the snapshots that are kept have been looked at.
pub open spec fn active_through(
    active: ActiveView,
    retained: Seq<ApplicationSnapshot>,
    events: Seq<LiveRiskEvent>,
    n: int,
) -> ActiveView
    decreases n,
{
    if n <= 0 {
        active
    } else {
        active_with(
            active_through(active, retained, events, n - 1),
            retained[n - 1],
            events_at(retained, n - 1, events),
        )
    }
}

/// The batches of the first of the snapshots that are kept.
pub open spec fn batches_of(
    active: ActiveView,
    retained: Seq<ApplicationSnapshot>,
    events: Seq<LiveRiskEvent>,
    n: int,
) -> Seq<BatchView>
    decreases n,
{
    if n <= 0 {
        Seq::empty()
    } else {
        let now = active_through(active, retained, events, n - 1);
        let earlier = batches_of(active, retained, events, n - 1);
        if now.takes(retained[n - 1]) {
            earlier.push(now.batch(retained[n - 1], events_at(retained, n - 1, events)))
        } else {
            earlier
        }
    }
}

proof fn lemma_run_hands_over(
    trace: Seq<Scene>,
    retained: Seq<ApplicationSnapshot>,
    events: Seq<LiveRiskEvent>,
    n: int,
)
    requires
        records_run(trace, retained, events),
        0 <= n < trace.len(),
    ensures
        batches_in(trace[n].calls) == batches_in(trace[0].calls) + batches_of(
            trace[0].active,
            retained,
            events,
            n,
        ),
        starts_in(trace[n].calls) == starts_in(trace[0].calls),
        trace[n].active == active_through(trace[0].active, retained, events, n),
    decreases n,
{
    if n > 0 {
        lemma_run_hands_over(trace, retained, events, n - 1);
        let i = n - 1;
        assert(records_at(trace[i], retained, i, events, trace[i + 1], Ok(())));
        law_snapshot_is_handed_over_once(
            trace[i],
            retained[i],
            events_at(retained, i, events),
            i == retained.len() - 1,
            trace[i + 1],
            Ok(()),
        );
        assert(batches_in(trace[n].calls) =~= batches_in(trace[0].calls) + batches_of(
            trace[0].active,
            retained,
            events,
            n,
        ));
    } else {
        assert(batches_in(trace[0].calls) + Seq::<BatchView>::empty() =~= batches_in(
            trace[0].calls,
        ));
    }
}

/// The snapshots that are kept are handed to the repository in their order, the oldest first, each
/// that the session takes once. The events go with the newest.
pub proof fn law_kept_snapshots_are_handed_over_in_order(
    before: Scene,
    retained: Seq<ApplicationSnapshot>,
    events: Seq<LiveRiskEvent>,
    after: Scene,
    result: Result<(), String>,
)
    requires
        records_all(before, retained, events, after, result),
        result is Ok,
    ensures
        batches_in(after.calls) == batches_in(before.calls) + batches_of(
            before.active,
            retained,
            events,
            retained.len() as int,
        ),
        starts_in(after.calls) == starts_in(before.calls),
        after.active == active_through(before.active, retained, events, retained.len() as int),
{
    let trace = choose|trace: Seq<Scene>|
        #[trigger] records_run(trace, retained, events) && trace[0] == before && ends_with(
            trace,
            retained,
            events,
            after,
            result,
        );
    lemma_run_hands_over(trace, retained, events, retained.len() as int);
}

/// The session of an identity that a risk has started, before the snapshots that are kept are
/// stored.
pub open spec fn risk_session(
    active: ActiveView,
    id: SessionId,
    retained: Seq<ApplicationSnapshot>,
    timestamp: u64,
) -> ActiveView {
    ActiveView {
        automatic: true,
        automatic_stop_at: Some(model::saturated(timestamp + AUTOMATIC_AFTER_NANOS)),
        last_events: retained[0].events_processed,
        ..active.started(id, retained[0].network_rate.sampled_at_unix_nanos)
    }
}

/// A high risk while nothing is recorded starts one session, at the time of the oldest snapshot
/// that is kept, and hands each of these over once, the oldest first.
pub proof fn law_risk_starts_one_session(
    before: Scene,
    retained: Seq<ApplicationSnapshot>,
    signals: Seq<RiskSignal>,
    events: Seq<LiveRiskEvent>,
    timestamp: u64,
    after: Scene,
    result: Result<(), String>,
)
    requires
        before.active.id is None,
        any_high(signals),
        follows(before, retained, signals, events, timestamp, after, result),
        result is Ok,
    ensures
        ({
            let start = retained[0].network_rate.sampled_at_unix_nanos;
            let n = retained.len() as int;
            &&& starts_in(after.calls) == starts_in(before.calls).push(
                (
                    session_title(automatic_name(first_high(signals)), start),
                    text::trimmed(automatic_notes(first_high(signals))),
                    start,
                ),
            )
            &&& exists|id: SessionId|
                {
                    let active = #[trigger] risk_session(before.active, id, retained, timestamp);
                    &&& batches_in(after.calls) == batches_in(before.calls) + batches_of(
                        active,
                        retained,
                        events,
                        n,
                    )
                    &&& after.active == active_through(active, retained, events, n)
                }
        }),
{
    let start = retained[0].network_rate.sampled_at_unix_nanos;
    let name = automatic_name(first_high(signals));
    let notes = automatic_notes(first_high(signals));
    let (begun, answer) = choose|begun: Scene, answer: Result<(), String>| #[trigger]
        starts_at_risk(
            before,
            retained,
            first_high(signals),
            events,
            timestamp,
            begun,
            answer,
            after,
            result,
        );
    assert(starts(before, name, notes, start, begun, answer));
    let given = choose|given: Result<SessionId, String>|
        {
            let next = #[trigger] asked(before, start_call(name, notes, start, given));
            match given {
                Ok(id) => {
                    &&& answer is Ok
                    &&& refreshes(Scene { active: before.active.started(id, start), ..next }, begun)
                },
                Err(error) => begun == next && answer == Err::<(), String>(error),
            }
        };
    let call = start_call(name, notes, start, given);
    lemma_one_more_call(before, call);
    let id = given->Ok_0;
    lemma_refreshing_stores_nothing(
        Scene { active: before.active.started(id, start), ..asked(before, call) },
        begun,
    );
    law_kept_snapshots_are_handed_over_in_order(
        marked(begun, retained, timestamp),
        retained,
        events,
        after,
        result,
    );
    assert(marked(begun, retained, timestamp).active == risk_session(
        before.active,
        id,
        retained,
        timestamp,
    ));
}

/// A recording that a risk started goes on for a minute after the last high risk, and no longer;
/// one that was started by hand goes on until it is stopped.
pub proof fn law_automatic_recording_ends_in_time(
    active: ActiveView,
    last_high: u64,
    timestamp: u64,
)
    ensures
        active.automatic ==> (recording::over(prolonged(active, true, last_high), timestamp)
            <==> timestamp >= model::saturated(last_high + AUTOMATIC_AFTER_NANOS)),
        active.automatic ==> prolonged(prolonged(active, true, last_high), false, timestamp)
            == prolonged(active, true, last_high),
        !active.automatic ==> !recording::over(prolonged(active, true, last_high), timestamp),
{
}

/// Sessions are kept for days of 86400 seconds: those that ended longer ago are too old, and none is
/// where the time has not come that far.
pub proof fn law_days_of_retention(days: u32, timestamp: u64)
    ensures
        days * 86_400 * 1_000_000_000 <= timestamp ==> retention_cutoff(days, timestamp) + days
            * 86_400 * 1_000_000_000 == timestamp,
        days * 86_400 * 1_000_000_000 > timestamp ==> retention_cutoff(days, timestamp) == 0,
{
}

/// A session without a name is called after the second in which it starts; any other has its name
/// without the space around it.
pub proof fn law_titles_of_sessions(name: Seq<char>, timestamp: u64)
    ensures
        text::trimmed(name).len() == 0 ==> session_title(name, timestamp) == "Session "@
            + text::decimal(timestamp as nat / 1_000_000_000),
        text::trimmed(name).len() > 0 ==> session_title(name, timestamp) == text::trimmed(name),
{
}

/// A snapshot is kept for two minutes: the oldest that is kept is no older, and a newest one stays.
pub proof fn law_snapshots_are_kept_two_minutes(
    retained: Seq<ApplicationSnapshot>,
    timestamp: u64,
)
    ensures
        ({
            let kept = kept_at(retained, timestamp);
            &&& kept.len() <= retained.len()
            &&& kept == retained.skip(retained.len() - kept.len())
            &&& kept.len() > 0 ==> timestamp - kept[0].network_rate.sampled_at_unix_nanos <= 120
                * 1_000_000_000
            &&& kept.len() < retained.len() ==> timestamp - retained[retained.len() - kept.len()
                - 1].network_rate.sampled_at_unix_nanos > 120 * 1_000_000_000
        }),
    decreases retained.len(),
{
    if retained.len() > 0 && timestamp - retained[0].network_rate.sampled_at_unix_nanos
        > RISK_HISTORY_NANOS {
        law_snapshots_are_kept_two_minutes(retained.drop_first(), timestamp);
        let kept = kept_at(retained, timestamp);
        assert(kept =~= retained.skip(retained.len() - kept.len()));
    } else {
        assert(retained.skip(0) =~= retained);
    }
}

/// A recording that risk started goes on for a time behind each high risk, the same for all; no
/// other is prolonged.
pub proof fn law_high_risk_prolongs(active: ActiveView, timestamp: u64)
    requires
        timestamp + AUTOMATIC_AFTER_NANOS <= u64::MAX,
    ensures
        active.automatic ==> prolonged(active, true, timestamp).automatic_stop_at == Some(
            (timestamp + AUTOMATIC_AFTER_NANOS) as u64,
        ),
        !active.automatic ==> prolonged(active, true, timestamp) == active,
        prolonged(active, false, timestamp) == active,
        AUTOMATIC_AFTER_NANOS == 60 * 1_000_000_000,
{
}

} // verus!
