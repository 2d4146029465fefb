//! The evaluation of risk: what processes do on the network, scored and explained.
use crate::model;
use crate::ordered;
use crate::ordered::{OrderedKey, SortedMap};
use crate::text;
use vstd::prelude::*;

verus! {

/// Severity of a risk signal.
#[derive(Debug, Clone, Copy, PartialEq, Eq, PartialOrd, Ord, Structural)]
pub enum RiskLevel {
    Information,
    Attention,
    High,
}

/// The place of a level among the levels.
pub open spec fn severity(level: RiskLevel) -> int {
    match level {
        RiskLevel::Information => 0,
        RiskLevel::Attention => 1,
        RiskLevel::High => 2,
    }
}

/// What was seen of one process.
#[derive(Debug, Clone, PartialEq, Eq)]
pub struct ProcessRiskObservation {
    pub identity: String,
    pub name: String,
    pub send_bytes_per_second: u64,
    pub receive_bytes_per_second: u64,
    pub remote_addresses: Vec<String>,
}

/// What was seen of all processes at one time.
#[derive(Debug, Clone, PartialEq, Eq)]
pub struct RiskObservation {
    pub timestamp_unix_nanos: u64,
    pub processes: Vec<ProcessRiskObservation>,
}

/// What counts as risky.
#[derive(Debug, Clone, Copy, PartialEq, Eq, Structural)]
pub struct RiskPolicy {
    pub upload_threshold: u64,
    pub download_threshold: u64,
    pub spike_multiplier: u32,
    pub new_process: bool,
    pub new_endpoint: bool,
}

/// A scored event in words. It says nothing about malware.
#[derive(Debug, PartialEq, Eq)]
pub struct RiskSignal {
    pub level: RiskLevel,
    pub score: u32,
    pub title: String,
    pub detail: String,
    pub process_name: String,
    pub remote_address: Option<String>,
}

/// A process observation as a value.
pub struct Sighting {
    pub identity: Seq<char>,
    pub name: Seq<char>,
    pub sending: u64,
    pub receiving: u64,
    pub remotes: Seq<Seq<char>>,
}

impl View for ProcessRiskObservation {
    type V = Sighting;

    open spec fn view(&self) -> Sighting {
        Sighting {
            identity: self.identity@,
            name: self.name@,
            sending: self.send_bytes_per_second,
            receiving: self.receive_bytes_per_second,
            remotes: text::texts(self.remote_addresses@),
        }
    }
}

/// A signal as a value.
#[verifier::ext_equal]
pub struct SignalView {
    pub level: RiskLevel,
    pub score: u32,
    pub title: Seq<char>,
    pub detail: Seq<char>,
    pub process_name: Seq<char>,
    pub remote_address: Option<Seq<char>>,
}

impl View for RiskSignal {
    type V = SignalView;

    open spec fn view(&self) -> SignalView {
        SignalView {
            level: self.level,
            score: self.score,
            title: self.title@,
            detail: self.detail@,
            process_name: self.process_name@,
            remote_address: text::optional(self.remote_address),
        }
    }
}

impl Clone for RiskSignal {
    fn clone(&self) -> (copy: Self)
        ensures
            copy == *self,
    {
        RiskSignal {
            level: self.level,
            score: self.score,
            title: self.title.clone(),
            detail: self.detail.clone(),
            process_name: self.process_name.clone(),
            remote_address: text::copy_optional(&self.remote_address),
        }
    }
}

/// What is remembered of a process between evaluations.
#[verifier::ext_equal]
pub struct RiskState {
    pub baseline: u64,
    pub samples: u32,
    pub uploads: u32,
    pub downloads: u32,
    pub last_level: Option<RiskLevel>,
    pub last_emitted: u64,
    pub process_until: u64,
    pub endpoint_until: u64,
    pub last_remote: Option<Seq<char>>,
}

pub const HIGH_SCORE: u32 = 60;

pub const ATTENTION_SCORE: u32 = 30;

pub const MINIMUM_SPIKE_RATE: u64 = 1_048_576;

pub const MINIMUM_BASELINE_RATE: u64 = 65_536;

pub const REQUIRED_SUSTAINED_SAMPLES: u32 = 3;

pub const COOLDOWN_NANOS: u64 = 120_000_000_000;

pub const NOVELTY_WINDOW_NANOS: u64 = 30_000_000_000;

/// The state of a process that has not been seen.
pub open spec fn unseen() -> RiskState {
    RiskState {
        baseline: 0,
        samples: 0,
        uploads: 0,
        downloads: 0,
        last_level: None,
        last_emitted: 0,
        process_until: 0,
        endpoint_until: 0,
        last_remote: None,
    }
}

/// What an evaluation of one process starts from, besides its state.
pub struct Circumstances {
    pub timestamp: u64,
    pub policy: RiskPolicy,
    /// Whether the process is new.
    pub new_process: bool,
    /// The remote addresses that are new for the process.
    pub new_remotes: Set<Seq<char>>,
}

/// The first of a set of texts.
pub open spec fn first_text(set: Set<Seq<char>>) -> Seq<char> {
    choose|t: Seq<char>|
        set.contains(t) && forall|other: Seq<char>| #[trigger]
            set.contains(other) ==> other == t || text::text_before(t, other)
}

/// How often a threshold has been reached without a break.
pub open spec fn sustained(count: u32, rate: u64, threshold: u64) -> u32 {
    if rate >= threshold {
        if count == u32::MAX {
            count
        } else {
            (count + 1) as u32
        }
    } else {
        0
    }
}

/// How often the baseline a spike must reach.
pub open spec fn multiplier(policy: RiskPolicy) -> u32 {
    if policy.spike_multiplier < 2 {
        2
    } else {
        policy.spike_multiplier
    }
}

impl RiskState {
    /// The state once what is new and what is sustained has been noted.
    pub open spec fn noted(self, now: Circumstances, seen: Sighting) -> RiskState {
        let until = model::saturated(now.timestamp + NOVELTY_WINDOW_NANOS);
        let novel = now.policy.new_endpoint && now.new_remotes.len() > 0;
        RiskState {
            uploads: sustained(self.uploads, seen.sending, now.policy.upload_threshold),
            downloads: sustained(self.downloads, seen.receiving, now.policy.download_threshold),
            process_until: if now.policy.new_process && now.new_process {
                until
            } else {
                self.process_until
            },
            endpoint_until: if novel {
                until
            } else {
                self.endpoint_until
            },
            last_remote: if novel {
                Some(first_text(now.new_remotes))
            } else {
                self.last_remote
            },
            ..self
        }
    }

    /// Whether the rate reaches a multiple of the baseline, both being worth the mention.
    pub open spec fn spikes(self, policy: RiskPolicy, seen: Sighting) -> bool {
        let total = model::saturated(seen.sending + seen.receiving);
        &&& self.samples > 0
        &&& self.baseline >= MINIMUM_BASELINE_RATE
        &&& total >= MINIMUM_SPIKE_RATE
        &&& total >= model::saturated(self.baseline * multiplier(policy))
    }

    /// The reasons that hold of a noted state, each with its score and its words.
    pub open spec fn reasons(self, now: Circumstances, seen: Sighting) -> Seq<(int, Seq<char>)> {
        reason(
            now.policy.new_process && now.timestamp <= self.process_until,
            10,
            "新进程开始联网"@,
        ) + reason(
            now.policy.new_endpoint && now.timestamp <= self.endpoint_until,
            10,
            "出现新远程端点"@,
        ) + reason(now.new_remotes.len() >= 10, 25, "短时间连接大量新端点"@) + reason(
            self.uploads >= REQUIRED_SUSTAINED_SAMPLES,
            40,
            "持续上传 "@ + text::decimal(seen.sending as nat) + " B/s"@,
        ) + reason(
            self.downloads >= REQUIRED_SUSTAINED_SAMPLES,
            25,
            "持续下载 "@ + text::decimal(seen.receiving as nat) + " B/s"@,
        ) + reason(
            self.spikes(now.policy, seen),
            20,
            "流量达到近期基线的 "@ + text::decimal(multiplier(now.policy) as nat) + " 倍以上"@,
        )
    }

    /// Whether a level is worth a signal: it is higher than the last one, or the last signal was
    /// long ago.
    pub open spec fn due(self, level: RiskLevel, timestamp: u64) -> bool {
        ||| self.last_level is None
        ||| severity(level) > severity(self.last_level->0)
        ||| timestamp - self.last_emitted >= COOLDOWN_NANOS
    }

    /// The signal that a noted state gives rise to.
    pub open spec fn signal(self, now: Circumstances, seen: Sighting) -> Option<SignalView> {
        let reasons = self.reasons(now, seen);
        match level_of(total_score(reasons)) {
            Some(level) if self.due(level, now.timestamp) => Some(
                SignalView {
                    level,
                    score: total_score(reasons) as u32,
                    title: title_of(level),
                    detail: text::joined(words(reasons), "；"@),
                    process_name: seen.name,
                    remote_address: self.last_remote,
                },
            ),
            _ => None,
        }
    }

    /// The state once a noted state has been signalled and the sample has entered the baseline.
    pub open spec fn settled(self, now: Circumstances, seen: Sighting) -> RiskState {
        let level = level_of(total_score(self.reasons(now, seen)));
        let total = model::saturated(seen.sending + seen.receiving);
        let emits = level is Some && self.due(level->0, now.timestamp);
        RiskState {
            last_level: if level is None || emits {
                level
            } else {
                self.last_level
            },
            last_emitted: if emits {
                now.timestamp
            } else {
                self.last_emitted
            },
            baseline: if self.samples == 0 {
                total
            } else {
                (model::saturated(model::saturated(self.baseline * 7) + total) / 8) as u64
            },
            samples: if self.samples == u32::MAX {
                self.samples
            } else {
                (self.samples + 1) as u32
            },
            ..self
        }
    }
}

/// A reason, where it holds.
pub open spec fn reason(holds: bool, score: int, words: Seq<char>) -> Seq<(int, Seq<char>)> {
    if holds {
        seq![(score, words)]
    } else {
        Seq::empty()
    }
}

/// The sum of the scores.
pub open spec fn total_score(reasons: Seq<(int, Seq<char>)>) -> int
    decreases reasons.len(),
{
    if reasons.len() == 0 {
        0
    } else {
        total_score(reasons.drop_last()) + reasons.last().0
    }
}

/// The words of the reasons.
pub open spec fn words(reasons: Seq<(int, Seq<char>)>) -> Seq<Seq<char>> {
    Seq::new(reasons.len(), |i: int| reasons[i].1)
}

/// The level of a score.
pub open spec fn level_of(score: int) -> Option<RiskLevel> {
    if score >= HIGH_SCORE {
        Some(RiskLevel::High)
    } else if score >= ATTENTION_SCORE {
        Some(RiskLevel::Attention)
    } else if score > 0 {
        Some(RiskLevel::Information)
    } else {
        None
    }
}

/// The title of a signal.
pub open spec fn title_of(level: RiskLevel) -> Seq<char> {
    match level {
        RiskLevel::Information => "网络活动信息"@,
        RiskLevel::Attention => "需要关注的网络活动"@,
        RiskLevel::High => "高风险网络活动"@,
    }
}

#[derive(Debug)]
struct ProcessRiskState {
    baseline_rate: u64,
    samples: u32,
    consecutive_upload: u32,
    consecutive_download: u32,
    last_level: Option<RiskLevel>,
    last_emitted_at: u64,
    new_process_until: u64,
    new_endpoint_until: u64,
    last_new_remote: Option<String>,
}

impl View for ProcessRiskState {
    type V = RiskState;

    closed spec fn view(&self) -> RiskState {
        RiskState {
            baseline: self.baseline_rate,
            samples: self.samples,
            uploads: self.consecutive_upload,
            downloads: self.consecutive_download,
            last_level: self.last_level,
            last_emitted: self.last_emitted_at,
            process_until: self.new_process_until,
            endpoint_until: self.new_endpoint_until,
            last_remote: text::optional(self.last_new_remote),
        }
    }
}

fn severity_of(level: RiskLevel) -> (n: u8)
    ensures
        n == severity(level),
{
    match level {
        RiskLevel::Information => 0,
        RiskLevel::Attention => 1,
        RiskLevel::High => 2,
    }
}

/// A list of reasons in the making.
struct Reasons {
    score: u32,
    words: Vec<String>,
    model: Ghost<Seq<(int, Seq<char>)>>,
}

impl Reasons {
    spec fn holds(&self) -> bool {
        &&& self.score == total_score(self.model@)
        &&& text::texts(self.words@) == words(self.model@)
    }

    fn add_if(&mut self, holds: bool, score: u32, said: String)
        requires
            old(self).holds(),
            old(self).score + score <= 1000,
        ensures
            final(self).holds(),
            final(self).model@ == old(self).model@ + reason(holds, score as int, said@),
            final(self).score <= old(self).score + score,
    {
        if holds {
            let ghost longer = self.model@.push((score as int, said@));
            proof {
                assert(longer.drop_last() =~= self.model@);
                assert(self.model@ + reason(true, score as int, said@) =~= longer);
                let parts = text::texts(self.words@);
                assert(parts.len() == self.words@.len());
                assert(text::texts(self.words@.push(said)) =~= parts.push(said@));
                assert(words(longer) =~= words(self.model@).push(said@));
            }
            self.score = self.score + score;
            self.words.push(said);
            self.model = Ghost(longer);
        } else {
            assert(self.model@ + reason(false, score as int, said@) =~= self.model@);
        }
    }
}

/// The first entry of a set of texts holds the first text.
proof fn lemma_first_text(listing: Seq<(String, ())>)
    requires
        ordered::increasing(listing),
        listing.len() > 0,
    ensures
        first_text(ordered::map_of(listing).dom()) == listing[0].0@,
{
    let set = ordered::map_of(listing).dom();
    let t = listing[0].0@;
    ordered::lemma_entry_in_map(listing, 0);
    assert forall|other: Seq<char>| #[trigger] set.contains(other) implies other == t
        || text::text_before(t, other) by {
        let i = choose|i: int| 0 <= i < listing.len() && (#[trigger] listing[i]).0@ == other;
        if i > 0 {
            assert(String::before(listing[0].0@, listing[i].0@));
        }
    }
    let chosen = first_text(set);
    if chosen != t {
        assert(set.contains(chosen));
        text::lemma_text_transitive(t, chosen, t);
        text::lemma_text_irreflexive(t);
    }
}

/// Notes what is new and what is sustained.
fn note(
    state: &mut ProcessRiskState,
    policy: RiskPolicy,
    timestamp: u64,
    process: &ProcessRiskObservation,
    new_process: bool,
    new_remotes: &SortedMap<String, ()>,
)
    requires
        new_remotes.well_formed(),
    ensures
        final(state)@ == old(state)@.noted(
            (Circumstances { timestamp, policy, new_process, new_remotes: new_remotes@.dom() }),
            process@,
        ),
{
    proof {
        ordered::lemma_listing_length(new_remotes.listing());
    }
    if policy.new_process && new_process {
        state.new_process_until = timestamp.saturating_add(NOVELTY_WINDOW_NANOS);
    }
    if policy.new_endpoint && new_remotes.len() > 0 {
        state.new_endpoint_until = timestamp.saturating_add(NOVELTY_WINDOW_NANOS);
        state.last_new_remote = Some(new_remotes.entries()[0].0.clone());
        proof {
            lemma_first_text(new_remotes.listing());
        }
    }
    state.consecutive_upload = if process.send_bytes_per_second >= policy.upload_threshold {
        state.consecutive_upload.saturating_add(1)
    } else {
        0
    };
    state.consecutive_download = if process.receive_bytes_per_second >= policy.download_threshold {
        state.consecutive_download.saturating_add(1)
    } else {
        0
    };
}

/// The reasons that hold.
fn explain(
    state: &ProcessRiskState,
    policy: RiskPolicy,
    timestamp: u64,
    process: &ProcessRiskObservation,
    Ghost(now): Ghost<Circumstances>,
    novel: usize,
) -> (reasons: Reasons)
    requires
        now.policy == policy,
        now.timestamp == timestamp,
        now.new_remotes.len() == novel,
    ensures
        reasons.holds(),
        reasons.model@ == state@.reasons(now, process@),
{
    let total_rate: u64 = process.send_bytes_per_second.saturating_add(
        process.receive_bytes_per_second,
    );
    let multiple: u32 = if policy.spike_multiplier < 2 {
        2
    } else {
        policy.spike_multiplier
    };
    let mut sending = "持续上传 ".to_owned();
    sending.append(text::decimal_text(process.send_bytes_per_second).as_str());
    sending.append(" B/s");
    let mut receiving = "持续下载 ".to_owned();
    receiving.append(text::decimal_text(process.receive_bytes_per_second).as_str());
    receiving.append(" B/s");
    let mut spiking = "流量达到近期基线的 ".to_owned();
    spiking.append(text::decimal_text(multiple as u64).as_str());
    spiking.append(" 倍以上");
    let spikes = state.samples > 0 && state.baseline_rate >= MINIMUM_BASELINE_RATE && total_rate
        >= MINIMUM_SPIKE_RATE && total_rate >= model::saturating_product(
        state.baseline_rate,
        multiple as u64,
    );
    let mut reasons = Reasons { score: 0, words: Vec::new(), model: Ghost(Seq::empty()) };
    assert(text::texts(reasons.words@) =~= words(reasons.model@));
    reasons.add_if(
        policy.new_process && timestamp <= state.new_process_until,
        10,
        "新进程开始联网".to_owned(),
    );
    proof {
        let first = reason(
            policy.new_process && timestamp <= state@.process_until,
            10,
            "新进程开始联网"@,
        );
        assert(Seq::<(int, Seq<char>)>::empty() + first =~= first);
    }
    reasons.add_if(
        policy.new_endpoint && timestamp <= state.new_endpoint_until,
        10,
        "出现新远程端点".to_owned(),
    );
    reasons.add_if(novel >= 10, 25, "短时间连接大量新端点".to_owned());
    reasons.add_if(state.consecutive_upload >= REQUIRED_SUSTAINED_SAMPLES, 40, sending);
    reasons.add_if(state.consecutive_download >= REQUIRED_SUSTAINED_SAMPLES, 25, receiving);
    reasons.add_if(spikes, 20, spiking);
    reasons
}

/// The level of a score.
fn level_for(score: u32) -> (level: Option<RiskLevel>)
    ensures
        level == level_of(score as int),
{
    if score >= HIGH_SCORE {
        Some(RiskLevel::High)
    } else if score >= ATTENTION_SCORE {
        Some(RiskLevel::Attention)
    } else if score > 0 {
        Some(RiskLevel::Information)
    } else {
        None
    }
}

/// The title of a signal.
fn title_for(level: RiskLevel) -> (title: &'static str)
    ensures
        title@ == title_of(level),
{
    match level {
        RiskLevel::Information => "网络活动信息",
        RiskLevel::Attention => "需要关注的网络活动",
        RiskLevel::High => "高风险网络活动",
    }
}

/// Signals a noted state, where that is due, and enters the sample into the baseline.
fn settle(
    state: &mut ProcessRiskState,
    timestamp: u64,
    process: &ProcessRiskObservation,
    reasons: &Reasons,
    Ghost(now): Ghost<Circumstances>,
) -> (signal: Option<RiskSignal>)
    requires
        now.timestamp == timestamp,
        reasons.holds(),
        reasons.model@ == old(state)@.reasons(now, process@),
    ensures
        final(state)@ == old(state)@.settled(now, process@),
        match signal {
            Some(signal) => old(state)@.signal(now, process@) == Some(signal@),
            None => old(state)@.signal(now, process@) is None,
        },
{
    let ghost noted = state@;
    let total_rate: u64 = process.send_bytes_per_second.saturating_add(
        process.receive_bytes_per_second,
    );
    let score: u32 = reasons.score;
    let mut signal: Option<RiskSignal> = None;
    match level_for(score) {
        Some(level) => {
            let cooled = timestamp.saturating_sub(state.last_emitted_at) >= COOLDOWN_NANOS;
            let due = match state.last_level {
                None => true,
                Some(previous) => severity_of(level) > severity_of(previous) || cooled,
            };
            assert(due == noted.due(level, timestamp));
            if due {
                let raised = RiskSignal {
                    level,
                    score,
                    title: title_for(level).to_owned(),
                    detail: text::join(reasons.words.as_slice(), "；"),
                    process_name: process.name.clone(),
                    remote_address: text::copy_optional(&state.last_new_remote),
                };
                signal = Some(raised);
                state.last_level = Some(level);
                state.last_emitted_at = timestamp;
            }
        },
        None => {
            state.last_level = None;
        },
    }
    state.baseline_rate = if state.samples == 0 {
        total_rate
    } else {
        model::saturating_product(state.baseline_rate, 7).saturating_add(total_rate) / 8
    };
    state.samples = state.samples.saturating_add(1);
    signal
}

/// An evaluator as a value: what it holds risky, and what it has seen.
#[verifier::ext_equal]
pub struct RiskView {
    pub policy: RiskPolicy,
    pub initialized: bool,
    pub processes: Set<Seq<char>>,
    pub endpoints: Set<(Seq<char>, Seq<char>)>,
    pub states: Map<Seq<char>, RiskState>,
}

/// The identities of a run of sightings.
pub open spec fn identities(seen: Seq<Sighting>) -> Set<Seq<char>> {
    Set::new(|id: Seq<char>| exists|i: int| 0 <= i < seen.len() && (#[trigger] seen[i]).identity == id)
}

impl RiskView {
    /// The state of a process.
    pub open spec fn state(self, identity: Seq<char>) -> RiskState {
        if self.states.dom().contains(identity) {
            self.states[identity]
        } else {
            unseen()
        }
    }

    /// What the evaluation of one process starts from. Nothing is new in the first evaluation.
    pub open spec fn circumstances(self, timestamp: u64, seen: Sighting) -> Circumstances {
        Circumstances {
            timestamp,
            policy: self.policy,
            new_process: self.initialized && !self.processes.contains(seen.identity),
            new_remotes: Set::new(
                |remote: Seq<char>|
                    self.initialized && seen.remotes.contains(remote) && !self.endpoints.contains(
                        (seen.identity, remote),
                    ),
            ),
        }
    }

    /// The signal for one process.
    pub open spec fn signal(self, timestamp: u64, seen: Sighting) -> Option<SignalView> {
        let now = self.circumstances(timestamp, seen);
        self.state(seen.identity).noted(now, seen).signal(now, seen)
    }

    /// The evaluator once one process has been evaluated.
    pub open spec fn stepped(self, timestamp: u64, seen: Sighting) -> RiskView {
        let now = self.circumstances(timestamp, seen);
        RiskView {
            endpoints: self.endpoints.union(
                Set::new(
                    |e: (Seq<char>, Seq<char>)| e.0 == seen.identity && seen.remotes.contains(e.1),
                ),
            ),
            states: self.states.insert(
                seen.identity,
                self.state(seen.identity).noted(now, seen).settled(now, seen),
            ),
            ..self
        }
    }

    /// The evaluator once a run of processes has been evaluated.
    pub open spec fn after(self, timestamp: u64, seen: Seq<Sighting>) -> RiskView
        decreases seen.len(),
    {
        if seen.len() == 0 {
            self
        } else {
            self.after(timestamp, seen.drop_last()).stepped(timestamp, seen.last())
        }
    }

    /// The signals for a run of processes.
    pub open spec fn signals(self, timestamp: u64, seen: Seq<Sighting>) -> Seq<SignalView>
        decreases seen.len(),
    {
        if seen.len() == 0 {
            Seq::empty()
        } else {
            let earlier = self.signals(timestamp, seen.drop_last());
            match self.after(timestamp, seen.drop_last()).signal(timestamp, seen.last()) {
                Some(signal) => earlier.push(signal),
                None => earlier,
            }
        }
    }

    /// The evaluator once an observation has been evaluated: what was seen is known, and the state
    /// of what was not seen is forgotten.
    pub open spec fn evaluated(self, timestamp: u64, seen: Seq<Sighting>) -> RiskView {
        let now = self.after(timestamp, seen);
        RiskView {
            initialized: true,
            processes: now.processes.union(identities(seen)),
            states: now.states.restrict(identities(seen)),
            ..now
        }
    }
}

/// The sightings of an observation.
pub open spec fn sightings(processes: Seq<ProcessRiskObservation>) -> Seq<Sighting> {
    Seq::new(processes.len(), |i: int| processes[i]@)
}

/// The signals of a run of signals.
pub open spec fn signal_views(signals: Seq<RiskSignal>) -> Seq<SignalView> {
    Seq::new(signals.len(), |i: int| signals[i]@)
}

/// Evaluates the risk in what processes do, from one observation to the next.
#[derive(Debug)]
pub struct RiskEvaluator {
    policy: RiskPolicy,
    initialized: bool,
    known_processes: SortedMap<String, ()>,
    known_endpoints: SortedMap<(String, String), ()>,
    states: SortedMap<String, ProcessRiskState>,
}

impl View for RiskEvaluator {
    type V = RiskView;

    closed spec fn view(&self) -> RiskView {
        RiskView {
            policy: self.policy,
            initialized: self.initialized,
            processes: self.known_processes@.dom(),
            endpoints: self.known_endpoints@.dom(),
            states: self.states@.map_values(|state: ProcessRiskState| state@),
        }
    }
}

impl Clone for ProcessRiskState {
    fn clone(&self) -> (copy: Self)
        ensures
            copy@ == self@,
    {
        ProcessRiskState {
            baseline_rate: self.baseline_rate,
            samples: self.samples,
            consecutive_upload: self.consecutive_upload,
            consecutive_download: self.consecutive_download,
            last_level: self.last_level,
            last_emitted_at: self.last_emitted_at,
            new_process_until: self.new_process_until,
            new_endpoint_until: self.new_endpoint_until,
            last_new_remote: text::copy_optional(&self.last_new_remote),
        }
    }
}

impl Clone for RiskEvaluator {
    fn clone(&self) -> (copy: Self)
        ensures
            self.well_formed() ==> copy.well_formed() && copy@ == self@,
    {
        let copy_key = |key: &String| -> (r: String)
            ensures
                r@ == key@
        {
            key.clone()
        };
        let ghost shown = |state: ProcessRiskState| state@;
        let copy_state = |state: &ProcessRiskState| -> (r: ProcessRiskState)
            ensures
                shown(r) == shown(*state)
        {
            state.clone()
        };
        let copy = RiskEvaluator {
            policy: self.policy,
            initialized: self.initialized,
            known_processes: ordered::copy_texts(&self.known_processes),
            known_endpoints: ordered::copy_pairs(&self.known_endpoints),
            states: self.states.copied_with::<RiskState, _, _>(copy_key, copy_state, Ghost(shown)),
        };
        proof {
            if self.well_formed() {
                ordered::lemma_listed_like(copy.states, self.states, shown);
                assert(copy@.states =~= self@.states);
            }
        }
        copy
    }
}

impl RiskEvaluator {
    /// What is known is kept once.
    pub closed spec fn well_formed(&self) -> bool {
        &&& self.known_processes.well_formed()
        &&& self.known_endpoints.well_formed()
        &&& self.states.well_formed()
    }

    /// An evaluator that has seen nothing.
    pub fn new(policy: RiskPolicy) -> (evaluator: RiskEvaluator)
        ensures
            evaluator.well_formed(),
            evaluator@ == (RiskView {
                policy,
                initialized: false,
                processes: Set::empty(),
                endpoints: Set::empty(),
                states: Map::empty(),
            }),
    {
        let evaluator = RiskEvaluator {
            policy,
            initialized: false,
            known_processes: SortedMap::new(),
            known_endpoints: SortedMap::new(),
            states: SortedMap::new(),
        };
        assert(evaluator@.states =~= Map::empty());
        evaluator
    }

    /// Changes what is held risky.
    pub fn set_policy(&mut self, policy: RiskPolicy)
        requires
            old(self).well_formed(),
        ensures
            final(self).well_formed(),
            final(self)@ == (RiskView { policy, ..old(self)@ }),
    {
        self.policy = policy;
    }

    /// The remote addresses that are new for a process.
    fn new_remotes(&self, process: &ProcessRiskObservation) -> (remotes: SortedMap<String, ()>)
        requires
            self.well_formed(),
        ensures
            remotes.well_formed(),
            forall|timestamp: u64|
                remotes@.dom() == (#[trigger] self@.circumstances(timestamp, process@)).new_remotes,
    {
        let mut remotes: SortedMap<String, ()> = SortedMap::new();
        if self.initialized {
            let all = &process.remote_addresses;
            for i in 0..all.len()
                invariant
                    self.well_formed(),
                    remotes.well_formed(),
                    all@ == process.remote_addresses@,
                    remotes@.dom() == Set::new(
                        |remote: Seq<char>|
                            text::texts(all@).take(i as int).contains(remote)
                                && !self.known_endpoints@.dom().contains(
                                (process.identity@, remote),
                            ),
                    ),
            {
                let endpoint = (process.identity.clone(), all[i].clone());
                let ghost shown = text::texts(all@).take(i as int);
                let ghost longer = text::texts(all@).take(i + 1);
                let ghost earlier = remotes@.dom();
                proof {
                    assert(longer =~= shown.push(all@[i as int]@));
                    assert forall|remote: Seq<char>| #[trigger] longer.contains(remote) == (
                    shown.contains(remote) || remote == all@[i as int]@) by {
                        if shown.contains(remote) {
                            let k = shown.index_of(remote);
                            assert(longer[k] == remote);
                        }
                        assert(longer[i as int] == all@[i as int]@);
                    }
                    assert(endpoint@ == (process.identity@, all@[i as int]@));
                }
                if !self.known_endpoints.contains(&endpoint) {
                    remotes.insert(all[i].clone(), ());
                    assert(remotes@.dom() =~= earlier.insert(all@[i as int]@));
                }
                assert(remotes@.dom() =~= Set::new(
                    |remote: Seq<char>|
                        text::texts(all@).take(i + 1).contains(remote)
                            && !self.known_endpoints@.dom().contains((process.identity@, remote)),
                ));
            }
            assert(text::texts(all@).take(all@.len() as int) =~= text::texts(all@));
        }
        assert forall|timestamp: u64|
            remotes@.dom() == (#[trigger] self@.circumstances(timestamp, process@)).new_remotes by {
            assert(remotes@.dom() =~= self@.circumstances(timestamp, process@).new_remotes);
        }
        remotes
    }

    /// Remembers the remote addresses of a process.
    fn remember_endpoints(&mut self, process: &ProcessRiskObservation)
        requires
            old(self).well_formed(),
        ensures
            final(self).well_formed(),
            final(self)@ == (RiskView {
                endpoints: old(self)@.endpoints.union(
                    Set::new(
                        |e: (Seq<char>, Seq<char>)|
                            e.0 == process@.identity && process@.remotes.contains(e.1),
                    ),
                ),
                ..old(self)@
            }),
    {
        let all = &process.remote_addresses;
        let ghost before = self.known_endpoints@.dom();
        for i in 0..all.len()
            invariant
                self.well_formed(),
                all@ == process.remote_addresses@,
                before == old(self).known_endpoints@.dom(),
                self.known_endpoints@.dom() == before.union(
                    Set::new(
                        |e: (Seq<char>, Seq<char>)|
                            e.0 == process@.identity && text::texts(all@).take(i as int).contains(
                                e.1,
                            ),
                    ),
                ),
                self.policy == old(self).policy,
                self.initialized == old(self).initialized,
                self.known_processes == old(self).known_processes,
                self.states == old(self).states,
        {
            let endpoint = (process.identity.clone(), all[i].clone());
            let ghost shown = text::texts(all@).take(i as int);
            let ghost longer = text::texts(all@).take(i + 1);
            let ghost earlier = self.known_endpoints@.dom();
            proof {
                assert(longer =~= shown.push(all@[i as int]@));
                assert forall|remote: Seq<char>| #[trigger] longer.contains(remote) == (
                shown.contains(remote) || remote == all@[i as int]@) by {
                    if shown.contains(remote) {
                        let k = shown.index_of(remote);
                        assert(longer[k] == remote);
                    }
                    assert(longer[i as int] == all@[i as int]@);
                }
                assert(endpoint@ == (process.identity@, all@[i as int]@));
            }
            self.known_endpoints.insert(endpoint, ());
            proof {
                assert(self.known_endpoints@.dom() =~= earlier.insert(
                    (process.identity@, all@[i as int]@),
                ));
                assert(self.known_endpoints@.dom() =~= before.union(
                    Set::new(
                        |e: (Seq<char>, Seq<char>)|
                            e.0 == process@.identity && longer.contains(e.1),
                    ),
                ));
            }
        }
        proof {
            assert(text::texts(all@).take(all@.len() as int) =~= text::texts(all@));
            assert(self@.endpoints =~= before.union(
                Set::new(
                    |e: (Seq<char>, Seq<char>)|
                        e.0 == process@.identity && process@.remotes.contains(e.1),
                ),
            ));
        }
    }

    /// Evaluates one process.
    fn step(&mut self, timestamp: u64, process: &ProcessRiskObservation) -> (signal: Option<
        RiskSignal,
    >)
        requires
            old(self).well_formed(),
        ensures
            final(self).well_formed(),
            final(self)@ == old(self)@.stepped(timestamp, process@),
            match signal {
                Some(signal) => old(self)@.signal(timestamp, process@) == Some(signal@),
                None => old(self)@.signal(timestamp, process@) is None,
            },
    {
        let new_process = self.initialized && !self.known_processes.contains(&process.identity);
        let new_remotes = self.new_remotes(process);
        let policy = self.policy;
        let ghost now = self@.circumstances(timestamp, process@);
        let ghost before = self@;
        let fresh = ProcessRiskState {
            baseline_rate: 0,
            samples: 0,
            consecutive_upload: 0,
            consecutive_download: 0,
            last_level: None,
            last_emitted_at: 0,
            new_process_until: 0,
            new_endpoint_until: 0,
            last_new_remote: None,
        };
        let novel: usize = new_remotes.len();
        proof {
            ordered::lemma_listing_length(new_remotes.listing());
            assert(now == (Circumstances {
                timestamp,
                policy,
                new_process,
                new_remotes: new_remotes@.dom(),
            }));
        }
        let state = self.states.entry(process.identity.clone(), fresh);
        assert(state@ == before.state(process@.identity));
        note(state, policy, timestamp, process, new_process, &new_remotes);
        let reasons = explain(state, policy, timestamp, process, Ghost(now), novel);
        let signal = settle(state, timestamp, process, &reasons, Ghost(now));
        proof {
            assert(self@.states =~= before.stepped(timestamp, process@).states);
        }
        self.remember_endpoints(process);
        signal
    }

    /// Evaluates an observation: the signals that it gives rise to, in the order of the processes.
    pub fn evaluate(&mut self, observation: &RiskObservation) -> (signals: Vec<RiskSignal>)
        requires
            old(self).well_formed(),
        ensures
            final(self).well_formed(),
            final(self)@ == old(self)@.evaluated(
                observation.timestamp_unix_nanos,
                sightings(observation.processes@),
            ),
            signal_views(signals@) == old(self)@.signals(
                observation.timestamp_unix_nanos,
                sightings(observation.processes@),
            ),
    {
        let timestamp: u64 = observation.timestamp_unix_nanos;
        let processes = &observation.processes;
        let ghost seen = sightings(processes@);
        let ghost before = self@;
        let mut signals: Vec<RiskSignal> = Vec::new();
        let mut present: SortedMap<String, ()> = SortedMap::new();
        assert(signal_views(signals@) =~= before.signals(timestamp, seen.take(0)));
        assert(present@.dom() =~= identities(seen.take(0)));
        for i in 0..processes.len()
            invariant
                self.well_formed(),
                present.well_formed(),
                seen == sightings(processes@),
                self@ == before.after(timestamp, seen.take(i as int)),
                signal_views(signals@) == before.signals(timestamp, seen.take(i as int)),
                present@.dom() == identities(seen.take(i as int)),
        {
            let ghost shown = seen.take(i as int);
            let ghost longer = seen.take(i + 1);
            let ghost raised = signals@;
            let ghost named = present@.dom();
            proof {
                assert(longer.drop_last() =~= shown);
                assert(longer.last() == processes@[i as int]@);
            }
            present.insert(processes[i].identity.clone(), ());
            match self.step(timestamp, &processes[i]) {
                Some(signal) => {
                    signals.push(signal);
                    assert(signal_views(signals@) =~= signal_views(raised).push(signal@));
                },
                None => {},
            }
            proof {
                assert forall|id: Seq<char>| #[trigger]
                    present@.dom().contains(id) == identities(longer).contains(id) by {
                    if named.contains(id) {
                        let k = choose|k: int|
                            0 <= k < shown.len() && (#[trigger] shown[k]).identity == id;
                        assert(longer[k].identity == id);
                    }
                    if id == processes@[i as int].identity@ {
                        assert(longer[i as int].identity == id);
                    }
                    if identities(longer).contains(id) {
                        let k = choose|k: int|
                            0 <= k < longer.len() && (#[trigger] longer[k]).identity == id;
                        if k < i {
                            assert(shown[k].identity == id);
                        }
                    }
                }
                assert(present@.dom() =~= identities(longer));
            }
        }
        assert(seen.take(processes@.len() as int) =~= seen);
        let ghost now = self@;
        self.remember_processes(&present);
        let ghost kept = |identity: Seq<char>, state: ProcessRiskState|
            present@.dom().contains(identity);
        let keep = |identity: &String, state: &ProcessRiskState| -> (r: bool)
            ensures
                r == kept(identity@, *state)
        {
            present.contains(identity)
        };
        self.states.retain(keep, Ghost(kept));
        self.initialized = true;
        assert(self@ =~= before.evaluated(timestamp, seen));
        signals
    }

    /// Remembers processes.
    fn remember_processes(&mut self, present: &SortedMap<String, ()>)
        requires
            old(self).well_formed(),
            present.well_formed(),
        ensures
            final(self).well_formed(),
            final(self)@ == (RiskView {
                processes: old(self)@.processes.union(present@.dom()),
                ..old(self)@
            }),
    {
        let entries = present.entries();
        let ghost before = self.known_processes@.dom();
        for i in 0..entries.len()
            invariant
                self.well_formed(),
                entries@ == present.listing(),
                before == old(self).known_processes@.dom(),
                self.known_processes@.dom() == before.union(
                    Set::new(
                        |id: Seq<char>|
                            exists|k: int| 0 <= k < i && (#[trigger] entries@[k]).0@ == id,
                    ),
                ),
                self.policy == old(self).policy,
                self.initialized == old(self).initialized,
                self.known_endpoints == old(self).known_endpoints,
                self.states == old(self).states,
        {
            let ghost earlier = self.known_processes@.dom();
            self.known_processes.insert(entries[i].0.clone(), ());
            proof {
                let id = entries@[i as int].0@;
                assert(self.known_processes@.dom() =~= earlier.insert(id));
                assert(self.known_processes@.dom() =~= before.union(
                    Set::new(
                        |id: Seq<char>|
                            exists|k: int| 0 <= k < i + 1 && (#[trigger] entries@[k]).0@ == id,
                    ),
                ));
            }
        }
        assert(self@.processes =~= before.union(present@.dom()));
    }
}

/// No two sightings are of one process.
pub open spec fn each_once(seen: Seq<Sighting>) -> bool {
    forall|i: int, j: int|
        #![trigger seen[i], seen[j]]
        0 <= i < j < seen.len() ==> seen[i].identity != seen[j].identity
}

/// The first evaluation raises no signal, whatever is running: each process being listed once, and
/// the clock not standing at zero where novelty counts.
pub proof fn law_first_inventory_is_silent(
    evaluator: RiskView,
    timestamp: u64,
    seen: Seq<Sighting>,
)
    requires
        !evaluator.initialized,
        evaluator.states == Map::<Seq<char>, RiskState>::empty(),
        each_once(seen),
        timestamp > 0 || !(evaluator.policy.new_process || evaluator.policy.new_endpoint),
    ensures
        evaluator.signals(timestamp, seen).len() == 0,
        evaluator.after(timestamp, seen).states.dom() == identities(seen),
        !evaluator.after(timestamp, seen).initialized,
        evaluator.after(timestamp, seen).policy == evaluator.policy,
    decreases seen.len(),
{
    if seen.len() == 0 {
        assert(evaluator.after(timestamp, seen).states.dom() =~= identities(seen));
    } else {
        let shorter = seen.drop_last();
        assert(each_once(shorter)) by {
            assert forall|i: int, j: int|
                #![trigger shorter[i], shorter[j]]
                0 <= i < j < shorter.len() implies shorter[i].identity != shorter[j].identity by {
                assert(seen[i].identity != seen[j].identity);
            }
        }
        law_first_inventory_is_silent(evaluator, timestamp, shorter);
        let earlier = evaluator.after(timestamp, shorter);
        let last = seen.last();
        assert(!identities(shorter).contains(last.identity)) by {
            if identities(shorter).contains(last.identity) {
                let i = choose|i: int|
                    0 <= i < shorter.len() && (#[trigger] shorter[i]).identity == last.identity;
                assert(seen[i].identity != seen[seen.len() - 1].identity);
            }
        }
        let now = earlier.circumstances(timestamp, last);
        assert(now.new_remotes =~= Set::empty());
        let noted = unseen().noted(now, last);
        assert(noted.reasons(now, last) =~= Seq::empty());
        assert forall|id: Seq<char>| #[trigger]
            evaluator.after(timestamp, seen).states.dom().contains(id) == identities(
                seen,
            ).contains(id) by {
            if identities(shorter).contains(id) {
                let i = choose|i: int|
                    0 <= i < shorter.len() && (#[trigger] shorter[i]).identity == id;
                assert(seen[i].identity == id);
            }
            if id == last.identity {
                assert(seen[seen.len() - 1].identity == id);
            }
            if identities(seen).contains(id) && id != last.identity {
                let i = choose|i: int| 0 <= i < seen.len() && (#[trigger] seen[i]).identity == id;
                assert(shorter[i].identity == id);
            }
        }
        assert(evaluator.after(timestamp, seen).states.dom() =~= identities(seen));
    }
}

/// Evaluating a run of processes forgets no endpoint, and remembers those of every process in it.
pub proof fn law_endpoints_are_remembered(evaluator: RiskView, timestamp: u64, seen: Seq<Sighting>)
    ensures
        evaluator.endpoints.subset_of(evaluator.after(timestamp, seen).endpoints),
        evaluator.after(timestamp, seen).processes == evaluator.processes,
        forall|i: int, remote: Seq<char>|
            0 <= i < seen.len() && seen[i].remotes.contains(remote) ==> #[trigger] evaluator.after(
                timestamp,
                seen,
            ).endpoints.contains((seen[i].identity, remote)),
    decreases seen.len(),
{
    if seen.len() > 0 {
        let shorter = seen.drop_last();
        law_endpoints_are_remembered(evaluator, timestamp, shorter);
        assert forall|i: int, remote: Seq<char>|
            0 <= i < seen.len() && seen[i].remotes.contains(remote) implies
            #[trigger] evaluator.after(timestamp, seen).endpoints.contains(
            (seen[i].identity, remote),
        ) by {
            if i < shorter.len() {
                assert(shorter[i] == seen[i]);
                assert(evaluator.after(timestamp, shorter).endpoints.contains(
                    (shorter[i].identity, remote),
                ));
            }
        }
    }
}

/// What has been seen is not new again: neither a process nor an endpoint of it.
pub proof fn law_seen_is_not_new(
    evaluator: RiskView,
    timestamp: u64,
    seen: Seq<Sighting>,
    later: u64,
    i: int,
)
    requires
        0 <= i < seen.len(),
    ensures
        !evaluator.evaluated(timestamp, seen).circumstances(later, seen[i]).new_process,
        evaluator.evaluated(timestamp, seen).circumstances(later, seen[i]).new_remotes
            == Set::<Seq<char>>::empty(),
{
    law_endpoints_are_remembered(evaluator, timestamp, seen);
    let known = evaluator.evaluated(timestamp, seen);
    assert(identities(seen).contains(seen[i].identity));
    assert(known.circumstances(later, seen[i]).new_remotes =~= Set::empty());
}

/// Where the reasons amount to a level, a signal comes if and only if none has come since the process
/// was last without a level, the level is worse than at the last signal, or the cooldown is over.
pub proof fn law_signals_come_when_due(evaluator: RiskView, timestamp: u64, seen: Sighting)
    ensures
        ({
            let now = evaluator.circumstances(timestamp, seen);
            let state = evaluator.state(seen.identity);
            match level_of(total_score(state.noted(now, seen).reasons(now, seen))) {
                Some(level) => {
                    &&& evaluator.signal(timestamp, seen) is Some <==> match state.last_level {
                        Some(previous) => severity(level) > severity(previous) || timestamp
                            - state.last_emitted >= COOLDOWN_NANOS,
                        None => true,
                    }
                    &&& evaluator.signal(timestamp, seen) matches Some(signal) ==> signal.level
                        == level
                },
                None => evaluator.signal(timestamp, seen) is None,
            }
        }),
{
}

/// Whether no two sightings are of one process.
pub open spec fn sightings_differ(seen: Seq<Sighting>) -> bool {
    forall|i: int, j: int|
        #![trigger seen[i], seen[j]]
        0 <= i < j < seen.len() ==> seen[i].identity != seen[j].identity
}

/// The signals that an evaluator has for sightings, each looked at by itself.
pub open spec fn signals_apart(evaluator: RiskView, timestamp: u64, seen: Seq<Sighting>) -> Seq<
    SignalView,
>
    decreases seen.len(),
{
    if seen.len() == 0 {
        Seq::empty()
    } else {
        let earlier = signals_apart(evaluator, timestamp, seen.drop_last());
        match evaluator.signal(timestamp, seen.last()) {
            Some(signal) => earlier.push(signal),
            None => earlier,
        }
    }
}

/// The state of a process that has been looked at.
pub open spec fn judged(evaluator: RiskView, timestamp: u64, seen: Sighting) -> RiskState {
    let now = evaluator.circumstances(timestamp, seen);
    evaluator.state(seen.identity).noted(now, seen).settled(now, seen)
}

/// A process that is not among those looked at is as it was.
proof fn lemma_others_stay(evaluator: RiskView, timestamp: u64, seen: Seq<Sighting>, other: Sighting)
    requires
        forall|i: int| 0 <= i < seen.len() ==> (#[trigger] seen[i]).identity != other.identity,
    ensures
        evaluator.after(timestamp, seen).state(other.identity) == evaluator.state(other.identity),
        evaluator.after(timestamp, seen).circumstances(timestamp, other)
            == evaluator.circumstances(timestamp, other),
    decreases seen.len(),
{
    if seen.len() > 0 {
        let shorter = seen.drop_last();
        assert forall|i: int| 0 <= i < shorter.len() implies (#[trigger] shorter[i]).identity
            != other.identity by {
            assert(seen[i].identity != other.identity);
        }
        lemma_others_stay(evaluator, timestamp, shorter, other);
        assert(seen[seen.len() - 1].identity != other.identity);
        let earlier = evaluator.after(timestamp, shorter);
        let now = evaluator.after(timestamp, seen);
        assert forall|remote: Seq<char>|
            now.endpoints.contains((other.identity, remote)) == earlier.endpoints.contains(
                (other.identity, remote),
            ) by {}
        assert(now.circumstances(timestamp, other).new_remotes =~= earlier.circumstances(
            timestamp,
            other,
        ).new_remotes);
    }
}

/// Processes are judged apart: where no two sightings are of one process, the signals are those
/// that each gives rise to by itself, and so is the state that is kept of each.
pub proof fn law_processes_are_judged_apart(
    evaluator: RiskView,
    timestamp: u64,
    seen: Seq<Sighting>,
)
    requires
        sightings_differ(seen),
    ensures
        evaluator.signals(timestamp, seen) == signals_apart(evaluator, timestamp, seen),
        forall|i: int|
            0 <= i < seen.len() ==> evaluator.after(timestamp, seen).state(
                (#[trigger] seen[i]).identity,
            ) == judged(evaluator, timestamp, seen[i]),
        forall|i: int|
            0 <= i < seen.len() ==> evaluator.evaluated(timestamp, seen).state(
                (#[trigger] seen[i]).identity,
            ) == judged(evaluator, timestamp, seen[i]),
    decreases seen.len(),
{
    if seen.len() > 0 {
        let shorter = seen.drop_last();
        let last = seen.last();
        assert(seen[seen.len() - 1] == last);
        assert forall|i: int, j: int|
            #![trigger shorter[i], shorter[j]]
            0 <= i < j < shorter.len() implies shorter[i].identity != shorter[j].identity by {
            assert(seen[i].identity != seen[j].identity);
        }
        assert forall|i: int| 0 <= i < shorter.len() implies (#[trigger] shorter[i]).identity
            != last.identity by {
            assert(seen[i].identity != seen[seen.len() - 1].identity);
        }
        law_processes_are_judged_apart(evaluator, timestamp, shorter);
        lemma_others_stay(evaluator, timestamp, shorter, last);
        assert forall|i: int| 0 <= i < seen.len() implies evaluator.after(timestamp, seen).state(
            (#[trigger] seen[i]).identity,
        ) == judged(evaluator, timestamp, seen[i]) by {
            if i < shorter.len() {
                assert(shorter[i] == seen[i]);
            }
        }
        assert forall|i: int| 0 <= i < seen.len() implies evaluator.evaluated(
            timestamp,
            seen,
        ).state((#[trigger] seen[i]).identity) == judged(evaluator, timestamp, seen[i]) by {
            assert(identities(seen).contains(seen[i].identity));
            lemma_seen_has_state(evaluator, timestamp, seen, i);
        }
    }
}

/// There is a state of every process that has been looked at.
proof fn lemma_seen_has_state(evaluator: RiskView, timestamp: u64, seen: Seq<Sighting>, i: int)
    requires
        0 <= i < seen.len(),
    ensures
        evaluator.after(timestamp, seen).states.dom().contains(seen[i].identity),
    decreases seen.len(),
{
    if i < seen.len() - 1 {
        assert(seen.drop_last()[i] == seen[i]);
        lemma_seen_has_state(evaluator, timestamp, seen.drop_last(), i);
    }
}

/// One evaluation: the policy in force, the time, and what is seen.
pub struct RiskRound {
    pub policy: RiskPolicy,
    pub timestamp: u64,
    pub seen: Seq<Sighting>,
}

/// An evaluator with the policy of a round.
pub open spec fn set_for(evaluator: RiskView, round: RiskRound) -> RiskView {
    RiskView { policy: round.policy, ..evaluator }
}

/// An evaluator once rounds have been evaluated, one after the other.
pub open spec fn after_rounds(evaluator: RiskView, rounds: Seq<RiskRound>) -> RiskView
    decreases rounds.len(),
{
    if rounds.len() == 0 {
        evaluator
    } else {
        let round = rounds.last();
        set_for(after_rounds(evaluator, rounds.drop_last()), round).evaluated(
            round.timestamp,
            round.seen,
        )
    }
}

/// The evaluator that looks at a round, after those before it.
pub open spec fn at_round(evaluator: RiskView, rounds: Seq<RiskRound>, k: int) -> RiskView {
    set_for(after_rounds(evaluator, rounds.take(k)), rounds[k])
}

/// The score of a process that is looked at.
pub open spec fn score_of(evaluator: RiskView, timestamp: u64, seen: Sighting) -> int {
    let now = evaluator.circumstances(timestamp, seen);
    total_score(evaluator.state(seen.identity).noted(now, seen).reasons(now, seen))
}

/// Whether a process is in every one of some rounds, as the rows say, and in none of them twice.
pub open spec fn stays_present(rounds: Seq<RiskRound>, rows: Seq<Sighting>) -> bool {
    &&& rows.len() == rounds.len()
    &&& forall|k: int|
        0 <= k < rounds.len() ==> sightings_differ((#[trigger] rounds[k]).seen)
            && rounds[k].seen.contains(rows[k]) && rows[k].identity == rows[0].identity
}

/// What is remembered of the last signal of a process that stays present and above a score of zero.
proof fn lemma_last_signal_is_remembered(
    evaluator: RiskView,
    rounds: Seq<RiskRound>,
    rows: Seq<Sighting>,
    n: int,
)
    requires
        stays_present(rounds, rows),
        0 < n <= rounds.len(),
        at_round(evaluator, rounds, 0).signal(rounds[0].timestamp, rows[0]) is Some,
        forall|k: int|
            #![trigger rounds[k]]
            0 < k < n ==> score_of(at_round(evaluator, rounds, k), rounds[k].timestamp, rows[k]) > 0
                && at_round(evaluator, rounds, k).signal(rounds[k].timestamp, rows[k]) is None,
    ensures
        ({
            let state = after_rounds(evaluator, rounds.take(n)).state(rows[0].identity);
            &&& state.last_level == Some(
                at_round(evaluator, rounds, 0).signal(rounds[0].timestamp, rows[0])->0.level,
            )
            &&& state.last_emitted == rounds[0].timestamp
        }),
    decreases n,
{
    let k = n - 1;
    let now = at_round(evaluator, rounds, k);
    let round = rounds[k];
    assert(rounds.take(n).drop_last() =~= rounds.take(k));
    assert(rounds.take(n).last() == round);
    law_processes_are_judged_apart(now, round.timestamp, round.seen);
    let i = choose|i: int| 0 <= i < round.seen.len() && round.seen[i] == rows[k];
    assert(round.seen[i].identity == rows[0].identity);
    assert(now.evaluated(round.timestamp, round.seen).state(rows[0].identity) == judged(
        now,
        round.timestamp,
        rows[k],
    ));
    law_signals_come_when_due(now, round.timestamp, rows[k]);
    if k > 0 {
        lemma_last_signal_is_remembered(evaluator, rounds, rows, k);
        assert(rounds[k] == round);
    }
}

/// While a process stays present with a score above zero, a signal for it comes again if and only if
/// its level rises above that of the last signal, or the cooldown since that signal is over. The
/// first round is the one of the last signal; the policy may change from round to round.
pub proof fn law_signal_is_repeated_when_due(
    evaluator: RiskView,
    rounds: Seq<RiskRound>,
    rows: Seq<Sighting>,
)
    requires
        stays_present(rounds, rows),
        rounds.len() > 1,
        at_round(evaluator, rounds, 0).signal(rounds[0].timestamp, rows[0]) is Some,
        forall|k: int|
            #![trigger rounds[k]]
            0 < k < rounds.len() ==> score_of(
                at_round(evaluator, rounds, k),
                rounds[k].timestamp,
                rows[k],
            ) > 0,
        forall|k: int|
            #![trigger rounds[k]]
            0 < k < rounds.len() - 1 ==> at_round(evaluator, rounds, k).signal(
                rounds[k].timestamp,
                rows[k],
            ) is None,
    ensures
        ({
            let last = at_round(evaluator, rounds, 0).signal(rounds[0].timestamp, rows[0])->0;
            let now = at_round(evaluator, rounds, rounds.len() - 1);
            let round = rounds.last();
            let score = score_of(now, round.timestamp, rows.last());
            &&& now.signal(round.timestamp, rows.last()) is Some <==> severity(level_of(score)->0)
                > severity(last.level) || round.timestamp - rounds[0].timestamp >= COOLDOWN_NANOS
            &&& now.signals(round.timestamp, round.seen) == signals_apart(
                now,
                round.timestamp,
                round.seen,
            )
        }),
{
    let n = rounds.len() - 1;
    let now = at_round(evaluator, rounds, n);
    assert(rounds[n] == rounds.last());
    assert forall|k: int|
        #![trigger rounds[k]]
        0 < k < n implies score_of(at_round(evaluator, rounds, k), rounds[k].timestamp, rows[k]) > 0
        && at_round(evaluator, rounds, k).signal(rounds[k].timestamp, rows[k]) is None by {}
    lemma_last_signal_is_remembered(evaluator, rounds, rows, n);
    law_signals_come_when_due(now, rounds[n].timestamp, rows[n]);
    law_processes_are_judged_apart(now, rounds[n].timestamp, rounds[n].seen);
}

/// The levels in numbers: sixty points and more are high, thirty and more call for attention, fewer
/// are information, and none are nothing.
pub proof fn law_levels_in_points(score: int)
    ensures
        level_of(score) == Some(RiskLevel::High) <==> 60 <= score,
        level_of(score) == Some(RiskLevel::Attention) <==> 30 <= score <= 59,
        level_of(score) == Some(RiskLevel::Information) <==> 1 <= score <= 29,
        level_of(score) is None <==> score <= 0,
        title_of(RiskLevel::High) == "高风险网络活动"@,
        title_of(RiskLevel::Attention) == "需要关注的网络活动"@,
        title_of(RiskLevel::Information) == "网络活动信息"@,
        severity(RiskLevel::Information) < severity(RiskLevel::Attention),
        severity(RiskLevel::Attention) < severity(RiskLevel::High),
{
}

/// What a condition is worth.
pub open spec fn points(holds: bool, worth: int) -> int {
    if holds {
        worth
    } else {
        0
    }
}

proof fn lemma_points(parts: Seq<(int, Seq<char>)>, holds: bool, worth: int, words: Seq<char>)
    ensures
        total_score(parts + reason(holds, worth, words)) == total_score(parts) + points(
            holds,
            worth,
        ),
{
    let all = parts + reason(holds, worth, words);
    if holds {
        assert(all.drop_last() =~= parts);
        assert(all.last() == (worth, words));
    } else {
        assert(all =~= parts);
    }
}

/// The score in points: ten for a process and ten for an endpoint that is still new, twenty-five for
/// ten new endpoints at once, forty for three samples in a row at the upload threshold, twenty-five
/// for three at the download threshold, and twenty for a rate of a megabyte or more that is twice
/// the baseline, or as many times as the policy says, of at least sixty-four kilobytes.
pub proof fn law_score_in_points(state: RiskState, now: Circumstances, seen: Sighting)
    requires
        seen.sending + seen.receiving < u64::MAX,
    ensures
        ({
            let rate = seen.sending + seen.receiving;
            let times = if now.policy.spike_multiplier > 2 {
                now.policy.spike_multiplier as int
            } else {
                2
            };
            total_score(state.reasons(now, seen)) == points(
                now.policy.new_process && now.timestamp <= state.process_until,
                10,
            ) + points(now.policy.new_endpoint && now.timestamp <= state.endpoint_until, 10)
                + points(now.new_remotes.len() >= 10, 25) + points(state.uploads >= 3, 40)
                + points(state.downloads >= 3, 25) + points(
                state.samples > 0 && state.baseline >= 0x1_0000 && rate >= 0x10_0000 && rate
                    >= times * state.baseline,
                20,
            )
        }),
{
    let parts_1 = reason(
        now.policy.new_process && now.timestamp <= state.process_until,
        10,
        "新进程开始联网"@,
    );
    let holds_2 = now.policy.new_endpoint && now.timestamp <= state.endpoint_until;
    let parts_2 = parts_1 + reason(holds_2, 10, "出现新远程端点"@);
    let parts_3 = parts_2 + reason(now.new_remotes.len() >= 10, 25, "短时间连接大量新端点"@);
    let words_4 = "持续上传 "@ + text::decimal(seen.sending as nat) + " B/s"@;
    let parts_4 = parts_3 + reason(state.uploads >= REQUIRED_SUSTAINED_SAMPLES, 40, words_4);
    let words_5 = "持续下载 "@ + text::decimal(seen.receiving as nat) + " B/s"@;
    let parts_5 = parts_4 + reason(state.downloads >= REQUIRED_SUSTAINED_SAMPLES, 25, words_5);
    let words_6 = "流量达到近期基线的 "@ + text::decimal(multiplier(now.policy) as nat) + " 倍以上"@;
    assert(Seq::<(int, Seq<char>)>::empty() + parts_1 =~= parts_1);
    lemma_points(
        Seq::empty(),
        now.policy.new_process && now.timestamp <= state.process_until,
        10,
        "新进程开始联网"@,
    );
    lemma_points(parts_1, holds_2, 10, "出现新远程端点"@);
    lemma_points(parts_2, now.new_remotes.len() >= 10, 25, "短时间连接大量新端点"@);
    lemma_points(parts_3, state.uploads >= REQUIRED_SUSTAINED_SAMPLES, 40, words_4);
    lemma_points(parts_4, state.downloads >= REQUIRED_SUSTAINED_SAMPLES, 25, words_5);
    lemma_points(parts_5, state.spikes(now.policy, seen), 20, words_6);
    let times = multiplier(now.policy) as int;
    assert(times * state.baseline == state.baseline * times) by (nonlinear_arith);
}

/// A reason is told in the signal by its words, in the order of the points.
pub proof fn law_reasons_are_told(state: RiskState, now: Circumstances, seen: Sighting)
    requires
        seen.sending + seen.receiving < u64::MAX,
    ensures
        ({
            let told = words(state.reasons(now, seen));
            let rate = seen.sending + seen.receiving;
            let times = if now.policy.spike_multiplier > 2 {
                now.policy.spike_multiplier as int
            } else {
                2
            };
            &&& now.policy.new_process && now.timestamp <= state.process_until ==> told.len() > 0
                && told[0] == "新进程开始联网"@
            &&& now.policy.new_endpoint && now.timestamp <= state.endpoint_until ==> told.contains(
                "出现新远程端点"@,
            )
            &&& now.new_remotes.len() >= 10 ==> told.contains("短时间连接大量新端点"@)
            &&& state.uploads >= 3 ==> told.contains(
                "持续上传 "@ + text::decimal(seen.sending as nat) + " B/s"@,
            )
            &&& state.downloads >= 3 ==> told.contains(
                "持续下载 "@ + text::decimal(seen.receiving as nat) + " B/s"@,
            )
            &&& state.samples > 0 && state.baseline >= 0x1_0000 && rate >= 0x10_0000 && rate >= times
                * state.baseline ==> told.len() > 0 && told.last() == "流量达到近期基线的 "@
                + text::decimal(times as nat) + " 倍以上"@
            &&& state.signal(now, seen) matches Some(signal) ==> signal.detail == text::joined(
                told,
                "；"@,
            ) && signal.process_name == seen.name
        }),
{
    let a = reason(
        now.policy.new_process && now.timestamp <= state.process_until,
        10,
        "新进程开始联网"@,
    );
    let b = reason(
        now.policy.new_endpoint && now.timestamp <= state.endpoint_until,
        10,
        "出现新远程端点"@,
    );
    let c = reason(now.new_remotes.len() >= 10, 25, "短时间连接大量新端点"@);
    let d = reason(
        state.uploads >= REQUIRED_SUSTAINED_SAMPLES,
        40,
        "持续上传 "@ + text::decimal(seen.sending as nat) + " B/s"@,
    );
    let e = reason(
        state.downloads >= REQUIRED_SUSTAINED_SAMPLES,
        25,
        "持续下载 "@ + text::decimal(seen.receiving as nat) + " B/s"@,
    );
    let all = state.reasons(now, seen);
    let told = words(all);
    let times = multiplier(now.policy) as int;
    assert(times * state.baseline == state.baseline * times) by (nonlinear_arith);
    let n = a.len() as int;
    if b.len() > 0 {
        assert(all[n] == b[0]);
        assert(told[n] == b[0].1);
    }
    if c.len() > 0 {
        assert(all[n + b.len()] == c[0]);
        assert(told[n + b.len()] == c[0].1);
    }
    if d.len() > 0 {
        assert(all[n + b.len() + c.len()] == d[0]);
        assert(told[n + b.len() + c.len()] == d[0].1);
    }
    if e.len() > 0 {
        assert(all[n + b.len() + c.len() + d.len()] == e[0]);
        assert(told[n + b.len() + c.len() + d.len()] == e[0].1);
    }
}

/// More traffic never lowers the score of a process, all else being equal.
pub proof fn law_more_traffic_scores_no_less(
    state: RiskState,
    now: Circumstances,
    less: Sighting,
    more: Sighting,
)
    requires
        less.sending <= more.sending,
        less.receiving <= more.receiving,
        more.sending + more.receiving < u64::MAX,
    ensures
        total_score(state.noted(now, less).reasons(now, less)) <= total_score(
            state.noted(now, more).reasons(now, more),
        ),
{
    law_score_in_points(state.noted(now, less), now, less);
    law_score_in_points(state.noted(now, more), now, more);
}

/// Traffic at the baseline is no spike, whatever the policy says.
pub proof fn law_steady_traffic_is_no_spike(
    state: RiskState,
    now: Circumstances,
    steady: Sighting,
)
    requires
        steady.sending + steady.receiving == state.baseline,
        state.baseline < u64::MAX,
    ensures
        total_score(state.reasons(now, steady)) == total_score(
            RiskState { samples: 0, ..state }.reasons(now, steady),
        ),
{
    law_score_in_points(state, now, steady);
    law_score_in_points(RiskState { samples: 0, ..state }, now, steady);
    let times = if now.policy.spike_multiplier > 2 {
        now.policy.spike_multiplier as int
    } else {
        2
    };
    assert(state.baseline > 0 ==> times * state.baseline > state.baseline) by (nonlinear_arith)
        requires
            times >= 2,
    ;
}

/// A threshold is held for three samples in a row if and only if each of the last three reached it.
pub proof fn law_three_in_a_row(count: u32, first: u64, second: u64, third: u64, threshold: u64)
    ensures
        sustained(sustained(sustained(count, first, threshold), second, threshold), third, threshold)
            >= 3 <==> first >= threshold && second >= threshold && third >= threshold,
{
}

/// Each rate is held against its own threshold: three uploads in a row count as an upload, three
/// downloads as a download.
pub proof fn law_rates_have_their_own_thresholds(
    state: RiskState,
    now: Circumstances,
    seen: Sighting,
)
    ensures
        state.noted(now, seen).uploads > 0 <==> seen.sending >= now.policy.upload_threshold,
        state.noted(now, seen).downloads > 0 <==> seen.receiving >= now.policy.download_threshold,
        seen.sending >= now.policy.upload_threshold && state.uploads < u32::MAX ==> state.noted(
            now,
            seen,
        ).uploads == state.uploads + 1,
        seen.receiving >= now.policy.download_threshold && state.downloads < u32::MAX
            ==> state.noted(now, seen).downloads == state.downloads + 1,
{
}

/// The baseline starts at the first rate, and then moves an eighth of the way to each rate: it never
/// leaves the span between what it was and the rate, and stays where the traffic is steady.
pub proof fn law_baseline_follows_the_rate(state: RiskState, now: Circumstances, seen: Sighting)
    requires
        seen.sending + seen.receiving <= 0x1000_0000_0000_0000,
        state.baseline <= 0x1000_0000_0000_0000,
    ensures
        ({
            let rate = seen.sending + seen.receiving;
            let next = state.settled(now, seen).baseline;
            &&& state.samples == 0 ==> next == rate
            &&& state.samples > 0 ==> 8 * next <= 7 * state.baseline + rate < 8 * next + 8
            &&& state.samples > 0 && rate == state.baseline ==> next == rate
            &&& state.samples > 0 ==> (state.baseline <= next <= rate || rate <= next
                <= state.baseline)
            &&& state.settled(now, seen).samples > 0
        }),
{
}

/// What is new counts as new for thirty seconds and no longer.
pub proof fn law_novelty_lasts_thirty_seconds(
    state: RiskState,
    now: Circumstances,
    seen: Sighting,
)
    requires
        now.timestamp + 30_000_000_000 <= u64::MAX,
    ensures
        now.policy.new_process && now.new_process ==> state.noted(now, seen).process_until
            == now.timestamp + 30_000_000_000,
        !now.new_process ==> state.noted(now, seen).process_until == state.process_until,
        now.policy.new_endpoint && now.new_remotes.len() > 0 ==> state.noted(now, seen).endpoint_until
            == now.timestamp + 30_000_000_000 && state.noted(now, seen).last_remote is Some,
        now.new_remotes.len() == 0 ==> state.noted(now, seen).endpoint_until == state.endpoint_until
            && state.noted(now, seen).last_remote == state.last_remote,
{
}

/// A process that was sampled once and is then seen at another rate, with nothing else to say of it:
/// it is signalled as a spike if and only if the rate is a megabyte or more, the first was
/// sixty-four kilobytes or more, and the rate is as many times the first as the policy says, twice
/// at least.
pub proof fn law_sudden_traffic_is_signalled(
    evaluator: RiskView,
    first_time: u64,
    first: Sighting,
    second_time: u64,
    second: Sighting,
)
    requires
        !evaluator.states.dom().contains(first.identity),
        second.identity == first.identity,
        !evaluator.policy.new_process,
        !evaluator.policy.new_endpoint,
        first.sending < evaluator.policy.upload_threshold,
        first.receiving < evaluator.policy.download_threshold,
        second.sending < evaluator.policy.upload_threshold,
        second.receiving < evaluator.policy.download_threshold,
        first.sending + first.receiving < u64::MAX,
        second.sending + second.receiving < u64::MAX,
        first.remotes.len() == 0,
        second.remotes.len() == 0,
    ensures
        ({
            let between = evaluator.evaluated(first_time, seq![first]);
            let before = first.sending + first.receiving;
            let rate = second.sending + second.receiving;
            let times = if evaluator.policy.spike_multiplier > 2 {
                evaluator.policy.spike_multiplier as int
            } else {
                2
            };
            &&& evaluator.signals(first_time, seq![first]) == Seq::<SignalView>::empty()
            &&& between.signal(second_time, second) is Some <==> before >= 0x1_0000 && rate
                >= 0x10_0000 && rate >= times * before
            &&& between.signal(second_time, second) matches Some(signal) ==> {
                &&& signal.score == 20
                &&& signal.level == RiskLevel::Information
                &&& signal.detail == "流量达到近期基线的 "@ + text::decimal(times as nat) + " 倍以上"@
                &&& signal.process_name == second.name
            }
            &&& between.signals(second_time, seq![second]) == (match between.signal(
                second_time,
                second,
            ) {
                Some(signal) => seq![signal],
                None => Seq::empty(),
            })
        }),
{
    let between = evaluator.evaluated(first_time, seq![first]);
    assert(seq![first].drop_last() =~= Seq::empty());
    assert(seq![second].drop_last() =~= Seq::empty());
    reveal_with_fuel(RiskView::after, 2);
    reveal_with_fuel(RiskView::signals, 2);
    assert(seq![first].last() == first);
    assert(seq![second].last() == second);
    assert(identities(seq![first]).contains(first.identity)) by {
        assert(seq![first][0].identity == first.identity);
    }
    let now = evaluator.circumstances(first_time, first);
    assert(now.new_remotes =~= Set::empty());
    let noted = unseen().noted(now, first);
    law_score_in_points(noted, now, first);
    assert(evaluator.signal(first_time, first) is None);
    assert(between.state(first.identity) == noted.settled(now, first));
    let later = between.circumstances(second_time, second);
    assert(later.new_remotes =~= Set::empty());
    let state = between.state(second.identity).noted(later, second);
    law_score_in_points(state, later, second);
    law_reasons_are_told(state, later, second);
    let reasons = state.reasons(later, second);
    if between.signal(second_time, second) is Some {
        let told = words(reasons);
        assert(told.len() == 1);
        assert(told =~= seq![told.last()]);
        reveal_with_fuel(text::joined, 2);
        assert(text::joined(told, "；"@) =~= told.last());
    }
}

/// Reasons add up, whatever they are, to no more than all of them together, and the level of a
/// signal is that of its score.
pub proof fn law_score_is_bounded(state: RiskState, now: Circumstances, seen: Sighting)
    ensures
        0 <= total_score(state.reasons(now, seen)) <= 130,
        match state.signal(now, seen) {
            Some(signal) => signal.score == total_score(state.reasons(now, seen)) && level_of(
                signal.score as int,
            ) == Some(signal.level),
            None => true,
        },
{
    let a = reason(now.policy.new_process && now.timestamp <= state.process_until, 10, "新进程开始联网"@);
    let b = reason(now.policy.new_endpoint && now.timestamp <= state.endpoint_until, 10, "出现新远程端点"@);
    let c = reason(now.new_remotes.len() >= 10, 25, "短时间连接大量新端点"@);
    let d = reason(
        state.uploads >= REQUIRED_SUSTAINED_SAMPLES,
        40,
        "持续上传 "@ + text::decimal(seen.sending as nat) + " B/s"@,
    );
    let e = reason(
        state.downloads >= REQUIRED_SUSTAINED_SAMPLES,
        25,
        "持续下载 "@ + text::decimal(seen.receiving as nat) + " B/s"@,
    );
    let f = reason(
        state.spikes(now.policy, seen),
        20,
        "流量达到近期基线的 "@ + text::decimal(multiplier(now.policy) as nat) + " 倍以上"@,
    );
    lemma_add_reason(Seq::empty(), a);
    assert(Seq::<(int, Seq<char>)>::empty() + a =~= a);
    lemma_add_reason(a, b);
    lemma_add_reason(a + b, c);
    lemma_add_reason(a + b + c, d);
    lemma_add_reason(a + b + c + d, e);
    lemma_add_reason(a + b + c + d + e, f);
}

/// One more reason adds its score.
proof fn lemma_add_reason(reasons: Seq<(int, Seq<char>)>, more: Seq<(int, Seq<char>)>)
    requires
        more.len() <= 1,
    ensures
        total_score(reasons + more) == total_score(reasons) + (if more.len() == 1 {
            more[0].0
        } else {
            0
        }),
{
    if more.len() == 1 {
        assert((reasons + more).drop_last() =~= reasons);
    } else {
        assert(reasons + more =~= reasons);
    }
}

/// In every evaluation but the first a process is new that was not there before, and so is a remote
/// end that this process had not; what was seen once is known from then on.
pub proof fn law_unknown_is_new(
    evaluator: RiskView,
    timestamp: u64,
    seen: Sighting,
    remote: Seq<char>,
    later: u64,
)
    ensures
        evaluator.circumstances(timestamp, seen).new_process <==> evaluator.initialized
            && !evaluator.processes.contains(seen.identity),
        evaluator.circumstances(timestamp, seen).new_remotes.contains(remote) <==> (
        evaluator.initialized && seen.remotes.contains(remote) && !evaluator.endpoints.contains(
            (seen.identity, remote),
        )),
        ({
            let after = evaluator.evaluated(timestamp, seq![seen]);
            &&& after.initialized
            &&& !after.circumstances(later, seen).new_process
            &&& !after.circumstances(later, seen).new_remotes.contains(remote)
            &&& after.policy == evaluator.policy
        }),
{
    let rows = seq![seen];
    assert(rows.drop_last() =~= Seq::empty());
    reveal_with_fuel(RiskView::after, 2);
    assert(rows[0].identity == seen.identity);
    assert(identities(rows).contains(seen.identity));
}

/// A signal is given again for the same level after two minutes and not before; a higher level is
/// signalled at once, and so is the first.
pub proof fn law_signals_wait_two_minutes(state: RiskState, level: RiskLevel, timestamp: u64)
    ensures
        state.last_level is None ==> state.due(level, timestamp),
        state.last_level == Some(level) ==> (state.due(level, timestamp) <==> timestamp
            - state.last_emitted >= 120 * 1_000_000_000),
        state.last_level == Some(RiskLevel::Information) && level != RiskLevel::Information
            ==> state.due(level, timestamp),
        state.last_level == Some(RiskLevel::Attention) && level == RiskLevel::High ==> state.due(
            level,
            timestamp,
        ),
        state.last_level == Some(RiskLevel::High) && timestamp - state.last_emitted < 120
            * 1_000_000_000 ==> !state.due(level, timestamp),
{
}

/// A signal names its process, the newest remote end, and how high the risk is.
pub proof fn law_signals_tell_of_their_process(
    state: RiskState,
    now: Circumstances,
    seen: Sighting,
)
    requires
        state.signal(now, seen) is Some,
    ensures
        ({
            let signal = state.signal(now, seen)->0;
            &&& signal.process_name == seen.name
            &&& signal.remote_address == state.last_remote
            &&& level_of(total_score(state.reasons(now, seen))) == Some(signal.level)
            &&& signal.title == title_of(signal.level)
        }),
{
}

} // verus!
