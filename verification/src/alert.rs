//! Alerts while recording: what is new, and what goes over a threshold.
use crate::model;
use crate::ordered;
use crate::ordered::SortedMap;
use crate::session::AlertKind;
use crate::text;
use vstd::prelude::*;

verus! {

/// What raises an alert.
#[derive(Debug, Clone, Copy, PartialEq, Eq, Structural)]
pub struct AlertPolicy {
    pub new_process: bool,
    pub new_endpoint: bool,
    pub upload_threshold: u64,
    pub download_threshold: u64,
    pub spike_multiplier: u32,
}

/// What was seen at one time.
#[derive(Debug, Clone, PartialEq, Eq)]
pub struct AlertObservation {
    pub timestamp_unix_nanos: u64,
    pub send_bytes_per_second: u64,
    pub receive_bytes_per_second: u64,
    pub process_names: Vec<String>,
    pub endpoints: Vec<(String, String)>,
}

/// An alert in words.
#[derive(Debug, Clone, PartialEq, Eq)]
pub struct AlertSignal {
    pub kind: AlertKind,
    pub title: String,
    pub detail: String,
    pub process_name: Option<String>,
    pub remote_address: Option<String>,
}

/// An observation as a value.
pub struct Scene {
    pub sending: u64,
    pub receiving: u64,
    pub processes: Set<Seq<char>>,
    pub endpoints: Set<(Seq<char>, Seq<char>)>,
}

impl View for AlertObservation {
    type V = Scene;

    open spec fn view(&self) -> Scene {
        Scene {
            sending: self.send_bytes_per_second,
            receiving: self.receive_bytes_per_second,
            processes: Set::new(
                |name: Seq<char>|
                    exists|i: int|
                        0 <= i < self.process_names@.len() && (#[trigger] self.process_names@[i])@
                            == name,
            ),
            endpoints: Set::new(
                |e: (Seq<char>, Seq<char>)|
                    exists|i: int|
                        0 <= i < self.endpoints@.len() && (#[trigger] self.endpoints@[i])@ == e,
            ),
        }
    }
}

/// An alert as a value.
#[verifier::ext_equal]
pub struct AlertView {
    pub kind: AlertKind,
    pub title: Seq<char>,
    pub detail: Seq<char>,
    pub process_name: Option<Seq<char>>,
    pub remote_address: Option<Seq<char>>,
}

impl View for AlertSignal {
    type V = AlertView;

    open spec fn view(&self) -> AlertView {
        AlertView {
            kind: self.kind,
            title: self.title@,
            detail: self.detail@,
            process_name: text::optional(self.process_name),
            remote_address: text::optional(self.remote_address),
        }
    }
}

/// An evaluator as a value.
#[verifier::ext_equal]
pub struct AlertState {
    pub policy: AlertPolicy,
    pub initialized: bool,
    pub processes: Set<Seq<char>>,
    pub endpoints: Set<(Seq<char>, Seq<char>)>,
    pub upload_above: bool,
    pub download_above: bool,
    pub previous_rate: u64,
}

/// The alert that a process is new.
pub open spec fn process_alert(name: Seq<char>) -> AlertView {
    AlertView {
        kind: AlertKind::NewProcess,
        title: "新进程开始联网"@,
        detail: name,
        process_name: Some(name),
        remote_address: None,
    }
}

/// The alert that an endpoint of a process is new.
pub open spec fn endpoint_alert(endpoint: (Seq<char>, Seq<char>)) -> AlertView {
    AlertView {
        kind: AlertKind::NewEndpoint,
        title: "发现新远程端点"@,
        detail: endpoint.0 + " → "@ + endpoint.1,
        process_name: Some(endpoint.0),
        remote_address: Some(endpoint.1),
    }
}

/// An alert about the traffic as a whole, where it is raised.
pub open spec fn rate_alert(
    raised: bool,
    kind: AlertKind,
    title: Seq<char>,
    detail: Seq<char>,
) -> Seq<AlertView> {
    if raised {
        seq![AlertView { kind, title, detail, process_name: None, remote_address: None }]
    } else {
        Seq::empty()
    }
}

impl Scene {
    /// The rate in both directions.
    pub open spec fn rate(self) -> u64 {
        model::saturated(self.sending + self.receiving)
    }
}

impl AlertState {
    /// The processes that are new.
    pub open spec fn new_processes(self, scene: Scene) -> Set<Seq<char>> {
        scene.processes.difference(self.processes)
    }

    /// The endpoints that are new.
    pub open spec fn new_endpoints(self, scene: Scene) -> Set<(Seq<char>, Seq<char>)> {
        scene.endpoints.difference(self.endpoints)
    }

    /// Whether the rate has grown to a multiple of the one before.
    pub open spec fn spikes(self, scene: Scene) -> bool {
        let multiple = if self.policy.spike_multiplier < 2 {
            2
        } else {
            self.policy.spike_multiplier
        };
        self.previous_rate > 0 && scene.rate() >= model::saturated(self.previous_rate * multiple)
    }

    /// The alerts about what is new, in order.
    pub open spec fn novelty_alerts(self, scene: Scene) -> Seq<AlertView> {
        (if self.policy.new_process {
            ordered::ordered_list::<String>(self.new_processes(scene)).map_values(
                |name: Seq<char>| process_alert(name),
            )
        } else {
            Seq::empty()
        }) + (if self.policy.new_endpoint {
            ordered::ordered_list::<(String, String)>(self.new_endpoints(scene)).map_values(
                |endpoint: (Seq<char>, Seq<char>)| endpoint_alert(endpoint),
            )
        } else {
            Seq::empty()
        })
    }

    /// The alerts that an observation raises: none the first time.
    pub open spec fn alerts(self, scene: Scene) -> Seq<AlertView> {
        if !self.initialized {
            Seq::empty()
        } else {
            self.novelty_alerts(scene) + rate_alert(
                scene.sending >= self.policy.upload_threshold && !self.upload_above,
                AlertKind::UploadThreshold,
                "上传速率超过阈值"@,
                text::decimal(scene.sending as nat) + " B/s"@,
            ) + rate_alert(
                scene.receiving >= self.policy.download_threshold && !self.download_above,
                AlertKind::DownloadThreshold,
                "下载速率超过阈值"@,
                text::decimal(scene.receiving as nat) + " B/s"@,
            ) + rate_alert(
                self.spikes(scene),
                AlertKind::TrafficSpike,
                "流量突增"@,
                text::decimal(self.previous_rate as nat) + " B/s → "@ + text::decimal(
                    scene.rate() as nat,
                ) + " B/s"@,
            )
        }
    }

    /// The evaluator once an observation has been evaluated.
    pub open spec fn evaluated(self, scene: Scene) -> AlertState {
        AlertState {
            policy: self.policy,
            initialized: true,
            processes: self.processes.union(scene.processes),
            endpoints: self.endpoints.union(scene.endpoints),
            upload_above: if self.initialized {
                scene.sending >= self.policy.upload_threshold
            } else {
                self.upload_above
            },
            download_above: if self.initialized {
                scene.receiving >= self.policy.download_threshold
            } else {
                self.download_above
            },
            previous_rate: scene.rate(),
        }
    }
}

/// The alerts of a run of alerts.
pub open spec fn alert_views(alerts: Seq<AlertSignal>) -> Seq<AlertView> {
    Seq::new(alerts.len(), |i: int| alerts[i]@)
}

/// Raises alerts from one observation to the next: not for what is there at the start, and once
/// each time that a threshold is passed.
#[derive(Debug)]
pub struct AlertEvaluator {
    policy: AlertPolicy,
    initialized: bool,
    known_processes: SortedMap<String, ()>,
    known_endpoints: SortedMap<(String, String), ()>,
    upload_above: bool,
    download_above: bool,
    previous_rate: u64,
}

impl View for AlertEvaluator {
    type V = AlertState;

    closed spec fn view(&self) -> AlertState {
        AlertState {
            policy: self.policy,
            initialized: self.initialized,
            processes: self.known_processes@.dom(),
            endpoints: self.known_endpoints@.dom(),
            upload_above: self.upload_above,
            download_above: self.download_above,
            previous_rate: self.previous_rate,
        }
    }
}

impl Clone for AlertEvaluator {
    fn clone(&self) -> (copy: Self)
        ensures
            self.well_formed() ==> copy.well_formed() && copy@ == self@,
    {
        AlertEvaluator {
            policy: self.policy,
            initialized: self.initialized,
            known_processes: ordered::copy_texts(&self.known_processes),
            known_endpoints: ordered::copy_pairs(&self.known_endpoints),
            upload_above: self.upload_above,
            download_above: self.download_above,
            previous_rate: self.previous_rate,
        }
    }
}

/// Puts an alert about the traffic as a whole behind others, where it is raised.
fn raise(
    alerts: &mut Vec<AlertSignal>,
    raised: bool,
    kind: AlertKind,
    title: &str,
    detail: String,
)
    ensures
        alert_views(final(alerts)@) == alert_views(old(alerts)@) + rate_alert(
            raised,
            kind,
            title@,
            detail@,
        ),
{
    let ghost before = alert_views(alerts@);
    if raised {
        let alert = AlertSignal {
            kind,
            title: title.to_owned(),
            detail,
            process_name: None,
            remote_address: None,
        };
        alerts.push(alert);
        assert(alert_views(alerts@) =~= before.push(alert@));
        assert(before.push(alert@) =~= before + rate_alert(raised, kind, title@, detail@));
    } else {
        assert(before + rate_alert(raised, kind, title@, detail@) =~= before);
    }
}

/// A rate in words.
fn rate_text(rate: u64) -> (text: String)
    ensures
        text@ == text::decimal(rate as nat) + " B/s"@,
{
    let mut text = text::decimal_text(rate);
    text.append(" B/s");
    text
}

impl AlertEvaluator {
    /// What is known is kept once.
    pub closed spec fn well_formed(&self) -> bool {
        &&& self.known_processes.well_formed()
        &&& self.known_endpoints.well_formed()
    }

    /// An evaluator that has seen nothing.
    pub fn new(policy: AlertPolicy) -> (evaluator: AlertEvaluator)
        ensures
            evaluator.well_formed(),
            evaluator@ == (AlertState {
                policy,
                initialized: false,
                processes: Set::empty(),
                endpoints: Set::empty(),
                upload_above: false,
                download_above: false,
                previous_rate: 0,
            }),
    {
        AlertEvaluator {
            policy,
            initialized: false,
            known_processes: SortedMap::new(),
            known_endpoints: SortedMap::new(),
            upload_above: false,
            download_above: false,
            previous_rate: 0,
        }
    }

    /// Changes what raises an alert.
    pub fn set_policy(&mut self, policy: AlertPolicy)
        requires
            old(self).well_formed(),
        ensures
            final(self).well_formed(),
            final(self)@ == (AlertState { policy, ..old(self)@ }),
    {
        self.policy = policy;
    }

    /// Evaluates an observation: the alerts that it raises.
    pub fn evaluate(&mut self, observation: &AlertObservation) -> (alerts: Vec<AlertSignal>)
        requires
            old(self).well_formed(),
        ensures
            final(self).well_formed(),
            final(self)@ == old(self)@.evaluated(observation@),
            alert_views(alerts@) == old(self)@.alerts(observation@),
    {
        let ghost before = self@;
        let ghost scene = observation@;
        let rate: u64 = observation.send_bytes_per_second.saturating_add(
            observation.receive_bytes_per_second,
        );
        let mut alerts: Vec<AlertSignal> = Vec::new();
        assert(alert_views(alerts@) =~= Seq::empty());
        if self.initialized {
            alerts = self.novelties(observation);
            let upload_above = observation.send_bytes_per_second >= self.policy.upload_threshold;
            raise(
                &mut alerts,
                upload_above && !self.upload_above,
                AlertKind::UploadThreshold,
                "上传速率超过阈值",
                rate_text(observation.send_bytes_per_second),
            );
            let download_above = observation.receive_bytes_per_second
                >= self.policy.download_threshold;
            raise(
                &mut alerts,
                download_above && !self.download_above,
                AlertKind::DownloadThreshold,
                "下载速率超过阈值",
                rate_text(observation.receive_bytes_per_second),
            );
            let multiple: u32 = if self.policy.spike_multiplier < 2 {
                2
            } else {
                self.policy.spike_multiplier
            };
            let spikes = self.previous_rate > 0 && rate >= model::saturating_product(
                self.previous_rate,
                multiple as u64,
            );
            let mut detail = text::decimal_text(self.previous_rate);
            detail.append(" B/s → ");
            detail.append(text::decimal_text(rate).as_str());
            detail.append(" B/s");
            raise(&mut alerts, spikes, AlertKind::TrafficSpike, "流量突增", detail);
            self.upload_above = upload_above;
            self.download_above = download_above;
        }
        self.remember(observation);
        self.previous_rate = rate;
        self.initialized = true;
        assert(self@ =~= before.evaluated(scene));
        alerts
    }

    /// The alerts about what is new.
    fn novelties(&self, observation: &AlertObservation) -> (alerts: Vec<AlertSignal>)
        requires
            self.well_formed(),
        ensures
            alert_views(alerts@) == self@.novelty_alerts(observation@),
    {
        let ghost scene = observation@;
        let mut alerts: Vec<AlertSignal> = Vec::new();
        assert(alert_views(alerts@) =~= Seq::empty());
        if self.policy.new_process {
            let fresh = self.fresh_processes(observation);
            let entries = fresh.entries();
            let ghost keys = ordered::keys_of(entries@);
            proof {
                ordered::lemma_keys_in_order(entries@);
            }
            for i in 0..entries.len()
                invariant
                    keys == ordered::keys_of(entries@),
                    alert_views(alerts@) == keys.take(i as int).map_values(
                        |name: Seq<char>| process_alert(name),
                    ),
            {
                let name = &entries[i].0;
                let ghost raised = alert_views(alerts@);
                let alert = AlertSignal {
                    kind: AlertKind::NewProcess,
                    title: "新进程开始联网".to_owned(),
                    detail: name.clone(),
                    process_name: Some(name.clone()),
                    remote_address: None,
                };
                alerts.push(alert);
                proof {
                    assert(alert@ == process_alert(keys[i as int]));
                    assert(alert_views(alerts@) =~= raised.push(alert@));
                    assert(alert_views(alerts@) =~= keys.take(i + 1).map_values(
                        |name: Seq<char>| process_alert(name),
                    ));
                }
            }
            assert(keys.take(entries@.len() as int) =~= keys);
        }
        let ghost processes = alert_views(alerts@);
        let ghost mut endpoints: Seq<AlertView> = Seq::empty();
        if self.policy.new_endpoint {
            let fresh = self.fresh_endpoints(observation);
            let entries = fresh.entries();
            let ghost keys = ordered::keys_of(entries@);
            proof {
                ordered::lemma_keys_in_order(entries@);
            }
            assert(alert_views(alerts@) =~= processes + keys.take(0).map_values(
                |endpoint: (Seq<char>, Seq<char>)| endpoint_alert(endpoint),
            ));
            for i in 0..entries.len()
                invariant
                    keys == ordered::keys_of(entries@),
                    alert_views(alerts@) == processes + keys.take(i as int).map_values(
                        |endpoint: (Seq<char>, Seq<char>)| endpoint_alert(endpoint),
                    ),
            {
                let endpoint = &entries[i].0;
                let ghost raised = alert_views(alerts@);
                let mut detail = endpoint.0.clone();
                detail.append(" → ");
                detail.append(endpoint.1.as_str());
                let alert = AlertSignal {
                    kind: AlertKind::NewEndpoint,
                    title: "发现新远程端点".to_owned(),
                    detail,
                    process_name: Some(endpoint.0.clone()),
                    remote_address: Some(endpoint.1.clone()),
                };
                alerts.push(alert);
                proof {
                    assert(alert@ == endpoint_alert(keys[i as int]));
                    assert(alert_views(alerts@) =~= raised.push(alert@));
                    assert(alert_views(alerts@) =~= processes + keys.take(i + 1).map_values(
                        |endpoint: (Seq<char>, Seq<char>)| endpoint_alert(endpoint),
                    ));
                }
            }
            assert(keys.take(entries@.len() as int) =~= keys);
            proof {
                endpoints = keys.map_values(
                    |endpoint: (Seq<char>, Seq<char>)| endpoint_alert(endpoint),
                );
            }
        }
        assert(alert_views(alerts@) =~= processes + endpoints);
        alerts
    }

    /// The processes that are new.
    fn fresh_processes(&self, observation: &AlertObservation) -> (fresh: SortedMap<String, ()>)
        requires
            self.well_formed(),
        ensures
            fresh.well_formed(),
            fresh@.dom() == self@.new_processes(observation@),
    {
        let names = &observation.process_names;
        let mut fresh: SortedMap<String, ()> = SortedMap::new();
        for i in 0..names.len()
            invariant
                self.well_formed(),
                fresh.well_formed(),
                names@ == observation.process_names@,
                forall|name: Seq<char>| #[trigger]
                    fresh@.dom().contains(name) <==> !self.known_processes@.dom().contains(name)
                        && exists|k: int| 0 <= k < i && (#[trigger] names@[k])@ == name,
        {
            if !self.known_processes.contains(&names[i]) {
                fresh.insert(names[i].clone(), ());
            }
        }
        assert(fresh@.dom() =~= self@.new_processes(observation@));
        fresh
    }

    /// The endpoints that are new.
    fn fresh_endpoints(&self, observation: &AlertObservation) -> (fresh: SortedMap<
        (String, String),
        (),
    >)
        requires
            self.well_formed(),
        ensures
            fresh.well_formed(),
            fresh@.dom() == self@.new_endpoints(observation@),
    {
        let endpoints = &observation.endpoints;
        let mut fresh: SortedMap<(String, String), ()> = SortedMap::new();
        for i in 0..endpoints.len()
            invariant
                self.well_formed(),
                fresh.well_formed(),
                endpoints@ == observation.endpoints@,
                forall|e: (Seq<char>, Seq<char>)| #[trigger]
                    fresh@.dom().contains(e) <==> !self.known_endpoints@.dom().contains(e)
                        && exists|k: int| 0 <= k < i && (#[trigger] endpoints@[k])@ == e,
        {
            if !self.known_endpoints.contains(&endpoints[i]) {
                fresh.insert((endpoints[i].0.clone(), endpoints[i].1.clone()), ());
            }
        }
        assert(fresh@.dom() =~= self@.new_endpoints(observation@));
        fresh
    }

    /// Remembers what was seen.
    fn remember(&mut self, observation: &AlertObservation)
        requires
            old(self).well_formed(),
        ensures
            final(self).well_formed(),
            final(self)@ == (AlertState {
                processes: old(self)@.processes.union(observation@.processes),
                endpoints: old(self)@.endpoints.union(observation@.endpoints),
                ..old(self)@
            }),
    {
        let names = &observation.process_names;
        let endpoints = &observation.endpoints;
        let ghost before = self@;
        for i in 0..names.len()
            invariant
                self.well_formed(),
                names@ == observation.process_names@,
                self@ == (AlertState { processes: self@.processes, ..before }),
                forall|name: Seq<char>| #[trigger]
                    self@.processes.contains(name) <==> before.processes.contains(name)
                        || exists|k: int| 0 <= k < i && (#[trigger] names@[k])@ == name,
        {
            self.known_processes.insert(names[i].clone(), ());
        }
        assert(self@.processes =~= before.processes.union(observation@.processes));
        for i in 0..endpoints.len()
            invariant
                self.well_formed(),
                endpoints@ == observation.endpoints@,
                self@ == (AlertState {
                    processes: before.processes.union(observation@.processes),
                    endpoints: self@.endpoints,
                    ..before
                }),
                forall|e: (Seq<char>, Seq<char>)| #[trigger]
                    self@.endpoints.contains(e) <==> before.endpoints.contains(e) || exists|k: int|
                        0 <= k < i && (#[trigger] endpoints@[k])@ == e,
        {
            self.known_endpoints.insert((endpoints[i].0.clone(), endpoints[i].1.clone()), ());
        }
        assert(self@.endpoints =~= before.endpoints.union(observation@.endpoints));
    }
}

/// The first observation raises no alert, whatever is there.
pub proof fn law_first_inventory_is_silent(state: AlertState, scene: Scene)
    requires
        !state.initialized,
    ensures
        state.alerts(scene).len() == 0,
        state.evaluated(scene).initialized,
{
}

/// While a rate stays over its threshold, the threshold is not reported again.
pub proof fn law_threshold_is_reported_once(state: AlertState, first: Scene, second: Scene)
    requires
        state.initialized,
    ensures
        first.sending >= state.policy.upload_threshold ==> forall|i: int|
            0 <= i < state.evaluated(first).alerts(second).len() ==> (
            #[trigger] state.evaluated(first).alerts(second)[i]).kind
                != AlertKind::UploadThreshold,
        first.receiving >= state.policy.download_threshold ==> forall|i: int|
            0 <= i < state.evaluated(first).alerts(second).len() ==> (
            #[trigger] state.evaluated(first).alerts(second)[i]).kind
                != AlertKind::DownloadThreshold,
{
}

/// What has been seen is not new again.
pub proof fn law_seen_is_not_new(state: AlertState, scene: Scene)
    ensures
        state.evaluated(scene).new_processes(scene) == Set::<Seq<char>>::empty(),
        state.evaluated(scene).new_endpoints(scene) == Set::<(Seq<char>, Seq<char>)>::empty(),
{
    assert(state.evaluated(scene).new_processes(scene) =~= Set::empty());
    assert(state.evaluated(scene).new_endpoints(scene) =~= Set::empty());
}

/// Whether an alert of a kind is among alerts.
pub open spec fn raised(alerts: Seq<AlertView>, kind: AlertKind) -> bool {
    exists|i: int| 0 <= i < alerts.len() && (#[trigger] alerts[i]).kind == kind
}

/// A rate that was under its threshold and reaches it is reported; one that stays under, or was over
/// it already, is not.
pub proof fn law_thresholds_are_reported(state: AlertState, first: Scene, second: Scene)
    requires
        state.initialized,
        state.processes.finite(),
        state.endpoints.finite(),
        second.processes.finite(),
        second.endpoints.finite(),
    ensures
        raised(state.evaluated(first).alerts(second), AlertKind::UploadThreshold) <==> (
        first.sending < state.policy.upload_threshold && second.sending
            >= state.policy.upload_threshold),
        raised(state.evaluated(first).alerts(second), AlertKind::DownloadThreshold) <==> (
        first.receiving < state.policy.download_threshold && second.receiving
            >= state.policy.download_threshold),
{
    let after = state.evaluated(first);
    lemma_alerts_by_kind(after, second);
}

/// Traffic in both directions that was there and has grown to a multiple of itself, the multiple of
/// the policy but at least twice, is reported as a spike; no other is.
pub proof fn law_spikes_are_reported(state: AlertState, first: Scene, second: Scene)
    requires
        second.processes.finite(),
        second.endpoints.finite(),
        first.sending + first.receiving <= u64::MAX,
        second.sending + second.receiving < u64::MAX,
    ensures
        ({
            let before = first.sending + first.receiving;
            let multiple = if state.policy.spike_multiplier < 2 {
                2
            } else {
                state.policy.spike_multiplier as int
            };
            raised(state.evaluated(first).alerts(second), AlertKind::TrafficSpike) <==> before > 0
                && second.sending + second.receiving >= before * multiple
        }),
{
    lemma_alerts_by_kind(state.evaluated(first), second);
}

/// Which alerts there are of each kind.
proof fn lemma_alerts_by_kind(state: AlertState, scene: Scene)
    requires
        state.initialized,
        scene.processes.finite(),
        scene.endpoints.finite(),
    ensures
        raised(state.alerts(scene), AlertKind::UploadThreshold) <==> scene.sending
            >= state.policy.upload_threshold && !state.upload_above,
        raised(state.alerts(scene), AlertKind::DownloadThreshold) <==> scene.receiving
            >= state.policy.download_threshold && !state.download_above,
        raised(state.alerts(scene), AlertKind::TrafficSpike) <==> state.spikes(scene),
{
    let alerts = state.alerts(scene);
    let news = state.novelty_alerts(scene);
    let n = news.len() as int;
    assert forall|i: int| 0 <= i < n implies (#[trigger] news[i]).kind == AlertKind::NewProcess
        || news[i].kind == AlertKind::NewEndpoint by {}
    assert forall|i: int| 0 <= i < n implies (#[trigger] alerts[i]) == news[i] by {}
    let upload = scene.sending >= state.policy.upload_threshold && !state.upload_above;
    let download = scene.receiving >= state.policy.download_threshold && !state.download_above;
    let second = n + (if upload {
        1int
    } else {
        0
    });
    let third = second + (if download {
        1int
    } else {
        0
    });
    assert(alerts.len() == third + (if state.spikes(scene) {
        1int
    } else {
        0
    }));
    if upload {
        assert(alerts[n].kind == AlertKind::UploadThreshold);
    }
    if download {
        assert(alerts[second].kind == AlertKind::DownloadThreshold);
    }
    if state.spikes(scene) {
        assert(alerts[third].kind == AlertKind::TrafficSpike);
    }
}

/// A process that was not seen before is reported as new where the policy asks for it, under its
/// name; so is a remote end of a process, under both names.
pub proof fn law_new_names_are_reported(state: AlertState, scene: Scene, name: Seq<char>, remote: Seq<
    char,
>)
    requires
        state.initialized,
        scene.processes.finite(),
        scene.endpoints.finite(),
    ensures
        state.policy.new_process && scene.processes.contains(name) && !state.processes.contains(name)
            ==> exists|i: int|
            0 <= i < state.alerts(scene).len() && (#[trigger] state.alerts(scene)[i]).kind
                == AlertKind::NewProcess && state.alerts(scene)[i].process_name == Some(name)
                && state.alerts(scene)[i].detail == name,
        state.policy.new_endpoint && scene.endpoints.contains((name, remote))
            && !state.endpoints.contains((name, remote)) ==> exists|i: int|
            0 <= i < state.alerts(scene).len() && (#[trigger] state.alerts(scene)[i]).kind
                == AlertKind::NewEndpoint && state.alerts(scene)[i].process_name == Some(name)
                && state.alerts(scene)[i].remote_address == Some(remote),
        state.evaluated(scene).processes.contains(name) <==> state.processes.contains(name)
            || scene.processes.contains(name),
        state.evaluated(scene).endpoints.contains((name, remote)) <==> state.endpoints.contains(
            (name, remote),
        ) || scene.endpoints.contains((name, remote)),
{
    let alerts = state.alerts(scene);
    let names = ordered::ordered_list::<String>(state.new_processes(scene));
    let ends = ordered::ordered_list::<(String, String)>(state.new_endpoints(scene));
    ordered::lemma_order_exists::<String>(state.new_processes(scene));
    ordered::lemma_order_exists::<(String, String)>(state.new_endpoints(scene));
    if state.policy.new_process && scene.processes.contains(name) && !state.processes.contains(
        name,
    ) {
        assert(state.new_processes(scene).contains(name));
        let i = choose|i: int| 0 <= i < names.len() && #[trigger] names[i] == name;
        assert(alerts[i] == process_alert(name));
    }
    if state.policy.new_endpoint && scene.endpoints.contains((name, remote))
        && !state.endpoints.contains((name, remote)) {
        assert(state.new_endpoints(scene).contains((name, remote)));
        let i = choose|i: int| 0 <= i < ends.len() && #[trigger] ends[i] == (name, remote);
        let n = if state.policy.new_process {
            names.len() as int
        } else {
            0
        };
        assert(alerts[n + i] == endpoint_alert((name, remote)));
    }
}

/// Where the policy does not ask for it, nothing is reported as new.
pub proof fn law_unasked_news_are_not_reported(state: AlertState, scene: Scene)
    requires
        state.initialized,
    ensures
        !state.policy.new_process ==> !raised(state.alerts(scene), AlertKind::NewProcess),
        !state.policy.new_endpoint ==> !raised(state.alerts(scene), AlertKind::NewEndpoint),
{
}

} // verus!
