//! Traffic by flow.
use crate::model;
use crate::model::{FlowKey, FlowSnapshot, NetworkEvent};
use crate::ordered;
use crate::ordered::{OrderedKey, SortedMap};
use vstd::prelude::*;

verus! {

/// A flow before its first event, which comes at `timestamp`.
pub open spec fn fresh_flow(key: FlowKey, timestamp: u64) -> FlowSnapshot {
    FlowSnapshot {
        key,
        process_key: None,
        events: 0,
        bytes: 0,
        first_timestamp_unix_nanos: timestamp,
        last_timestamp_unix_nanos: timestamp,
    }
}

/// A flow with one more event.
pub open spec fn counted(flow: FlowSnapshot, event: NetworkEvent) -> FlowSnapshot {
    FlowSnapshot {
        events: model::saturated(flow.events + 1),
        bytes: model::saturated(flow.bytes + event.bytes),
        first_timestamp_unix_nanos: if event.timestamp_unix_nanos < flow.first_timestamp_unix_nanos {
            event.timestamp_unix_nanos
        } else {
            flow.first_timestamp_unix_nanos
        },
        last_timestamp_unix_nanos: if event.timestamp_unix_nanos > flow.last_timestamp_unix_nanos {
            event.timestamp_unix_nanos
        } else {
            flow.last_timestamp_unix_nanos
        },
        ..flow
    }
}

/// Flows with one more event.
pub open spec fn recorded(flows: Map<FlowKey, FlowSnapshot>, event: NetworkEvent) -> Map<
    FlowKey,
    FlowSnapshot,
> {
    let key = model::key_of(event);
    let flow = if flows.dom().contains(key) {
        flows[key]
    } else {
        fresh_flow(key, event.timestamp_unix_nanos)
    };
    flows.insert(key, counted(flow, event))
}

/// Flows without those last seen before a time.
pub open spec fn since(flows: Map<FlowKey, FlowSnapshot>, minimum: u64) -> Map<
    FlowKey,
    FlowSnapshot,
> {
    flows.restrict(Set::new(|key: FlowKey| flows[key].last_timestamp_unix_nanos >= minimum))
}

/// Whether a list holds every flow once, in the order of the keys.
pub open spec fn listed_as(flows: Map<FlowKey, FlowSnapshot>, list: Seq<FlowSnapshot>) -> bool {
    &&& forall|i: int, j: int|
        #![trigger list[i], list[j]]
        0 <= i < j < list.len() ==> FlowKey::before(list[i].key, list[j].key)
    &&& forall|i: int|
        0 <= i < list.len() ==> flows.dom().contains((#[trigger] list[i]).key)
            && flows[list[i].key] == list[i]
    &&& forall|key: FlowKey| #[trigger]
        flows.dom().contains(key) ==> exists|i: int|
            0 <= i < list.len() && (#[trigger] list[i]).key == key
}

/// Aggregates events by flow.
#[derive(Debug)]
pub struct TrafficAggregator {
    flows: SortedMap<FlowKey, FlowSnapshot>,
}

impl View for TrafficAggregator {
    type V = Map<FlowKey, FlowSnapshot>;

    closed spec fn view(&self) -> Map<FlowKey, FlowSnapshot> {
        self.flows@
    }
}

impl Default for TrafficAggregator {
    fn default() -> (aggregator: TrafficAggregator)
        ensures
            aggregator.well_formed(),
            aggregator@ == Map::<FlowKey, FlowSnapshot>::empty(),
    {
        TrafficAggregator { flows: SortedMap::new() }
    }
}

impl TrafficAggregator {
    /// Every flow is kept once, under its own key.
    pub closed spec fn well_formed(&self) -> bool {
        &&& self.flows.well_formed()
        &&& forall|key: FlowKey| #[trigger]
            self.flows@.dom().contains(key) ==> self.flows@[key].key == key
    }

    /// Counts an event in its flow.
    pub fn record(&mut self, event: &NetworkEvent)
        requires
            old(self).well_formed(),
        ensures
            final(self).well_formed(),
            final(self)@ == recorded(old(self)@, *event),
    {
        let key = FlowKey::from(event);
        let fresh = FlowSnapshot {
            key,
            process_key: None,
            events: 0,
            bytes: 0,
            first_timestamp_unix_nanos: event.timestamp_unix_nanos,
            last_timestamp_unix_nanos: event.timestamp_unix_nanos,
        };
        let aggregate = self.flows.entry(key, fresh);
        aggregate.events = aggregate.events.saturating_add(1);
        aggregate.bytes = aggregate.bytes.saturating_add(event.bytes);
        if event.timestamp_unix_nanos < aggregate.first_timestamp_unix_nanos {
            aggregate.first_timestamp_unix_nanos = event.timestamp_unix_nanos;
        }
        if event.timestamp_unix_nanos > aggregate.last_timestamp_unix_nanos {
            aggregate.last_timestamp_unix_nanos = event.timestamp_unix_nanos;
        }
    }

    /// Every flow, in the order of the keys.
    pub fn snapshot(&self) -> (list: Vec<FlowSnapshot>)
        requires
            self.well_formed(),
        ensures
            listed_as(self@, list@),
    {
        let entries = self.flows.entries();
        let mut list: Vec<FlowSnapshot> = Vec::new();
        for i in 0..entries.len()
            invariant
                entries@ == self.flows.listing(),
                list@.len() == i,
                forall|j: int| 0 <= j < i ==> #[trigger] list@[j] == entries@[j].1,
        {
            list.push(entries[i].1);
        }
        proof {
            let all = self.flows.listing();
            assert forall|i: int| 0 <= i < list@.len() implies self@.dom().contains(
                (#[trigger] list@[i]).key,
            ) && self@[list@[i].key] == list@[i] && list@[i].key == all[i].0 by {
                ordered::lemma_entry_in_map(all, i);
            }
            assert forall|i: int, j: int|
                #![trigger list@[i], list@[j]]
                0 <= i < j < list@.len() implies FlowKey::before(list@[i].key, list@[j].key) by {
                assert(FlowKey::before(all[i].0@, all[j].0@));
            }
            assert forall|key: FlowKey| #[trigger]
                self@.dom().contains(key) implies exists|i: int|
                0 <= i < list@.len() && (#[trigger] list@[i]).key == key by {
                let i = choose|i: int| 0 <= i < all.len() && (#[trigger] all[i]).0@ == key;
                assert(list@[i].key == key);
            }
        }
        list
    }

    /// Forgets the flows whose last event came before a time.
    pub fn retain_since(&mut self, minimum_timestamp_unix_nanos: u64)
        requires
            old(self).well_formed(),
        ensures
            final(self).well_formed(),
            final(self)@ == since(old(self)@, minimum_timestamp_unix_nanos),
    {
        let ghost recent = |k: FlowKey, flow: FlowSnapshot|
            flow.last_timestamp_unix_nanos >= minimum_timestamp_unix_nanos;
        let keep = |k: &FlowKey, flow: &FlowSnapshot| -> (r: bool)
            ensures
                r == recent(k@, *flow)
        {
            flow.last_timestamp_unix_nanos >= minimum_timestamp_unix_nanos
        };
        self.flows.retain(keep, Ghost(recent));
        assert(self@ =~= since(old(self)@, minimum_timestamp_unix_nanos));
    }

    /// Keeps no more than `maximum` flows; those last seen longest ago go first.
    pub fn trim_to_maximum(&mut self, maximum: usize)
        requires
            old(self).well_formed(),
        ensures
            final(self).well_formed(),
            ordered::newest_kept::<FlowKey, FlowSnapshot>(
                old(self)@,
                final(self)@,
                maximum as nat,
                |flow: FlowSnapshot| flow.last_timestamp_unix_nanos,
            ),
    {
        let ghost last = |flow: FlowSnapshot| flow.last_timestamp_unix_nanos;
        let age = |flow: &FlowSnapshot| -> (r: u64)
            ensures
                r == last(*flow)
        {
            flow.last_timestamp_unix_nanos
        };
        let ghost before = self.flows@;
        self.flows.keep_newest(maximum, age, Ghost(last));
        assert forall|key: FlowKey| #[trigger]
            self.flows@.dom().contains(key) implies before.dom().contains(key)
            && self.flows@[key] == before[key] by {}
    }
}

/// Events of one flow are counted together, and no other flow is touched.
pub proof fn law_events_are_grouped(
    flows: Map<FlowKey, FlowSnapshot>,
    first: NetworkEvent,
    second: NetworkEvent,
)
    requires
        model::key_of(first) == model::key_of(second),
    ensures
        ({
            let key = model::key_of(first);
            let both = recorded(recorded(flows, first), second);
            &&& both.dom() == flows.dom().insert(key)
            &&& both[key] == counted(recorded(flows, first)[key], second)
            &&& !flows.dom().contains(key) ==> both[key].events == 2 && both[key].bytes
                == model::saturated(first.bytes + second.bytes)
            &&& forall|other: FlowKey| other != key ==> #[trigger] both[other] == flows[other]
        }),
{
    let both = recorded(recorded(flows, first), second);
    assert(both.dom() =~= flows.dom().insert(model::key_of(first)));
}

/// Flows once a run of events has been counted.
pub open spec fn recorded_all(flows: Map<FlowKey, FlowSnapshot>, events: Seq<NetworkEvent>) -> Map<
    FlowKey,
    FlowSnapshot,
>
    decreases events.len(),
{
    if events.len() == 0 {
        flows
    } else {
        recorded(recorded_all(flows, events.drop_last()), events.last())
    }
}

/// The events of a flow.
pub open spec fn events_of(events: Seq<NetworkEvent>, key: FlowKey) -> nat
    decreases events.len(),
{
    if events.len() == 0 {
        0
    } else {
        events_of(events.drop_last(), key) + (if model::key_of(events.last()) == key {
            1nat
        } else {
            0nat
        })
    }
}

/// The bytes of a flow's events.
pub open spec fn bytes_of(events: Seq<NetworkEvent>, key: FlowKey) -> nat
    decreases events.len(),
{
    if events.len() == 0 {
        0
    } else {
        bytes_of(events.drop_last(), key) + (if model::key_of(events.last()) == key {
            events.last().bytes as nat
        } else {
            0nat
        })
    }
}

/// The time of a flow's earliest event, where it has one.
pub open spec fn first_of(events: Seq<NetworkEvent>, key: FlowKey) -> Option<u64>
    decreases events.len(),
{
    if events.len() == 0 {
        None
    } else {
        let earlier = first_of(events.drop_last(), key);
        let time = events.last().timestamp_unix_nanos;
        if model::key_of(events.last()) == key && (earlier is None || time < earlier->0) {
            Some(time)
        } else {
            earlier
        }
    }
}

/// The time of a flow's latest event, where it has one.
pub open spec fn last_of(events: Seq<NetworkEvent>, key: FlowKey) -> Option<u64>
    decreases events.len(),
{
    if events.len() == 0 {
        None
    } else {
        let earlier = last_of(events.drop_last(), key);
        let time = events.last().timestamp_unix_nanos;
        if model::key_of(events.last()) == key && (earlier is None || time > earlier->0) {
            Some(time)
        } else {
            earlier
        }
    }
}

/// Counted from the beginning, there is a flow for each key of an event and no other, with the
/// number of its events and the sum of their bytes, each held at the largest value, and with the
/// times of its earliest and its latest event.
pub proof fn law_flows_sum_their_events(events: Seq<NetworkEvent>, key: FlowKey)
    ensures
        ({
            let flows = recorded_all(Map::empty(), events);
            &&& flows.dom().contains(key) <==> events_of(events, key) > 0
            &&& flows.dom().contains(key) ==> {
                &&& flows[key].key == key
                &&& flows[key].events == model::saturated(events_of(events, key) as int)
                &&& flows[key].bytes == model::saturated(bytes_of(events, key) as int)
                &&& first_of(events, key) == Some(flows[key].first_timestamp_unix_nanos)
                &&& last_of(events, key) == Some(flows[key].last_timestamp_unix_nanos)
            }
            &&& events_of(events, key) == 0 ==> first_of(events, key) is None && last_of(
                events,
                key,
            ) is None
            &&& events_of(events, key) == 0 ==> bytes_of(events, key) == 0
        }),
    decreases events.len(),
{
    if events.len() > 0 {
        law_flows_sum_their_events(events.drop_last(), key);
    }
}

/// Two events may be counted in either order.
proof fn lemma_events_commute(
    flows: Map<FlowKey, FlowSnapshot>,
    first: NetworkEvent,
    second: NetworkEvent,
)
    ensures
        recorded(recorded(flows, first), second) == recorded(recorded(flows, second), first),
{
    let one = recorded(recorded(flows, first), second);
    let other = recorded(recorded(flows, second), first);
    assert(one.dom() =~= other.dom());
    assert(one =~= other);
}

/// The event at a place may be counted last.
proof fn lemma_counted_last(
    flows: Map<FlowKey, FlowSnapshot>,
    events: Seq<NetworkEvent>,
    at: int,
)
    requires
        0 <= at < events.len(),
    ensures
        recorded_all(flows, events) == recorded(recorded_all(flows, events.remove(at)), events[at]),
    decreases events.len(),
{
    if at == events.len() - 1 {
        assert(events.remove(at) =~= events.drop_last());
    } else {
        let shorter = events.drop_last();
        lemma_counted_last(flows, shorter, at);
        assert(events.remove(at).drop_last() =~= shorter.remove(at));
        assert(events.remove(at).last() == events.last());
        lemma_events_commute(
            recorded_all(flows, shorter.remove(at)),
            events[at],
            events.last(),
        );
    }
}

/// The flows do not depend on the order in which events are counted; nor does their list, of which
/// there is one.
pub proof fn law_order_of_events_does_not_matter(
    flows: Map<FlowKey, FlowSnapshot>,
    first: Seq<NetworkEvent>,
    second: Seq<NetworkEvent>,
)
    requires
        first.to_multiset() == second.to_multiset(),
    ensures
        recorded_all(flows, first) == recorded_all(flows, second),
    decreases first.len(),
{
    vstd::seq_lib::to_multiset_len(first);
    vstd::seq_lib::to_multiset_len(second);
    if second.len() > 0 {
        let event = second.last();
        vstd::seq_lib::to_multiset_contains(second, event);
        vstd::seq_lib::to_multiset_contains(first, event);
        assert(second[second.len() - 1] == event);
        let at = choose|at: int| 0 <= at < first.len() && first[at] == event;
        lemma_counted_last(flows, first, at);
        vstd::seq_lib::to_multiset_remove(first, at);
        vstd::seq_lib::to_multiset_remove(second, second.len() - 1);
        assert(second.remove(second.len() - 1) =~= second.drop_last());
        law_order_of_events_does_not_matter(flows, first.remove(at), second.drop_last());
    }
}

/// There is one list of given flows.
pub proof fn law_flows_have_one_list(
    flows: Map<FlowKey, FlowSnapshot>,
    list: Seq<FlowSnapshot>,
    other: Seq<FlowSnapshot>,
)
    requires
        listed_as(flows, list),
        listed_as(flows, other),
    ensures
        list == other,
{
    let keys = list.map_values(|flow: FlowSnapshot| flow.key);
    let others = other.map_values(|flow: FlowSnapshot| flow.key);
    lemma_keys_listed(flows, list);
    lemma_keys_listed(flows, other);
    ordered::lemma_one_order::<FlowKey>(keys, others, flows.dom());
    assert(list.len() == keys.len() && other.len() == others.len());
    assert forall|i: int| 0 <= i < list.len() implies list[i] == other[i] by {
        assert(keys[i] == others[i]);
    }
    assert(list =~= other);
}

proof fn lemma_keys_listed(flows: Map<FlowKey, FlowSnapshot>, list: Seq<FlowSnapshot>)
    requires
        listed_as(flows, list),
    ensures
        ordered::in_order::<FlowKey>(
            list.map_values(|flow: FlowSnapshot| flow.key),
            flows.dom(),
        ),
{
    let keys = list.map_values(|flow: FlowSnapshot| flow.key);
    assert forall|key: FlowKey| #[trigger] flows.dom().contains(key) implies exists|i: int|
        0 <= i < keys.len() && #[trigger] keys[i] == key by {
        let i = choose|i: int| 0 <= i < list.len() && (#[trigger] list[i]).key == key;
        assert(keys[i] == key);
    }
}

/// Forgetting twice what is older than a time is the same as forgetting it once.
pub proof fn law_forgetting_is_idempotent(flows: Map<FlowKey, FlowSnapshot>, minimum: u64)
    ensures
        since(since(flows, minimum), minimum) == since(flows, minimum),
{
    assert(since(since(flows, minimum), minimum) =~= since(flows, minimum));
}

/// A flow is forgotten if and only if its newest event is older than the time given.
pub proof fn law_old_flows_are_forgotten(
    flows: Map<FlowKey, FlowSnapshot>,
    minimum: u64,
    key: FlowKey,
)
    ensures
        since(flows, minimum).dom().contains(key) <==> flows.dom().contains(key)
            && flows[key].last_timestamp_unix_nanos >= minimum,
        since(flows, minimum).dom().contains(key) ==> since(flows, minimum)[key] == flows[key],
{
}

} // verus!
