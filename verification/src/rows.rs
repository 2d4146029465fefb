//! Which rows the window's tables show, and in what order.
use crate::address;
use crate::ordered;
use crate::recording::LiveRiskEvent;
use crate::risk::RiskLevel;
use crate::session::{AlertKind, AlertRecord};
use crate::snapshot::{ConnectionDetailSnapshot, ProcessTrafficSnapshot};
use crate::text;
use vstd::prelude::*;

verus! {

/// What a text is in lower case.
pub uninterp spec fn lowercase(s: Seq<char>) -> Seq<char>;

/// `str::to_lowercase` gives the lower case of a text, which depends on the text alone. Which
/// character becomes which is not stated.
#[verifier::external_body]
fn lower(s: &str) -> (text: String)
    ensures
        text@ == lowercase(s@),
{
    s.to_lowercase()
}

/// Whether a text occurs in another.
pub open spec fn occurs(s: Seq<char>, needle: Seq<char>) -> bool {
    exists|at: int| #[trigger] occurs_at(s, needle, at)
}

/// Whether a text occurs in another at a place.
pub open spec fn occurs_at(s: Seq<char>, needle: Seq<char>, at: int) -> bool {
    0 <= at && at + needle.len() <= s.len() && s.subrange(at, at + needle.len()) == needle
}

/// Whether a text occurs in another.
pub fn contains(s: &str, needle: &str) -> (r: bool)
    ensures
        r == occurs(s@, needle@),
{
    let chars = text::characters(s);
    let sought = text::characters(needle);
    if sought.len() > chars.len() {
        return false;
    }
    let last: usize = chars.len() - sought.len();
    let mut at: usize = 0;
    while at <= last
        invariant
            chars@ == s@,
            sought@ == needle@,
            last + sought@.len() == chars@.len(),
            at <= last + 1,
            forall|j: int| 0 <= j < at ==> !#[trigger] occurs_at(s@, needle@, j),
        decreases last + 1 - at,
    {
        let mut same = true;
        for i in 0..sought.len()
            invariant
                chars@ == s@,
                sought@ == needle@,
                at + sought.len() <= chars.len(),
                same == (forall|j: int|
                    #![trigger sought@[j]]
                    0 <= j < i ==> chars@[at + j] == sought@[j]),
        {
            if chars[at + i] != sought[i] {
                assert(chars@[at + i] != sought@[i as int]);
                same = false;
            }
        }
        if same {
            assert(s@.subrange(at as int, at + needle@.len()) =~= needle@);
            assert(occurs_at(s@, needle@, at as int));
            return true;
        }
        proof {
            let j = choose|j: int| 0 <= j < sought@.len() && chars@[at + j] != #[trigger] sought@[j];
            assert(s@.subrange(at as int, at + needle@.len())[j] == chars@[at + j]);
            assert(!occurs_at(s@, needle@, at as int));
        }
        if at == last {
            assert forall|j: int| !#[trigger] occurs_at(s@, needle@, j) by {}
            return false;
        }
        at = at + 1;
    }
    false
}

/// What orders the processes.
#[derive(Debug, Clone, Copy, PartialEq, Eq, Structural)]
pub enum ProcessSort {
    Rate,
    Send,
    Receive,
    Connections,
}

/// What a process is searched by.
pub open spec fn process_words(process: ProcessTrafficSnapshot) -> Seq<char> {
    text::decimal(process.pid as nat) + " "@ + text::text_or_none(text::optional(process.name))
        + " "@ + text::text_or_none(text::optional(process.image_path))
}

/// What a process is searched by: its number, its name and its path.
pub fn process_search_text(process: &ProcessTrafficSnapshot) -> (text: String)
    ensures
        text@ == process_words(*process),
{
    let mut text = text::decimal_text(process.pid as u64);
    text.append(" ");
    text.append(text::or_empty(&process.name).as_str());
    text.append(" ");
    text.append(text::or_empty(&process.image_path).as_str());
    text
}

/// What a process is ordered by.
pub open spec fn sort_key(process: ProcessTrafficSnapshot, sort: ProcessSort) -> u64 {
    match sort {
        ProcessSort::Rate => crate::model::saturated(
            process.send_bytes_per_second + process.receive_bytes_per_second,
        ),
        ProcessSort::Send => process.send_bytes_per_second,
        ProcessSort::Receive => process.receive_bytes_per_second,
        ProcessSort::Connections => process.connection_count as u64,
    }
}

fn key_of(process: &ProcessTrafficSnapshot, sort: ProcessSort) -> (key: u64)
    ensures
        key == sort_key(*process, sort),
{
    match sort {
        ProcessSort::Rate => process.send_bytes_per_second.saturating_add(
            process.receive_bytes_per_second,
        ),
        ProcessSort::Send => process.send_bytes_per_second,
        ProcessSort::Receive => process.receive_bytes_per_second,
        ProcessSort::Connections => process.connection_count as u64,
    }
}

/// The places of the processes that have a name and whose words hold what is sought.
pub open spec fn places_found(
    processes: Seq<ProcessTrafficSnapshot>,
    words: Seq<Seq<char>>,
    needle: Seq<char>,
) -> Seq<usize>
    decreases processes.len(),
{
    if processes.len() == 0 {
        Seq::empty()
    } else {
        let n = (processes.len() - 1) as nat;
        let earlier = places_found(processes.drop_last(), words, needle);
        if processes.last().name is Some && (needle.len() == 0 || occurs(words[n as int], needle)) {
            earlier.push(n as usize)
        } else {
            earlier
        }
    }
}

/// The places of processes in the order of a key, the largest first; those of one key keep their
/// order.
pub open spec fn largest_first(
    processes: Seq<ProcessTrafficSnapshot>,
    places: Seq<usize>,
    sort: ProcessSort,
) -> Seq<usize> {
    ordered::places_in_order::<u64>(
        places.map_values(
            |place: usize| (u64::MAX - sort_key(processes[place as int], sort)) as u64,
        ),
    ).map_values(|at: usize| places[at as int])
}

/// The places of the processes that are shown where each has the given words.
pub fn rows_for(
    processes: &[ProcessTrafficSnapshot],
    words: &Vec<String>,
    needle: &str,
    sort: ProcessSort,
) -> (rows: Vec<usize>)
    requires
        words@.len() == processes@.len(),
    ensures
        rows@ == largest_first(
            processes@,
            places_found(processes@, text::texts(words@), needle@),
            sort,
        ),
        forall|i: int| 0 <= i < rows@.len() ==> (#[trigger] rows@[i]) < processes@.len(),
{
    let ghost texts = text::texts(words@);
    let everything = text::equal(needle, "");
    proof {
        reveal_strlit("");
        if needle@.len() == 0 {
            assert(needle@ =~= ""@);
        }
    }
    let mut places: Vec<usize> = Vec::new();
    let mut keys: Vec<u64> = Vec::new();
    let n: usize = processes.len();
    assert(processes@.take(0) =~= Seq::<ProcessTrafficSnapshot>::empty());
    for i in 0..n
        invariant
            n == processes@.len(),
            n == words@.len(),
            texts == text::texts(words@),
            everything == (needle@.len() == 0),
            places@ == places_found(processes@.take(i as int), texts, needle@),
            keys@.len() == places@.len(),
            forall|j: int| 0 <= j < places@.len() ==> (#[trigger] places@[j]) < n,
            forall|j: int|
                0 <= j < keys@.len() ==> #[trigger] keys@[j] == (u64::MAX - sort_key(
                    processes@[places@[j] as int],
                    sort,
                )) as u64,
    {
        assert(processes@.take(i + 1).drop_last() =~= processes@.take(i as int));
        assert(texts[i as int] == words@[i as int]@);
        if processes[i].name.is_some() && (everything || contains(words[i].as_str(), needle)) {
            places.push(i);
            keys.push(u64::MAX - key_of(&processes[i], sort));
        }
    }
    assert(processes@.take(n as int) =~= processes@);
    let order = ordered::sort_places(keys.as_slice());
    let ghost ranks = places@.map_values(
        |place: usize| (u64::MAX - sort_key(processes@[place as int], sort)) as u64,
    );
    assert(ordered::key_views(keys@) =~= ranks);
    let mut rows: Vec<usize> = Vec::new();
    for i in 0..order.len()
        invariant
            order@.len() == places@.len(),
            forall|j: int| 0 <= j < order@.len() ==> (#[trigger] order@[j]) < places@.len(),
            forall|j: int| 0 <= j < places@.len() ==> (#[trigger] places@[j]) < n,
            rows@.len() == i,
            forall|j: int| 0 <= j < i ==> #[trigger] rows@[j] == places@[order@[j] as int],
    {
        rows.push(places[order[i]]);
    }
    assert(rows@ =~= largest_first(processes@, places@, sort));
    rows
}

/// The words of processes in lower case.
pub open spec fn lowered_words(processes: Seq<ProcessTrafficSnapshot>) -> Seq<Seq<char>> {
    processes.map_values(|process: ProcessTrafficSnapshot| lowercase(process_words(process)))
}

/// The places of the processes that a search finds, the largest by the chosen key first.
pub fn process_rows(
    processes: &[ProcessTrafficSnapshot],
    search: &str,
    sort: ProcessSort,
) -> (rows: Vec<usize>)
    ensures
        rows@ == largest_first(
            processes@,
            places_found(processes@, lowered_words(processes@), lowercase(search@)),
            sort,
        ),
        forall|i: int| 0 <= i < rows@.len() ==> (#[trigger] rows@[i]) < processes@.len(),
{
    let needle = lower(search);
    let mut words: Vec<String> = Vec::new();
    for i in 0..processes.len()
        invariant
            words@.len() == i,
            forall|j: int|
                0 <= j < i ==> (#[trigger] words@[j])@ == lowercase(process_words(processes@[j])),
    {
        words.push(lower(process_search_text(&processes[i]).as_str()));
    }
    assert(text::texts(words@) =~= lowered_words(processes@));
    rows_for(processes, &words, needle.as_str(), sort)
}

/// The rows are those that there are, each as often as it is there. No row has a larger key than
/// the row before it; rows of one key keep the order that they are in.
pub proof fn law_rows_are_largest_first(
    processes: Seq<ProcessTrafficSnapshot>,
    places: Seq<usize>,
    sort: ProcessSort,
)
    requires
        places.len() <= usize::MAX,
    ensures
        ({
            let list = largest_first(processes, places, sort);
            &&& list.len() == places.len()
            &&& list.to_multiset() == places.to_multiset()
            &&& forall|i: int, j: int|
                #![trigger list[i], list[j]]
                0 <= i < j < list.len() ==> {
                    let earlier = sort_key(processes[list[i] as int], sort);
                    let later = sort_key(processes[list[j] as int], sort);
                    earlier > later || (earlier == later && comes_first(places, list[i], list[j]))
                }
        }),
{
    let ranks = places.map_values(
        |place: usize| (u64::MAX - sort_key(processes[place as int], sort)) as u64,
    );
    ordered::law_places_are_in_order::<u64>(ranks);
    let order = ordered::places_in_order::<u64>(ranks);
    assert forall|i: int| 0 <= i < order.len() implies (#[trigger] order[i]) < places.len() by {}
    ordered::law_another_order_keeps_all(places, order);
    let list = largest_first(processes, places, sort);
    assert(list =~= ordered::rows_at(places, order));
    assert forall|i: int, j: int|
        #![trigger list[i], list[j]]
        0 <= i < j < list.len() implies {
        let earlier = sort_key(processes[list[i] as int], sort);
        let later = sort_key(processes[list[j] as int], sort);
        earlier > later || (earlier == later && comes_first(places, list[i], list[j]))
    } by {
        let p = order[i] as int;
        let q = order[j] as int;
        assert(list[i] == places[p] && list[j] == places[q]);
        assert(ranks[p] < ranks[q] || (ranks[p] == ranks[q] && p < q));
    }
}

/// Whether a place is found in a list before another.
pub open spec fn comes_first(places: Seq<usize>, a: usize, b: usize) -> bool {
    exists|p: int, q: int|
        #![trigger places[p], places[q]]
        0 <= p < q < places.len() && places[p] == a && places[q] == b
}

/// What a connection is searched by.
pub open spec fn connection_words(detail: ConnectionDetailSnapshot) -> Seq<char> {
    text::text_or_none(text::optional(detail.process_name)) + " "@ + text::decimal(
        detail.connection.pid as nat,
    ) + " "@ + address::socket_text(detail.connection.local) + " "@ + (
    match detail.connection.remote {
        Some(remote) => "Some("@ + address::socket_text(remote) + ")"@,
        None => "None"@,
    })
}

/// What a connection is searched by: its owner, the owner's number and both ends.
pub fn connection_search_text(detail: &ConnectionDetailSnapshot) -> (text: String)
    ensures
        text@ == connection_words(*detail),
{
    let mut text = text::or_empty(&detail.process_name);
    text.append(" ");
    text::put_number(&mut text, detail.connection.pid as u64);
    text.append(" ");
    text.append(detail.connection.local.text().as_str());
    text.append(" ");
    let remote = match detail.connection.remote {
        Some(remote) => {
            let mut shown = "Some(".to_owned();
            shown.append(remote.text().as_str());
            shown.append(")");
            shown
        },
        None => "None".to_owned(),
    };
    text.append(remote.as_str());
    text
}

/// The places of the words that hold what is sought.
pub open spec fn words_found(words: Seq<Seq<char>>, needle: Seq<char>) -> Seq<usize>
    decreases words.len(),
{
    if words.len() == 0 {
        Seq::empty()
    } else if needle.len() == 0 || occurs(words.last(), needle) {
        words_found(words.drop_last(), needle).push((words.len() - 1) as usize)
    } else {
        words_found(words.drop_last(), needle)
    }
}

/// The places of the words that hold what is sought.
pub fn find_words(words: &Vec<String>, needle: &str) -> (places: Vec<usize>)
    ensures
        places@ == words_found(text::texts(words@), needle@),
{
    let ghost texts = text::texts(words@);
    let everything = text::equal(needle, "");
    proof {
        reveal_strlit("");
        if needle@.len() == 0 {
            assert(needle@ =~= ""@);
        }
    }
    let mut places: Vec<usize> = Vec::new();
    assert(texts.take(0) =~= Seq::<Seq<char>>::empty());
    for i in 0..words.len()
        invariant
            texts == text::texts(words@),
            everything == (needle@.len() == 0),
            places@ == words_found(texts.take(i as int), needle@),
    {
        assert(texts.take(i + 1).drop_last() =~= texts.take(i as int));
        assert(texts[i as int] == words@[i as int]@);
        if everything || contains(words[i].as_str(), needle) {
            places.push(i);
        }
    }
    assert(texts.take(texts.len() as int) =~= texts);
    places
}

/// The words of connections in lower case.
pub open spec fn lowered_connections(details: Seq<ConnectionDetailSnapshot>) -> Seq<Seq<char>> {
    details.map_values(|detail: ConnectionDetailSnapshot| lowercase(connection_words(detail)))
}

/// The places of the connections that a search finds.
pub fn connection_rows(details: &[ConnectionDetailSnapshot], search: &str) -> (rows: Vec<usize>)
    ensures
        rows@ == words_found(lowered_connections(details@), lowercase(search@)),
{
    let needle = lower(search);
    let mut words: Vec<String> = Vec::new();
    for i in 0..details.len()
        invariant
            words@.len() == i,
            forall|j: int|
                0 <= j < i ==> (#[trigger] words@[j])@ == lowercase(connection_words(details@[j])),
    {
        words.push(lower(connection_search_text(&details[i]).as_str()));
    }
    assert(text::texts(words@) =~= lowered_connections(details@));
    find_words(&words, needle.as_str())
}

/// Whether any alert carries a score.
pub open spec fn any_scored(alerts: Seq<AlertRecord>) -> bool {
    exists|i: int| 0 <= i < alerts.len() && (#[trigger] alerts[i]).kind == AlertKind::RiskEvent
}

/// The places of the alerts that are shown: those with a score where there are any, else all.
pub open spec fn alerts_shown(alerts: Seq<AlertRecord>, scored_only: bool) -> Seq<usize>
    decreases alerts.len(),
{
    if alerts.len() == 0 {
        Seq::empty()
    } else if !scored_only || alerts.last().kind == AlertKind::RiskEvent {
        alerts_shown(alerts.drop_last(), scored_only).push((alerts.len() - 1) as usize)
    } else {
        alerts_shown(alerts.drop_last(), scored_only)
    }
}

/// The places of the alerts that are shown, and how many are not.
pub fn visible_alerts(alerts: &Vec<AlertRecord>) -> (shown: (Vec<usize>, usize))
    ensures
        shown.0@ == alerts_shown(alerts@, any_scored(alerts@)),
        shown.1 == alerts@.len() - shown.0@.len(),
{
    let mut scored = false;
    for i in 0..alerts.len()
        invariant
            scored == (exists|j: int|
                0 <= j < i && (#[trigger] alerts@[j]).kind == AlertKind::RiskEvent),
    {
        if alerts[i].kind == AlertKind::RiskEvent {
            assert(alerts@[i as int].kind == AlertKind::RiskEvent);
            scored = true;
        }
    }
    let mut places: Vec<usize> = Vec::new();
    assert(alerts@.take(0) =~= Seq::<AlertRecord>::empty());
    for i in 0..alerts.len()
        invariant
            places@ == alerts_shown(alerts@.take(i as int), scored),
            places@.len() <= i,
    {
        assert(alerts@.take(i + 1).drop_last() =~= alerts@.take(i as int));
        if !scored || alerts[i].kind == AlertKind::RiskEvent {
            places.push(i);
        }
    }
    assert(alerts@.take(alerts@.len() as int) =~= alerts@);
    let hidden: usize = alerts.len() - places.len();
    (places, hidden)
}

/// The last high risk among events that is newer than the one shown last.
pub open spec fn newest_high(events: Seq<LiveRiskEvent>, last: u64) -> Option<LiveRiskEvent>
    decreases events.len(),
{
    if events.len() == 0 {
        None
    } else if events.last().level == RiskLevel::High && events.last().id > last {
        Some(events.last())
    } else {
        newest_high(events.drop_last(), last)
    }
}

/// The high risk that is to be shown next, if any.
pub fn next_popup(events: &Vec<LiveRiskEvent>, last_shown: u64) -> (event: Option<LiveRiskEvent>)
    ensures
        event == newest_high(events@, last_shown),
{
    let mut n: usize = events.len();
    assert(events@.take(n as int) =~= events@);
    while n > 0
        invariant
            n <= events@.len(),
            newest_high(events@, last_shown) == newest_high(events@.take(n as int), last_shown),
        decreases n,
    {
        assert(events@.take(n as int).drop_last() =~= events@.take(n - 1));
        assert(events@.take(n as int).last() == events@[n - 1]);
        if events[n - 1].level == RiskLevel::High && events[n - 1].id > last_shown {
            return Some(events[n - 1].clone());
        }
        n = n - 1;
    }
    None
}

/// A high risk is shown at most once: what is shown next is high and newer than what was shown last.
pub proof fn law_popup_is_new_and_high(events: Seq<LiveRiskEvent>, last: u64)
    ensures
        match newest_high(events, last) {
            Some(event) => event.level == RiskLevel::High && event.id > last && events.contains(
                event,
            ),
            None => forall|i: int|
                0 <= i < events.len() ==> !((#[trigger] events[i]).level == RiskLevel::High
                    && events[i].id > last),
        },
    decreases events.len(),
{
    if events.len() > 0 {
        let rest = events.drop_last();
        law_popup_is_new_and_high(rest, last);
        let n = events.len() - 1;
        if events[n].level == RiskLevel::High && events[n].id > last {
            assert(events.contains(events[n]));
        } else if newest_high(rest, last) is Some {
            let at = choose|i: int| 0 <= i < rest.len() && rest[i] == newest_high(rest, last)->0;
            assert(events[at] == newest_high(rest, last)->0);
        } else {
            assert forall|i: int| 0 <= i < events.len() implies !((#[trigger] events[i]).level
                == RiskLevel::High && events[i].id > last) by {
                if i < n {
                    assert(rest[i] == events[i]);
                }
            }
        }
    }
}

/// What processes are put in order by.
pub proof fn law_columns_to_sort_by(process: ProcessTrafficSnapshot)
    ensures
        process.send_bytes_per_second + process.receive_bytes_per_second <= u64::MAX ==> sort_key(
            process,
            ProcessSort::Rate,
        ) == process.send_bytes_per_second + process.receive_bytes_per_second,
        sort_key(process, ProcessSort::Send) == process.send_bytes_per_second,
        sort_key(process, ProcessSort::Receive) == process.receive_bytes_per_second,
        sort_key(process, ProcessSort::Connections) == process.connection_count,
{
}

/// A process with a name is found where what is searched for stands in its words, or nothing is
/// searched for; one without a name is not shown.
pub proof fn law_named_processes_are_found(
    processes: Seq<ProcessTrafficSnapshot>,
    words: Seq<Seq<char>>,
    needle: Seq<char>,
    place: usize,
)
    requires
        processes.len() <= usize::MAX,
        place < processes.len(),
    ensures
        places_found(processes, words, needle).contains(place) <==> processes[place as int].name
            is Some && (needle.len() == 0 || exists|at: int|
            0 <= at && at + needle.len() <= words[place as int].len()
                && #[trigger] words[place as int].subrange(at, at + needle.len()) == needle),
    decreases processes.len(),
{
    let n = processes.len() - 1;
    let earlier = places_found(processes.drop_last(), words, needle);
    let found = places_found(processes, words, needle);
    lemma_places_below(processes.drop_last(), words, needle);
    if occurs(words[place as int], needle) {
        let at = choose|at: int| occurs_at(words[place as int], needle, at);
        assert(words[place as int].subrange(at, at + needle.len()) == needle);
    }
    if exists|at: int|
        0 <= at && at + needle.len() <= words[place as int].len()
            && #[trigger] words[place as int].subrange(at, at + needle.len()) == needle {
        let at = choose|at: int|
            0 <= at && at + needle.len() <= words[place as int].len()
                && #[trigger] words[place as int].subrange(at, at + needle.len()) == needle;
        assert(occurs_at(words[place as int], needle, at));
    }
    if place < n {
        law_named_processes_are_found(processes.drop_last(), words, needle, place);
        assert(processes.drop_last()[place as int] == processes[place as int]);
        if earlier.contains(place) {
            let i = choose|i: int| 0 <= i < earlier.len() && earlier[i] == place;
            assert(found[i] == place);
        }
    } else {
        assert(!earlier.contains(place));
        if found.len() > earlier.len() {
            assert(found[earlier.len() as int] == place);
        }
    }
}

proof fn lemma_places_below(
    processes: Seq<ProcessTrafficSnapshot>,
    words: Seq<Seq<char>>,
    needle: Seq<char>,
)
    requires
        processes.len() <= usize::MAX,
    ensures
        forall|i: int|
            0 <= i < places_found(processes, words, needle).len() ==> (#[trigger] places_found(
                processes,
                words,
                needle,
            )[i]) < processes.len(),
    decreases processes.len(),
{
    if processes.len() > 0 {
        lemma_places_below(processes.drop_last(), words, needle);
        let earlier = places_found(processes.drop_last(), words, needle);
        let found = places_found(processes, words, needle);
        assert forall|i: int| 0 <= i < found.len() implies (#[trigger] found[i])
            < processes.len() by {
            if i < earlier.len() {
                assert(found[i] == earlier[i]);
            }
        }
    }
}

} // verus!
