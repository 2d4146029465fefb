//! What the window decides: its pages, its updates and when a smoke run closes it.
use crate::controller::SessionUiState;
use crate::export;
use crate::model::{ProcessIconState, ProcessSnapshot, SystemSnapshot};
use crate::session::{SessionId, SessionRecord};
use crate::snapshot::{ApplicationSnapshot, ProcessTrafficSnapshot};
use crate::text;
use vstd::prelude::*;

verus! {

/// The pages of the window.
#[derive(Debug, Clone, Copy, PartialEq, Eq, Structural)]
pub enum Page {
    Overview,
    Processes,
    Connections,
    Sessions,
    Compare,
    Alerts,
    Settings,
    About,
}

/// The page that a word asks for.
pub open spec fn page_of(word: Option<Seq<char>>) -> Page {
    match word {
        None => Page::Overview,
        Some(word) => if word == "processes"@ {
            Page::Processes
        } else if word == "connections"@ {
            Page::Connections
        } else if word == "sessions"@ {
            Page::Sessions
        } else if word == "compare"@ {
            Page::Compare
        } else if word == "alerts"@ {
            Page::Alerts
        } else if word == "settings"@ {
            Page::Settings
        } else if word == "about"@ {
            Page::About
        } else {
            Page::Overview
        },
    }
}

/// The page that a word asks for; every other word, and none, asks for the overview.
pub fn initial_page(word: &Option<String>) -> (page: Page)
    ensures
        page == page_of(text::optional(*word)),
{
    let word = match word {
        None => {
            return Page::Overview;
        },
        Some(word) => word.as_str(),
    };
    if text::equal(word, "processes") {
        Page::Processes
    } else if text::equal(word, "connections") {
        Page::Connections
    } else if text::equal(word, "sessions") {
        Page::Sessions
    } else if text::equal(word, "compare") {
        Page::Compare
    } else if text::equal(word, "alerts") {
        Page::Alerts
    } else if text::equal(word, "settings") {
        Page::Settings
    } else if text::equal(word, "about") {
        Page::About
    } else {
        Page::Overview
    }
}

/// The word over a page.
pub fn page_heading(page: Page) -> (heading: &'static str)
    ensures
        heading@ == (match page {
            Page::Overview => "网络总览"@,
            Page::Processes => "进程流量"@,
            Page::Connections => "连接详情"@,
            Page::Sessions => "历史会话"@,
            Page::Compare => "会话对比"@,
            Page::Alerts => "本地提醒"@,
            Page::Settings => "设置"@,
            Page::About => "关于 ProcNet Recorder"@,
        }),
{
    match page {
        Page::Overview => "网络总览",
        Page::Processes => "进程流量",
        Page::Connections => "连接详情",
        Page::Sessions => "历史会话",
        Page::Compare => "会话对比",
        Page::Alerts => "本地提醒",
        Page::Settings => "设置",
        Page::About => "关于 ProcNet Recorder",
    }
}

/// How often the system's tables were seen to be read anew.
#[derive(Debug, Clone, Copy, PartialEq, Eq, Structural)]
pub struct RefreshCount {
    pub last_capture: Option<u64>,
    pub refreshes: u64,
}

impl RefreshCount {
    /// Nothing was seen yet.
    pub fn new() -> (count: RefreshCount)
        ensures
            count == (RefreshCount { last_capture: None, refreshes: 0 }),
    {
        RefreshCount { last_capture: None, refreshes: 0 }
    }

    /// Counts a snapshot whose tables were read at another time than the last.
    pub fn see(&mut self, captured_at: Option<u64>)
        ensures
            *final(self) == (if captured_at is Some && captured_at != old(self).last_capture {
                RefreshCount {
                    last_capture: captured_at,
                    refreshes: crate::model::saturated(old(self).refreshes + 1),
                }
            } else {
                *old(self)
            }),
    {
        if captured_at.is_some() && captured_at != self.last_capture {
            self.refreshes = self.refreshes.saturating_add(1);
            self.last_capture = captured_at;
        }
    }
}

/// What is done so that a picture of a page shows something.
#[derive(Debug, Clone, Copy, PartialEq, Eq, Structural)]
pub enum SeedStep {
    /// The page shows what it can.
    Done,
    /// Nothing can be chosen yet.
    Wait,
    /// A session is chosen.
    Select(SessionId),
    /// Two sessions are compared.
    Compare(SessionId, SessionId),
}

/// What is done so that a picture of a page shows something.
pub open spec fn seed_of(
    page: Page,
    selected: bool,
    compared: bool,
    sessions: Seq<SessionRecord>,
) -> SeedStep {
    match page {
        Page::Sessions | Page::Alerts => if selected {
            SeedStep::Done
        } else if sessions.len() > 0 {
            SeedStep::Select(sessions[0].id)
        } else {
            SeedStep::Wait
        },
        Page::Compare => if compared {
            SeedStep::Done
        } else if sessions.len() >= 2 {
            SeedStep::Compare(sessions[0].id, sessions[1].id)
        } else {
            SeedStep::Wait
        },
        _ => SeedStep::Done,
    }
}

/// What is done so that a picture of a page shows something.
pub fn seed_step(page: Page, state: &SessionUiState) -> (step: SeedStep)
    ensures
        step == seed_of(
            page,
            state.selected is Some,
            state.compare_left is Some && state.compare_right is Some,
            state.sessions@,
        ),
{
    match page {
        Page::Sessions | Page::Alerts => {
            if state.selected.is_some() {
                SeedStep::Done
            } else if state.sessions.len() > 0 {
                SeedStep::Select(state.sessions[0].id)
            } else {
                SeedStep::Wait
            }
        },
        Page::Compare => {
            if state.compare_left.is_some() && state.compare_right.is_some() {
                SeedStep::Done
            } else if state.sessions.len() >= 2 {
                SeedStep::Compare(state.sessions[0].id, state.sessions[1].id)
            } else {
                SeedStep::Wait
            }
        },
        _ => SeedStep::Done,
    }
}

/// What a smoke run does once its time is over.
#[derive(Debug, Clone, Copy, PartialEq, Eq, Structural)]
pub enum CloseStep {
    /// The recording is stopped, and half a second is given to it.
    StopRecording,
    /// A quarter of a second is given to the picture.
    WaitForPicture,
    /// The report is printed and the window closes.
    ReportAndClose,
    /// Nothing is left to do.
    Nothing,
}

/// What a smoke run does once its time is over.
pub fn close_step(stop_requested: bool, picture_outstanding: bool, reported: bool) -> (step:
    CloseStep)
    ensures
        step == (if !stop_requested {
            CloseStep::StopRecording
        } else if picture_outstanding {
            CloseStep::WaitForPicture
        } else if !reported {
            CloseStep::ReportAndClose
        } else {
            CloseStep::Nothing
        }),
{
    if !stop_requested {
        CloseStep::StopRecording
    } else if picture_outstanding {
        CloseStep::WaitForPicture
    } else if !reported {
        CloseStep::ReportAndClose
    } else {
        CloseStep::Nothing
    }
}

/// Whether a picture of the window may be taken: the tables were read twice, and the page shows
/// something.
pub fn picture_due(refreshes: u64, seeding: bool) -> (r: bool)
    ensures
        r == (refreshes >= 2 && !seeding),
{
    refreshes >= 2 && !seeding
}

/// Whether two chosen sessions can be compared: both are chosen, and they differ.
pub fn can_compare(left: Option<SessionId>, right: Option<SessionId>) -> (r: bool)
    ensures
        r == (left is Some && right is Some && left != right),
{
    left.is_some() && right.is_some() && left != right
}

/// A choice once a session is gone.
pub fn without_session(choice: Option<SessionId>, gone: SessionId) -> (r: Option<SessionId>)
    ensures
        r == (if choice == Some(gone) {
            None
        } else {
            choice
        }),
{
    if choice == Some(gone) {
        None
    } else {
        choice
    }
}

/// How many processes have a picture.
pub open spec fn pictured(processes: Seq<ProcessSnapshot>) -> nat
    decreases processes.len(),
{
    if processes.len() == 0 {
        0
    } else {
        pictured(processes.drop_last()) + (if processes.last().icon is Available {
            1nat
        } else {
            0
        })
    }
}

fn count_pictured(processes: &Vec<ProcessSnapshot>) -> (n: usize)
    ensures
        n == pictured(processes@),
{
    let mut n: usize = 0;
    assert(processes@.take(0) =~= Seq::<ProcessSnapshot>::empty());
    for i in 0..processes.len()
        invariant
            n == pictured(processes@.take(i as int)),
            n <= i,
    {
        assert(processes@.take(i + 1).drop_last() =~= processes@.take(i as int));
        match processes[i].icon {
            ProcessIconState::Available(_) => {
                n += 1;
            },
            _ => {},
        }
    }
    assert(processes@.take(processes@.len() as int) =~= processes@);
    n
}

/// How many processes of the traffic table have no name.
pub open spec fn unnamed(processes: Seq<ProcessTrafficSnapshot>) -> nat
    decreases processes.len(),
{
    if processes.len() == 0 {
        0
    } else {
        unnamed(processes.drop_last()) + (if processes.last().name is None {
            1nat
        } else {
            0
        })
    }
}

fn count_unnamed(processes: &Vec<ProcessTrafficSnapshot>) -> (n: usize)
    ensures
        n == unnamed(processes@),
{
    let mut n: usize = 0;
    assert(processes@.take(0) =~= Seq::<ProcessTrafficSnapshot>::empty());
    for i in 0..processes.len()
        invariant
            n == unnamed(processes@.take(i as int)),
            n <= i,
    {
        assert(processes@.take(i + 1).drop_last() =~= processes@.take(i as int));
        if processes[i].name.is_none() {
            n += 1;
        }
    }
    assert(processes@.take(processes@.len() as int) =~= processes@);
    n
}

/// How many widths the recent curve spans from the start of its first stretch to that of its last.
pub open spec fn span(snapshot: ApplicationSnapshot) -> int {
    let curve = snapshot.recent_60_seconds;
    if curve.buckets@.len() == 0 || curve.buckets@.last().start_unix_nanos
        < curve.buckets@[0].start_unix_nanos {
        0
    } else {
        (curve.buckets@.last().start_unix_nanos - curve.buckets@[0].start_unix_nanos) / (
        curve.bucket_width_nanos as int)
    }
}

fn curve_span(snapshot: &ApplicationSnapshot) -> (n: u64)
    requires
        snapshot.recent_60_seconds.bucket_width_nanos > 0,
    ensures
        n == span(*snapshot),
{
    let buckets = &snapshot.recent_60_seconds.buckets;
    let count: usize = buckets.len();
    if count == 0 {
        return 0;
    }
    let first: u64 = buckets[0].start_unix_nanos;
    let last: u64 = buckets[count - 1].start_unix_nanos;
    proof {
        vstd::arithmetic::div_mod::lemma_div_basics(
            snapshot.recent_60_seconds.bucket_width_nanos as int,
        );
    }
    last.saturating_sub(first) / snapshot.recent_60_seconds.bucket_width_nanos
}

/// The processes, connections and pictures of a snapshot.
pub open spec fn system_numbers(system: Option<SystemSnapshot>) -> (nat, nat, nat) {
    match system {
        Some(system) => (
            system.processes@.len(),
            system.connections@.len(),
            pictured(system.processes@),
        ),
        None => (0, 0, 0),
    }
}

fn count_system(system: &Option<SystemSnapshot>) -> (n: (usize, usize, usize))
    ensures
        n.0 == system_numbers(*system).0,
        n.1 == system_numbers(*system).1,
        n.2 == system_numbers(*system).2,
{
    match system {
        Some(system) => (
            system.processes.len(),
            system.connections.len(),
            count_pictured(&system.processes),
        ),
        None => (0, 0, 0),
    }
}

/// The report of a smoke run that saw a snapshot.
pub open spec fn smoke_text(
    snapshot: ApplicationSnapshot,
    state: SessionUiState,
    dark_mode: bool,
    system_refreshes: u64,
    screenshot_saved: bool,
) -> Seq<char> {
    "GUI_SMOKE snapshot=available theme="@ + (if dark_mode { "dark"@ } else { "light"@ })
        + " events_processed="@ + text::decimal(snapshot.events_processed as nat)
        + " traffic_processes="@ + text::decimal(snapshot.process_traffic@.len())
        + " unnamed_traffic_processes="@ + text::decimal(unnamed(snapshot.process_traffic@))
        + " processes="@ + text::decimal(system_numbers(snapshot.system).0) + " connections="@
        + text::decimal(system_numbers(snapshot.system).1) + " icons_available="@
        + text::decimal(system_numbers(snapshot.system).2) + " system_refreshes="@
        + text::decimal(system_refreshes as nat) + " curve_buckets="@
        + text::decimal(snapshot.recent_60_seconds.buckets@.len()) + " curve_span_buckets="@
        + text::decimal(span(snapshot) as nat) + " send_rate="@
        + text::decimal(snapshot.network_rate.send_bytes_per_second as nat) + " receive_rate="@
        + text::decimal(snapshot.network_rate.receive_bytes_per_second as nat) + " sessions="@
        + text::decimal(state.sessions@.len()) + " recording_active="@
        + export::truth_text(state.active is Some) + " persistence_dropped="@
        + text::decimal(state.persistence_queue_dropped as nat) + " storage_error="@
        + export::truth_text(state.last_error is Some) + " screenshot_saved="@
        + export::truth_text(screenshot_saved)
}

/// The report of a smoke run that saw a snapshot.
pub fn smoke_line(
    snapshot: &ApplicationSnapshot,
    state: &SessionUiState,
    dark_mode: bool,
    system_refreshes: u64,
    screenshot_saved: bool,
) -> (text: String)
    requires
        snapshot.recent_60_seconds.bucket_width_nanos > 0,
    ensures
        text@ == smoke_text(*snapshot, *state, dark_mode, system_refreshes, screenshot_saved),
{
    let system = count_system(&snapshot.system);
    let mut text = "GUI_SMOKE snapshot=available theme=".to_owned();
    text.append(if dark_mode { "dark" } else { "light" });
    text.append(" events_processed=");
    text::put_number(&mut text, snapshot.events_processed as u64);
    text.append(" traffic_processes=");
    text.append(text::decimal_text(snapshot.process_traffic.len() as u64).as_str());
    text.append(" unnamed_traffic_processes=");
    text.append(text::decimal_text(count_unnamed(&snapshot.process_traffic) as u64).as_str());
    text.append(" processes=");
    text.append(text::decimal_text(system.0 as u64).as_str());
    text.append(" connections=");
    text.append(text::decimal_text(system.1 as u64).as_str());
    text.append(" icons_available=");
    text.append(text::decimal_text(system.2 as u64).as_str());
    text.append(" system_refreshes=");
    text::put_number(&mut text, system_refreshes as u64);
    text.append(" curve_buckets=");
    text.append(text::decimal_text(snapshot.recent_60_seconds.buckets.len() as u64).as_str());
    text.append(" curve_span_buckets=");
    text.append(text::decimal_text(curve_span(snapshot)).as_str());
    text.append(" send_rate=");
    text::put_number(&mut text, snapshot.network_rate.send_bytes_per_second as u64);
    text.append(" receive_rate=");
    text::put_number(&mut text, snapshot.network_rate.receive_bytes_per_second as u64);
    text.append(" sessions=");
    text.append(text::decimal_text(state.sessions.len() as u64).as_str());
    text.append(" recording_active=");
    text.append(export::truth(state.active.is_some()));
    text.append(" persistence_dropped=");
    text::put_number(&mut text, state.persistence_queue_dropped as u64);
    text.append(" storage_error=");
    text.append(export::truth(state.last_error.is_some()));
    text.append(" screenshot_saved=");
    text.append(export::truth(screenshot_saved));
    text
}

/// A process counts as pictured where its picture is there, and a row as unnamed where it has no
/// name.
pub proof fn law_pictures_and_names_are_counted(
    processes: Seq<ProcessSnapshot>,
    process: ProcessSnapshot,
    rows: Seq<ProcessTrafficSnapshot>,
    row: ProcessTrafficSnapshot,
)
    ensures
        pictured(Seq::empty()) == 0,
        unnamed(Seq::empty()) == 0,
        pictured(processes.push(process)) == pictured(processes) + (if process.icon is Available {
            1int
        } else {
            0
        }),
        unnamed(rows.push(row)) == unnamed(rows) + (if row.name is None {
            1int
        } else {
            0
        }),
{
    assert(processes.push(process).drop_last() =~= processes);
    assert(rows.push(row).drop_last() =~= rows);
}

} // verus!
