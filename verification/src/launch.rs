//! Starting the program: its arguments, starting it again with other rights, taking over a capture
//! session, and the console's signals.
use crate::duration::Duration;
use crate::text;
use vstd::prelude::*;

verus! {

/// What a relaunch of the program came to, by the shell's result and the system's last error.
pub fn relaunch_elevated(result: i64, error: u32) -> (r: Result<(), String>)
    ensures
        match r {
            Ok(_) => result > 32,
            Err(reason) => result <= 32 && reason@ == (if error == 1223 {
                "管理员授权已取消；当前窗口仍保持受限模式"@
            } else {
                "无法以管理员身份重新启动（ShellExecuteW="@ + text::signed_decimal(result as int)
                    + "，Win32="@ + text::decimal(error as nat) + "）"@
            }),
        },
{
    if result > 32 {
        return Ok(());
    }
    if error == 1223 {
        return Err("管理员授权已取消；当前窗口仍保持受限模式".to_owned());
    }
    let mut reason = "无法以管理员身份重新启动（ShellExecuteW=".to_owned();
    reason.append(text::signed_decimal_text(result).as_str());
    reason.append("，Win32=");
    text::put_number(&mut reason, error as u64);
    reason.append("）");
    Err(reason)
}

/// What a relaunch without special rights came to.
pub fn relaunch_unelevated(result: i64, error: u32) -> (r: Result<(), String>)
    ensures
        match r {
            Ok(_) => result > 32,
            Err(reason) => result <= 32 && reason@
                == "无法通过 Windows Shell 以普通权限重新启动（ShellExecuteW="@ + text::signed_decimal(
                result as int,
            ) + "，Win32="@ + text::decimal(error as nat) + "）"@,
        },
{
    if result > 32 {
        return Ok(());
    }
    let mut reason = "无法通过 Windows Shell 以普通权限重新启动（ShellExecuteW=".to_owned();
    reason.append(text::signed_decimal_text(result).as_str());
    reason.append("，Win32=");
    text::put_number(&mut reason, error as u64);
    reason.append("）");
    Err(reason)
}

/// Whether a console signal asks the program to stop: an interrupt or a break does.
pub fn asks_to_stop(control_type: u32) -> (r: bool)
    ensures
        r == (control_type == 0 || control_type == 1),
{
    control_type == 0 || control_type == 1
}

/// What a start that takes over from a program without rights does next.
#[derive(Debug, Clone, Copy, PartialEq, Eq, Structural)]
pub enum HandoffStep {
    /// Gives back what the capture came to.
    Return,
    /// Tries again a little later.
    Wait,
    /// Stops the session that was left behind, and tries again.
    Recover,
}

/// Where a start that takes over stands.
#[derive(Debug, Clone, Copy, PartialEq, Eq, Structural)]
pub enum HandoffState {
    /// Nothing is taken over, or the session is free.
    Inactive,
    /// The program is to stop.
    Cancelled,
    /// The session is taken, and its owner may still give it up.
    Waiting,
    /// The session is taken, and its owner had its time.
    Orphan,
    /// The session was stopped once already.
    RecoveryAttempted,
}

/// Where a start stands.
pub open spec fn state_of(
    elevated_handoff: bool,
    session_conflict: bool,
    cancelled: bool,
    recovery_attempted: bool,
    before_deadline: bool,
) -> HandoffState {
    if !elevated_handoff || !session_conflict {
        HandoffState::Inactive
    } else if cancelled {
        HandoffState::Cancelled
    } else if recovery_attempted {
        HandoffState::RecoveryAttempted
    } else if before_deadline {
        HandoffState::Waiting
    } else {
        HandoffState::Orphan
    }
}

/// Where a start stands: whether it takes over, finds the session taken, is to stop, has stopped the
/// session once, and still waits for its owner.
pub fn handoff_state(
    elevated_handoff: bool,
    session_conflict: bool,
    cancelled: bool,
    recovery_attempted: bool,
    before_deadline: bool,
) -> (state: HandoffState)
    ensures
        state == state_of(
            elevated_handoff,
            session_conflict,
            cancelled,
            recovery_attempted,
            before_deadline,
        ),
{
    if !elevated_handoff || !session_conflict {
        HandoffState::Inactive
    } else if cancelled {
        HandoffState::Cancelled
    } else if recovery_attempted {
        HandoffState::RecoveryAttempted
    } else if before_deadline {
        HandoffState::Waiting
    } else {
        HandoffState::Orphan
    }
}

/// What is done next.
pub open spec fn step_of(state: HandoffState) -> HandoffStep {
    match state {
        HandoffState::Waiting => HandoffStep::Wait,
        HandoffState::Orphan => HandoffStep::Recover,
        _ => HandoffStep::Return,
    }
}

/// What is done next.
pub fn handoff_step(state: HandoffState) -> (step: HandoffStep)
    ensures
        step == step_of(state),
{
    match state {
        HandoffState::Inactive | HandoffState::Cancelled | HandoffState::RecoveryAttempted =>
            HandoffStep::Return,
        HandoffState::Waiting => HandoffStep::Wait,
        HandoffState::Orphan => HandoffStep::Recover,
    }
}

/// A session is stopped only by a start that takes over, finds it taken, is not to stop, has waited
/// and has not stopped it before.
pub proof fn law_recovers_one_orphan(
    elevated_handoff: bool,
    session_conflict: bool,
    cancelled: bool,
    recovery_attempted: bool,
    before_deadline: bool,
)
    ensures
        step_of(
            state_of(
                elevated_handoff,
                session_conflict,
                cancelled,
                recovery_attempted,
                before_deadline,
            ),
        ) == HandoffStep::Recover <==> elevated_handoff && session_conflict && !cancelled
            && !recovery_attempted && !before_deadline,
{
}

/// The longest a smoke run lasts, in seconds.
pub const MAX_SMOKE_SECONDS: u64 = 600;

/// The first place of a word among arguments; their number where it is not there.
pub open spec fn place_of(arguments: Seq<Seq<char>>, word: Seq<char>) -> nat
    decreases arguments.len(),
{
    if arguments.len() == 0 || arguments[0] == word {
        0
    } else {
        1 + place_of(arguments.drop_first(), word)
    }
}

/// The argument behind the first occurrence of a flag.
pub open spec fn value_after(arguments: Seq<Seq<char>>, flag: Seq<char>) -> Option<Seq<char>> {
    let place = place_of(arguments, flag);
    if place + 1 < arguments.len() {
        Some(arguments[place as int + 1])
    } else {
        None
    }
}

/// The argument behind the first occurrence of a flag.
fn find_after(arguments: &Vec<String>, flag: &str) -> (value: Option<String>)
    ensures
        text::optional(value) == value_after(text::texts(arguments@), flag@),
{
    let ghost texts = text::texts(arguments@);
    let place: usize = find(arguments, flag);
    if place < arguments.len() && place + 1 < arguments.len() {
        assert(texts[place + 1] == arguments@[place + 1]@);
        Some(arguments[place + 1].clone())
    } else {
        None
    }
}

fn find(arguments: &Vec<String>, word: &str) -> (place: usize)
    ensures
        place == place_of(text::texts(arguments@), word@),
        place <= arguments@.len(),
        text::texts(arguments@).contains(word@) <==> place < arguments@.len(),
{
    let ghost texts = text::texts(arguments@);
    let mut i: usize = 0;
    assert(texts.skip(0) =~= texts);
    while i < arguments.len() && !text::equal(arguments[i].as_str(), word)
        invariant
            i <= arguments@.len(),
            texts == text::texts(arguments@),
            i + place_of(texts.skip(i as int), word@) == place_of(texts, word@),
            forall|j: int| 0 <= j < i ==> (#[trigger] texts[j]) != word@,
        decreases arguments@.len() - i,
    {
        assert(texts.skip(i as int)[0] == texts[i as int]);
        assert(texts.skip(i as int).drop_first() =~= texts.skip(i + 1));
        i = i + 1;
    }
    proof {
        if i < arguments@.len() {
            assert(texts.skip(i as int)[0] == texts[i as int]);
            assert(texts[i as int] == word@);
        } else {
            assert(texts.skip(i as int) =~= Seq::<Seq<char>>::empty());
        }
    }
    i
}

/// How long a smoke run is to last: one second to ten minutes; anything else asks for none.
pub open spec fn smoke_seconds(value: Seq<char>) -> Option<nat> {
    match text::number_read(value, u64::MAX as nat) {
        Ok(n) => if 1 <= n <= MAX_SMOKE_SECONDS {
            Some(n)
        } else {
            None
        },
        Err(_) => None,
    }
}

/// How long a smoke run is to last.
pub fn bounded_smoke_duration(seconds: &str) -> (duration: Option<Duration>)
    ensures
        match (duration, smoke_seconds(seconds@)) {
            (Some(duration), Some(n)) => duration@ == n * 1_000_000_000,
            (None, None) => true,
            _ => false,
        },
{
    match text::parse_number(seconds, u64::MAX) {
        Ok(n) => if 1 <= n && n <= MAX_SMOKE_SECONDS {
            Some(Duration::from_secs(n))
        } else {
            None
        },
        Err(_) => None,
    }
}

/// How the window is started: how long a smoke run lasts, where its report and its picture go, which
/// page is shown, and whether the program takes over from one without rights.
pub fn parse_smoke_options(arguments: Vec<String>) -> (options: (
    Option<Duration>,
    Option<String>,
    Option<String>,
    Option<String>,
    bool,
))
    ensures
        ({
            let texts = text::texts(arguments@);
            &&& match (options.0, value_after(texts, "--smoke-seconds"@)) {
                (Some(duration), Some(value)) => smoke_seconds(value) is Some && duration@
                    == smoke_seconds(value)->0 * 1_000_000_000,
                (None, Some(value)) => smoke_seconds(value) is None,
                (None, None) => true,
                _ => false,
            }
            &&& text::optional(options.1) == value_after(texts, "--smoke-report"@)
            &&& text::optional(options.2) == value_after(texts, "--screenshot"@)
            &&& text::optional(options.3) == value_after(texts, "--page"@)
            &&& options.4 == texts.contains("--elevated-handoff"@)
        }),
{
    let smoke = match find_after(&arguments, "--smoke-seconds") {
        Some(value) => bounded_smoke_duration(value.as_str()),
        None => None,
    };
    let handoff = find(&arguments, "--elevated-handoff") < arguments.len();
    (
        smoke,
        find_after(&arguments, "--smoke-report"),
        find_after(&arguments, "--screenshot"),
        find_after(&arguments, "--page"),
        handoff,
    )
}

/// A trial run lasts from one second to ten minutes.
pub proof fn law_trial_runs_are_bounded(n: u64)
    ensures
        1 <= n <= 600 ==> smoke_seconds(text::decimal(n as nat)) == Some(n as nat),
        n == 0 || n > 600 ==> smoke_seconds(text::decimal(n as nat)) is None,
{
    text::law_numeral_is_read_back(n as nat, u64::MAX as nat);
}

/// The value of a flag is the word behind the first place where the flag stands.
pub proof fn law_values_stand_behind_their_flags(
    arguments: Seq<Seq<char>>,
    flag: Seq<char>,
    at: int,
)
    requires
        0 <= at < arguments.len(),
        arguments[at] == flag,
        forall|i: int| 0 <= i < at ==> #[trigger] arguments[i] != flag,
    ensures
        place_of(arguments, flag) == at,
        at + 1 < arguments.len() ==> value_after(arguments, flag) == Some(arguments[at + 1]),
        at + 1 == arguments.len() ==> value_after(arguments, flag) is None,
    decreases at,
{
    if at > 0 {
        assert(arguments[0] != flag);
        let others = arguments.drop_first();
        assert forall|i: int| 0 <= i < at - 1 implies #[trigger] others[i] != flag by {
            assert(arguments[i + 1] != flag);
        }
        law_values_stand_behind_their_flags(others, flag, at - 1);
    }
}

/// While the session is taken and its owner may still give it up, the program waits; it gives back
/// what it has where nothing is taken over, where it is to stop, or where it has recovered before.
pub proof fn law_steps_of_a_handoff(
    handoff: bool,
    conflict: bool,
    cancelled: bool,
    recovered: bool,
    before_deadline: bool,
)
    ensures
        step_of(state_of(handoff, conflict, cancelled, recovered, before_deadline))
            == HandoffStep::Wait <==> handoff && conflict && !cancelled && !recovered
            && before_deadline,
        step_of(state_of(handoff, conflict, cancelled, recovered, before_deadline))
            == HandoffStep::Return <==> !handoff || !conflict || cancelled || recovered,
{
}

} // verus!
