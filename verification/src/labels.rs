//! The words and numbers that the window shows.
use crate::controller::SessionUiState;
use crate::risk::RiskLevel;
use crate::session::{SessionId, SessionRecord, SessionStatus};
use crate::snapshot::{ConnectionDetailSnapshot, ConnectionOwnerStatus};
use crate::text;
use vstd::prelude::*;

verus! {

/// A thousand and twenty-four bytes.
pub const KIB: u64 = 1024;

/// As many again of those.
pub const MIB: u64 = 1_048_576;

/// As many again of those.
pub const GIB: u64 = 1_073_741_824;

/// A number of bytes in a larger unit, to one digit behind the point, rounded down.
pub open spec fn unit_text(bytes: u64, unit: u64, suffix: Seq<char>) -> Seq<char> {
    text::decimal((bytes / unit) as nat) + "."@ + text::decimal(
        (bytes % unit) as nat * 10 / unit as nat,
    ) + " "@ + suffix
}

fn decimal_unit(bytes: u64, unit: u64, suffix: &str) -> (text: String)
    requires
        0 < unit <= GIB,
    ensures
        text@ == unit_text(bytes, unit, suffix@),
{
    proof {
        vstd::arithmetic::div_mod::lemma_mod_bound(bytes as int, unit as int);
    }
    let mut text = text::decimal_text(bytes / unit);
    text.append(".");
    text::put_number(&mut text, bytes % unit * 10 / unit);
    text.append(" ");
    text.append(suffix);
    text
}

/// A number of bytes in the largest unit that it reaches.
pub open spec fn bytes_text(bytes: u64) -> Seq<char> {
    if bytes >= GIB {
        unit_text(bytes, GIB, "GiB"@)
    } else if bytes >= MIB {
        unit_text(bytes, MIB, "MiB"@)
    } else if bytes >= KIB {
        unit_text(bytes, KIB, "KiB"@)
    } else {
        text::decimal(bytes as nat) + " B"@
    }
}

/// A number of bytes in the largest unit that it reaches.
pub fn format_bytes(bytes: u64) -> (text: String)
    ensures
        text@ == bytes_text(bytes),
{
    if bytes >= GIB {
        decimal_unit(bytes, GIB, "GiB")
    } else if bytes >= MIB {
        decimal_unit(bytes, MIB, "MiB")
    } else if bytes >= KIB {
        decimal_unit(bytes, KIB, "KiB")
    } else {
        let mut text = text::decimal_text(bytes);
        text.append(" B");
        text
    }
}

/// A number of bytes a second.
pub open spec fn rate_text(bytes: u64) -> Seq<char> {
    bytes_text(bytes) + "/s"@
}

/// A number of bytes a second.
pub fn format_rate(bytes: u64) -> (text: String)
    ensures
        text@ == rate_text(bytes),
{
    let mut text = format_bytes(bytes);
    text.append("/s");
    text
}

/// The word for the state of a session.
pub open spec fn status_text(status: SessionStatus) -> Seq<char> {
    match status {
        SessionStatus::Recording => "正在录制"@,
        SessionStatus::Completed => "已完成"@,
        SessionStatus::Interrupted => "异常中断"@,
    }
}

/// The word for the state of a session.
pub fn session_status_label(status: SessionStatus) -> (label: &'static str)
    ensures
        label@ == status_text(status),
{
    match status {
        SessionStatus::Recording => "正在录制",
        SessionStatus::Completed => "已完成",
        SessionStatus::Interrupted => "异常中断",
    }
}

/// The word for a level of risk.
pub fn risk_level_label(level: RiskLevel) -> (label: &'static str)
    ensures
        label@ == (match level {
            RiskLevel::Information => "信息"@,
            RiskLevel::Attention => "关注"@,
            RiskLevel::High => "高风险"@,
        }),
{
    match level {
        RiskLevel::Information => "信息",
        RiskLevel::Attention => "关注",
        RiskLevel::High => "高风险",
    }
}

/// The name of the first session of a list that has an identity.
pub open spec fn name_among(sessions: Seq<SessionRecord>, id: SessionId) -> Option<Seq<char>>
    decreases sessions.len(),
{
    if sessions.len() == 0 {
        None
    } else if sessions[0].id == id {
        Some(sessions[0].name@)
    } else {
        name_among(sessions.drop_first(), id)
    }
}

/// The name of the chosen session, or the invitation to choose one.
pub open spec fn chosen_name(sessions: Seq<SessionRecord>, id: Option<SessionId>) -> Seq<char> {
    match id {
        Some(id) => match name_among(sessions, id) {
            Some(name) => name,
            None => "选择会话"@,
        },
        None => "选择会话"@,
    }
}

/// The name of the chosen session, or the invitation to choose one.
pub fn session_name_for(state: &SessionUiState, id: Option<SessionId>) -> (name: &str)
    ensures
        name@ == chosen_name(state.sessions@, id),
{
    let wanted = match id {
        Some(wanted) => wanted,
        None => {
            return "选择会话";
        },
    };
    let ghost all = state.sessions@;
    assert(all.skip(0) =~= all);
    for i in 0..state.sessions.len()
        invariant
            all == state.sessions@,
            id == Some(wanted),
            name_among(all, wanted) == name_among(all.skip(i as int), wanted),
    {
        assert(all.skip(i as int)[0] == all[i as int]);
        assert(all.skip(i as int).drop_first() =~= all.skip(i + 1));
        if state.sessions[i].id == wanted {
            return state.sessions[i].name.as_str();
        }
    }
    assert(all.skip(all.len() as int) =~= Seq::<SessionRecord>::empty());
    "选择会话"
}

/// A count or a number of bytes.
pub open spec fn amount_text(amount: u64, bytes: bool) -> Seq<char> {
    if bytes {
        bytes_text(amount)
    } else {
        text::decimal(amount as nat)
    }
}

/// A count or a number of bytes.
pub fn format_amount(amount: u64, bytes: bool) -> (text: String)
    ensures
        text@ == amount_text(amount, bytes),
{
    if bytes {
        format_bytes(amount)
    } else {
        text::decimal_text(amount)
    }
}

/// How far the second amount is from the first.
pub open spec fn difference_text(left: u64, right: u64, bytes: bool) -> Seq<char> {
    if right >= left {
        "+"@ + amount_text((right - left) as u64, bytes)
    } else {
        "−"@ + amount_text((left - right) as u64, bytes)
    }
}

/// How far the second amount is from the first, with its sign.
pub fn format_difference(left: u64, right: u64, bytes: bool) -> (text: String)
    ensures
        text@ == difference_text(left, right, bytes),
{
    let (sign, distance): (&str, u64) = if right >= left {
        ("+", right - left)
    } else {
        ("−", left - right)
    };
    let mut text = sign.to_owned();
    text.append(format_amount(distance, bytes).as_str());
    text
}

/// The name of a process, or its number.
pub open spec fn process_name_text(name: Option<Seq<char>>, pid: u32) -> Seq<char> {
    match name {
        Some(name) => name,
        None => "PID "@ + text::decimal(pid as nat),
    }
}

/// The name of a process, or its number.
pub fn process_name(name: &Option<String>, pid: u32) -> (text: String)
    ensures
        text@ == process_name_text(text::optional(*name), pid),
{
    match name {
        Some(name) => name.clone(),
        None => {
            let mut text = "PID ".to_owned();
            text::put_number(&mut text, pid as u64);
            text
        },
    }
}

/// Who a connection belongs to.
pub open spec fn owner_text(detail: ConnectionDetailSnapshot) -> Seq<char> {
    match detail.owner_status {
        ConnectionOwnerStatus::Matched | ConnectionOwnerStatus::NameOnly => process_name_text(
            text::optional(detail.process_name),
            detail.connection.pid,
        ),
        ConnectionOwnerStatus::ProcessExited => if detail.connection.pid == 0 {
            "连接已结束"@
        } else {
            "进程已结束 · PID "@ + text::decimal(detail.connection.pid as nat)
        },
    }
}

/// Who a connection belongs to.
pub fn connection_owner_label(detail: &ConnectionDetailSnapshot) -> (text: String)
    ensures
        text@ == owner_text(*detail),
{
    match detail.owner_status {
        ConnectionOwnerStatus::Matched | ConnectionOwnerStatus::NameOnly => process_name(
            &detail.process_name,
            detail.connection.pid,
        ),
        ConnectionOwnerStatus::ProcessExited => {
            if detail.connection.pid == 0 {
                "连接已结束".to_owned()
            } else {
                let mut text = "进程已结束 · PID ".to_owned();
                text::put_number(&mut text, detail.connection.pid as u64);
                text
            }
        },
    }
}

/// What is said of lost events.
pub fn lost_events_label(dropped_full: u64, dropped_stopped: u64) -> (text: String)
    ensures
        text@ == "队列已满丢失 "@ + text::decimal(dropped_full as nat) + "，停止后到达 "@ + text::decimal(
            dropped_stopped as nat,
        ) + "。"@,
{
    let mut text = "队列已满丢失 ".to_owned();
    text::put_number(&mut text, dropped_full);
    text.append("，停止后到达 ");
    text::put_number(&mut text, dropped_stopped);
    text.append("。");
    text
}

/// The file name of an exported session.
pub fn export_file_name(id: SessionId, extension: &str) -> (text: String)
    ensures
        text@ == "session-"@ + text::signed_decimal(id.0 as int) + "."@ + extension@,
{
    let mut text = "session-".to_owned();
    text.append(text::signed_decimal_text(id.0).as_str());
    text.append(".");
    text.append(extension);
    text
}

/// Bytes are shown as they are below 1024, and above in the largest of the units of 1024, 1024
/// times 1024 and 1024 times that which they reach, with one digit behind the point, cut off.
pub proof fn law_bytes_are_shown_in_units(bytes: u64, whole: nat, tenth: nat)
    requires
        tenth < 10,
    ensures
        bytes < 1024 ==> bytes_text(bytes) == text::decimal(bytes as nat) + " B"@,
        1024 <= bytes < 1024 * 1024 && (whole * 10 + tenth) * 1024 <= bytes * 10 < (whole * 10
            + tenth + 1) * 1024 ==> bytes_text(bytes) == text::decimal(whole) + "."@
            + text::decimal(tenth) + " "@ + "KiB"@,
        1024 * 1024 <= bytes < 1024 * 1024 * 1024 && (whole * 10 + tenth) * (1024 * 1024) <= bytes
            * 10 < (whole * 10 + tenth + 1) * (1024 * 1024) ==> bytes_text(bytes) == text::decimal(
            whole,
        ) + "."@ + text::decimal(tenth) + " "@ + "MiB"@,
        1024 * 1024 * 1024 <= bytes && (whole * 10 + tenth) * (1024 * 1024 * 1024) <= bytes * 10 < (
        whole * 10 + tenth + 1) * (1024 * 1024 * 1024) ==> bytes_text(bytes) == text::decimal(whole)
            + "."@ + text::decimal(tenth) + " "@ + "GiB"@,
        rate_text(bytes) == bytes_text(bytes) + "/s"@,
{
    let n = (whole * 10 + tenth) as int;
    if n * 1024 <= bytes * 10 < (n + 1) * 1024 {
        lemma_tenths(bytes as int, 1024, whole as int, tenth as int);
    }
    if n * 1_048_576 <= bytes * 10 < (n + 1) * 1_048_576 {
        lemma_tenths(bytes as int, 1_048_576, whole as int, tenth as int);
    }
    if n * 1_073_741_824 <= bytes * 10 < (n + 1) * 1_073_741_824 {
        lemma_tenths(bytes as int, 1_073_741_824, whole as int, tenth as int);
    }
    assert((whole * 10 + tenth) * (1024 * 1024) == n * 1_048_576);
    assert((whole * 10 + tenth + 1) * (1024 * 1024) == (n + 1) * 1_048_576);
    assert((whole * 10 + tenth) * (1024 * 1024 * 1024) == n * 1_073_741_824);
    assert((whole * 10 + tenth + 1) * (1024 * 1024 * 1024) == (n + 1) * 1_073_741_824);
}

/// The whole units and the tenths of a number.
proof fn lemma_tenths(bytes: int, unit: int, whole: int, tenth: int)
    requires
        unit > 0,
        0 <= whole,
        0 <= tenth < 10,
        (whole * 10 + tenth) * unit <= bytes * 10 < (whole * 10 + tenth + 1) * unit,
    ensures
        bytes / unit == whole,
        bytes % unit * 10 / unit == tenth,
{
    let rest = bytes - whole * unit;
    assert(0 <= rest < unit) by (nonlinear_arith)
        requires
            unit > 0,
            0 <= tenth < 10,
            (whole * 10 + tenth) * unit <= bytes * 10 < (whole * 10 + tenth + 1) * unit,
            rest == bytes - whole * unit,
    ;
    assert(bytes == whole * unit + rest);
    vstd::arithmetic::div_mod::lemma_fundamental_div_mod_converse(bytes, unit, whole, rest);
    let more = rest * 10 - tenth * unit;
    assert(0 <= more < unit) by (nonlinear_arith)
        requires
            (whole * 10 + tenth) * unit <= bytes * 10 < (whole * 10 + tenth + 1) * unit,
            rest == bytes - whole * unit,
            more == rest * 10 - tenth * unit,
    ;
    vstd::arithmetic::div_mod::lemma_fundamental_div_mod_converse(rest * 10, unit, tenth, more);
}

/// A difference is what the second amount is over the first, with a plus, or under it, with a minus.
pub proof fn law_differences_have_signs(left: u64, right: u64, amount: u64)
    ensures
        left + amount == right ==> difference_text(left, right, false) == "+"@ + text::decimal(
            amount as nat,
        ) && difference_text(left, right, true) == "+"@ + bytes_text(amount),
        right + amount == left && amount > 0 ==> difference_text(left, right, false) == "−"@
            + text::decimal(amount as nat) && difference_text(left, right, true) == "−"@
            + bytes_text(amount),
{
}

/// The name of a chosen session is that of the first session with its number.
pub proof fn law_chosen_session_has_its_name(sessions: Seq<SessionRecord>, id: SessionId, i: int)
    requires
        0 <= i < sessions.len(),
        sessions[i].id == id,
        forall|j: int| 0 <= j < i ==> (#[trigger] sessions[j]).id != id,
    ensures
        chosen_name(sessions, Some(id)) == sessions[i].name@,
    decreases i,
{
    if i > 0 {
        assert(sessions[0].id != id);
        let others = sessions.drop_first();
        assert forall|j: int| 0 <= j < i - 1 implies (#[trigger] others[j]).id != id by {
            assert(sessions[j + 1].id != id);
        }
        law_chosen_session_has_its_name(others, id, i - 1);
    }
}

/// The owner of a connection is shown by its name, or by its number where the name is not known; one
/// that is gone is shown as gone.
pub proof fn law_owners_are_shown(detail: ConnectionDetailSnapshot)
    ensures
        !(detail.owner_status is ProcessExited) ==> (match detail.process_name {
            Some(name) => owner_text(detail) == name@,
            None => owner_text(detail) == "PID "@ + text::decimal(detail.connection.pid as nat),
        }),
        detail.owner_status is ProcessExited && detail.connection.pid != 0 ==> owner_text(detail)
            == "进程已结束 · PID "@ + text::decimal(detail.connection.pid as nat),
        detail.owner_status is ProcessExited && detail.connection.pid == 0 ==> owner_text(detail)
            == "连接已结束"@,
{
}

/// What a session's state is called.
pub proof fn law_states_are_called()
    ensures
        status_text(SessionStatus::Recording) == "正在录制"@,
        status_text(SessionStatus::Completed) == "已完成"@,
        status_text(SessionStatus::Interrupted) == "异常中断"@,
{
}

} // verus!
