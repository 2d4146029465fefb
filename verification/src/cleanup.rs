//! Stopping a trace session that an earlier run left behind.
//!
//! The native calls are made by the caller: each step says what to ask the system, and the next
//! step takes the system's answer.
use crate::text;
use vstd::prelude::*;

verus! {

/// The one session that this program owns.
pub const PROJECT_ETW_SESSION_NAME: &'static str = "ProcNetRecorder-V0-TcpIp-Probe";

/// What the system answered to a control request.
#[derive(Debug, Clone, Copy, PartialEq, Eq, Structural)]
pub enum ControlResult {
    Success,
    NotFound,
    AccessDenied,
    MoreData,
}

/// What is asked of a session.
#[derive(Debug, Clone, Copy, PartialEq, Eq, Structural)]
pub enum ControlOperation {
    Query,
    Stop,
}

/// The system's code for success.
pub const ERROR_SUCCESS: u32 = 0;

/// The system's code for a denied request.
pub const ERROR_ACCESS_DENIED: u32 = 5;

/// The system's code for an argument that it does not take.
pub const ERROR_INVALID_PARAMETER: u32 = 87;

/// The system's code for an answer that did not fit.
pub const ERROR_MORE_DATA: u32 = 234;

/// The system's code for a number that ran over.
pub const ERROR_ARITHMETIC_OVERFLOW: u32 = 534;

/// The system's code for a session that is not there.
pub const ERROR_WMI_INSTANCE_NOT_FOUND: u32 = 4201;

/// What a status code says of a control request; a code of no known meaning is the error.
pub open spec fn control_answer(status: u32) -> Result<ControlResult, u32> {
    if status == ERROR_SUCCESS {
        Ok(ControlResult::Success)
    } else if status == ERROR_WMI_INSTANCE_NOT_FOUND {
        Ok(ControlResult::NotFound)
    } else if status == ERROR_ACCESS_DENIED {
        Ok(ControlResult::AccessDenied)
    } else if status == ERROR_MORE_DATA {
        Ok(ControlResult::MoreData)
    } else {
        Err(status)
    }
}

/// What a status code says of a control request.
pub fn control_result(status: u32) -> (r: Result<ControlResult, u32>)
    ensures
        r == control_answer(status),
{
    if status == ERROR_SUCCESS {
        Ok(ControlResult::Success)
    } else if status == ERROR_WMI_INSTANCE_NOT_FOUND {
        Ok(ControlResult::NotFound)
    } else if status == ERROR_ACCESS_DENIED {
        Ok(ControlResult::AccessDenied)
    } else if status == ERROR_MORE_DATA {
        Ok(ControlResult::MoreData)
    } else {
        Err(status)
    }
}

/// Whether a session was there to be asked for its statistics; any other code is the error.
pub fn session_present(status: u32) -> (r: Result<bool, u32>)
    ensures
        r == (if status == ERROR_SUCCESS {
            Ok::<bool, u32>(true)
        } else if status == ERROR_WMI_INSTANCE_NOT_FOUND {
            Ok(false)
        } else {
            Err(status)
        }),
{
    if status == ERROR_SUCCESS {
        Ok(true)
    } else if status == ERROR_WMI_INSTANCE_NOT_FOUND {
        Ok(false)
    } else {
        Err(status)
    }
}

/// Why a session was not cleaned up.
#[derive(Debug, Clone, PartialEq, Eq)]
pub enum EtwCleanupError {
    /// The session named is not the one that this program owns.
    UnexpectedSessionName { supplied: String },
    /// The system denied access.
    AccessDenied { operation: &'static str },
    /// A request failed with a code of no known meaning.
    ControlFailed { operation: &'static str, code: u32 },
    /// The session is there although it was stopped.
    StillRunning,
}

/// What an error stands for.
pub enum CleanupErrorView {
    UnexpectedSessionName { supplied: Seq<char> },
    AccessDenied { operation: Seq<char> },
    ControlFailed { operation: Seq<char>, code: u32 },
    StillRunning,
}

impl View for EtwCleanupError {
    type V = CleanupErrorView;

    open spec fn view(&self) -> CleanupErrorView {
        match self {
            EtwCleanupError::UnexpectedSessionName { supplied } =>
                CleanupErrorView::UnexpectedSessionName { supplied: supplied@ },
            EtwCleanupError::AccessDenied { operation } =>
                CleanupErrorView::AccessDenied { operation: operation@ },
            EtwCleanupError::ControlFailed { operation, code } =>
                CleanupErrorView::ControlFailed { operation: operation@, code: *code },
            EtwCleanupError::StillRunning => CleanupErrorView::StillRunning,
        }
    }
}

/// An error in words.
pub open spec fn cleanup_error_text(error: CleanupErrorView) -> Seq<char> {
    match error {
        CleanupErrorView::UnexpectedSessionName { supplied } =>
            "refusing to control unexpected ETW Session '"@ + supplied + "'; only '"@
            + PROJECT_ETW_SESSION_NAME@ + "' is allowed"@,
        CleanupErrorView::AccessDenied { operation } => "ETW "@ + operation
            + " access denied; run this cleanup command with administrator privileges"@,
        CleanupErrorView::ControlFailed { operation, code } => "ETW "@ + operation
            + " failed with Win32 error "@ + text::decimal(code as nat),
        CleanupErrorView::StillRunning => "ETW Session '"@ + PROJECT_ETW_SESSION_NAME@
            + "' still exists after the stop attempt"@,
    }
}

impl EtwCleanupError {
    /// The error in words.
    pub fn message(&self) -> (text: String)
        ensures
            text@ == cleanup_error_text(self@),
    {
        match self {
            EtwCleanupError::UnexpectedSessionName { supplied } => {
                let mut text = "refusing to control unexpected ETW Session '".to_owned();
                text.append(supplied.as_str());
                text.append("'; only '");
                text.append(PROJECT_ETW_SESSION_NAME);
                text.append("' is allowed");
                text
            },
            EtwCleanupError::AccessDenied { operation } => {
                let mut text = "ETW ".to_owned();
                text.append(operation);
                text.append(
                    " access denied; run this cleanup command with administrator privileges",
                );
                text
            },
            EtwCleanupError::ControlFailed { operation, code } => {
                let mut text = "ETW ".to_owned();
                text.append(operation);
                text.append(" failed with Win32 error ");
                text::put_number(&mut text, *code as u64);
                text
            },
            EtwCleanupError::StillRunning => {
                let mut text = "ETW Session '".to_owned();
                text.append(PROJECT_ETW_SESSION_NAME);
                text.append("' still exists after the stop attempt");
                text
            },
        }
    }
}

/// How a cleanup ended well.
#[derive(Debug, Clone, Copy, PartialEq, Eq, Structural)]
pub enum CleanupResult {
    /// The session was stopped and is gone.
    Stopped,
    /// The session was stopped with an answer that did not fit, and is gone.
    StoppedAfterMoreData,
    /// The session was gone before it was stopped.
    AlreadyAbsent,
}

/// A session that may be asked whether it is there.
#[derive(Debug)]
pub struct CleanupQuery {
    session_name: &'static str,
}

/// A session that was found and may be stopped.
#[derive(Debug)]
pub struct PreparedEtwCleanup {
    session_name: &'static str,
}

/// A session that was stopped and must be shown to be gone.
#[derive(Debug)]
pub struct StoppedSession {
    session_name: &'static str,
    more_data: bool,
}

/// What the query before a stop found.
#[derive(Debug)]
pub enum CleanupPreparation {
    /// The session is not there.
    AlreadyAbsent,
    /// The session is there and may be stopped.
    Ready(PreparedEtwCleanup),
}

/// What comes of a stop.
#[derive(Debug)]
pub enum CleanupStop {
    /// Nothing is left to do.
    Done(CleanupResult),
    /// The system is to be asked once more.
    Verify(StoppedSession),
}

/// Admits the one session that this program owns; every other name is refused before the system is
/// asked anything.
pub fn cleanup_target(session_name: &str) -> (r: Result<CleanupQuery, EtwCleanupError>)
    ensures
        match r {
            Ok(query) => session_name@ == PROJECT_ETW_SESSION_NAME@ && query.well_formed(),
            Err(error) => session_name@ != PROJECT_ETW_SESSION_NAME@ && error@
                == (CleanupErrorView::UnexpectedSessionName { supplied: session_name@ }),
        },
{
    if !text::equal(session_name, PROJECT_ETW_SESSION_NAME) {
        return Err(EtwCleanupError::UnexpectedSessionName { supplied: session_name.to_owned() });
    }
    Ok(CleanupQuery { session_name: PROJECT_ETW_SESSION_NAME })
}

/// What the answer to the first query means.
pub open spec fn prepared(answer: Result<ControlResult, u32>) -> Result<bool, CleanupErrorView> {
    match answer {
        Ok(ControlResult::Success) => Ok(true),
        Ok(ControlResult::NotFound) => Ok(false),
        Ok(ControlResult::AccessDenied) => Err(
            CleanupErrorView::AccessDenied { operation: "query"@ },
        ),
        Ok(ControlResult::MoreData) => Err(
            CleanupErrorView::ControlFailed { operation: "query"@, code: ERROR_MORE_DATA },
        ),
        Err(code) => Err(CleanupErrorView::ControlFailed { operation: "query"@, code }),
    }
}

impl CleanupQuery {
    /// The session is the one that this program owns.
    pub closed spec fn well_formed(&self) -> bool {
        self.session_name@ == PROJECT_ETW_SESSION_NAME@
    }

    /// The name to ask for.
    pub fn session_name(&self) -> (name: &'static str)
        requires
            self.well_formed(),
        ensures
            name@ == PROJECT_ETW_SESSION_NAME@,
    {
        self.session_name
    }

    /// Takes the answer to the query.
    pub fn answered(self, answer: Result<ControlResult, u32>) -> (r: Result<
        CleanupPreparation,
        EtwCleanupError,
    >)
        requires
            self.well_formed(),
        ensures
            match (r, prepared(answer)) {
                (Ok(CleanupPreparation::Ready(target)), Ok(found)) => found && target.well_formed(),
                (Ok(CleanupPreparation::AlreadyAbsent), Ok(found)) => !found,
                (Err(error), Err(expected)) => error@ == expected,
                _ => false,
            },
    {
        match answer {
            Ok(ControlResult::Success) => Ok(
                CleanupPreparation::Ready(PreparedEtwCleanup { session_name: self.session_name }),
            ),
            Ok(ControlResult::NotFound) => Ok(CleanupPreparation::AlreadyAbsent),
            Ok(ControlResult::AccessDenied) => Err(
                EtwCleanupError::AccessDenied { operation: "query" },
            ),
            Ok(ControlResult::MoreData) => Err(
                EtwCleanupError::ControlFailed { operation: "query", code: ERROR_MORE_DATA },
            ),
            Err(code) => Err(EtwCleanupError::ControlFailed { operation: "query", code }),
        }
    }
}

/// What the answer to the stop means: whether the system must be asked again, and whether the
/// answer did not fit.
pub open spec fn stop_meaning(answer: Result<ControlResult, u32>) -> Result<
    Option<bool>,
    CleanupErrorView,
> {
    match answer {
        Ok(ControlResult::Success) => Ok(Some(false)),
        Ok(ControlResult::MoreData) => Ok(Some(true)),
        Ok(ControlResult::NotFound) => Ok(None),
        Ok(ControlResult::AccessDenied) => Err(
            CleanupErrorView::AccessDenied { operation: "stop"@ },
        ),
        Err(code) => Err(CleanupErrorView::ControlFailed { operation: "stop"@, code }),
    }
}

impl PreparedEtwCleanup {
    /// The session is the one that this program owns.
    pub closed spec fn well_formed(&self) -> bool {
        self.session_name@ == PROJECT_ETW_SESSION_NAME@
    }

    /// The name of the session that will be stopped.
    pub fn session_name(&self) -> (name: &'static str)
        requires
            self.well_formed(),
        ensures
            name@ == PROJECT_ETW_SESSION_NAME@,
    {
        self.session_name
    }

    /// Takes the answer to the stop.
    pub fn stop(self, answer: Result<ControlResult, u32>) -> (r: Result<
        CleanupStop,
        EtwCleanupError,
    >)
        requires
            self.well_formed(),
        ensures
            match (r, stop_meaning(answer)) {
                (Ok(CleanupStop::Verify(session)), Ok(Some(more_data))) => session.well_formed()
                    && session.more_data() == more_data,
                (Ok(CleanupStop::Done(result)), Ok(None)) => result
                    == CleanupResult::AlreadyAbsent,
                (Err(error), Err(expected)) => error@ == expected,
                _ => false,
            },
    {
        match answer {
            Ok(ControlResult::Success) => Ok(
                CleanupStop::Verify(
                    StoppedSession { session_name: self.session_name, more_data: false },
                ),
            ),
            Ok(ControlResult::MoreData) => Ok(
                CleanupStop::Verify(
                    StoppedSession { session_name: self.session_name, more_data: true },
                ),
            ),
            Ok(ControlResult::NotFound) => Ok(CleanupStop::Done(CleanupResult::AlreadyAbsent)),
            Ok(ControlResult::AccessDenied) => Err(
                EtwCleanupError::AccessDenied { operation: "stop" },
            ),
            Err(code) => Err(EtwCleanupError::ControlFailed { operation: "stop", code }),
        }
    }
}

/// What the answer to the query after a stop means.
pub open spec fn verdict(answer: Result<ControlResult, u32>, more_data: bool) -> Result<
    CleanupResult,
    CleanupErrorView,
> {
    match answer {
        Ok(ControlResult::NotFound) => Ok(
            if more_data {
                CleanupResult::StoppedAfterMoreData
            } else {
                CleanupResult::Stopped
            },
        ),
        Ok(ControlResult::AccessDenied) => Err(
            CleanupErrorView::AccessDenied { operation: "post-stop query"@ },
        ),
        Ok(ControlResult::Success) | Ok(ControlResult::MoreData) => Err(
            CleanupErrorView::StillRunning,
        ),
        Err(code) => Err(CleanupErrorView::ControlFailed { operation: "post-stop query"@, code }),
    }
}

impl StoppedSession {
    /// The session is the one that this program owns.
    pub closed spec fn well_formed(&self) -> bool {
        self.session_name@ == PROJECT_ETW_SESSION_NAME@
    }

    /// Whether the answer to the stop did not fit.
    pub closed spec fn more_data(&self) -> bool {
        self.more_data
    }

    /// The name to ask for.
    pub fn session_name(&self) -> (name: &'static str)
        requires
            self.well_formed(),
        ensures
            name@ == PROJECT_ETW_SESSION_NAME@,
    {
        self.session_name
    }

    /// Takes the answer to the query after the stop.
    pub fn verify_stopped(self, answer: Result<ControlResult, u32>) -> (r: Result<
        CleanupResult,
        EtwCleanupError,
    >)
        ensures
            match (r, verdict(answer, self.more_data())) {
                (Ok(result), Ok(expected)) => result == expected,
                (Err(error), Err(expected)) => error@ == expected,
                _ => false,
            },
    {
        match answer {
            Ok(ControlResult::NotFound) => {
                if self.more_data {
                    Ok(CleanupResult::StoppedAfterMoreData)
                } else {
                    Ok(CleanupResult::Stopped)
                }
            },
            Ok(ControlResult::AccessDenied) => Err(
                EtwCleanupError::AccessDenied { operation: "post-stop query" },
            ),
            Ok(ControlResult::Success) | Ok(ControlResult::MoreData) => Err(
                EtwCleanupError::StillRunning,
            ),
            Err(code) => Err(EtwCleanupError::ControlFailed { operation: "post-stop query", code }),
        }
    }
}

/// A cleanup reports a session as stopped only where the last answer said that it is gone.
pub proof fn law_success_means_gone(answer: Result<ControlResult, u32>, more_data: bool)
    ensures
        verdict(answer, more_data) is Ok <==> answer == Ok::<ControlResult, u32>(
            ControlResult::NotFound,
        ),
        prepared(answer) == Ok::<bool, CleanupErrorView>(false) <==> answer == Ok::<
            ControlResult,
            u32,
        >(ControlResult::NotFound),
{
}

/// Where the parts of a session's properties stand in one buffer.
#[derive(Debug, Clone, Copy, PartialEq, Eq, Structural)]
pub struct PropertiesLayout {
    /// The words of the buffer.
    pub word_count: usize,
    /// The bytes of the buffer.
    pub buffer_size: u32,
    /// Where the session's name starts.
    pub logger_name_offset: u32,
    /// Where the log file's name starts.
    pub log_file_name_offset: u32,
}

/// The most characters of a session's name.
pub const MAX_SESSION_NAME_CHARS: usize = 1024;

/// The most characters of a log file's name.
pub const MAX_LOG_FILE_NAME_CHARS: usize = 1024;

/// The bytes of a name's room: two for each character and two for the end mark.
pub const NAME_ROOM_BYTES: usize = 2050;

/// The bytes that the properties and both names need.
pub open spec fn bytes_needed(properties_size: usize) -> int {
    properties_size + NAME_ROOM_BYTES + NAME_ROOM_BYTES
}

/// The words of a size that hold a number of bytes.
pub open spec fn words_for(bytes: int, word_size: usize) -> int {
    (bytes + word_size - 1) / (word_size as int)
}

/// Lays out the properties and both names one behind the other, in whole words.
pub fn properties_layout(properties_size: usize, word_size: usize) -> (r: Result<
    PropertiesLayout,
    u32,
>)
    requires
        0 < word_size <= 16,
    ensures
        match r {
            Ok(layout) => {
                &&& layout.word_count == words_for(bytes_needed(properties_size), word_size)
                &&& layout.buffer_size == layout.word_count * word_size
                &&& layout.logger_name_offset == properties_size
                &&& layout.log_file_name_offset == properties_size + NAME_ROOM_BYTES
                &&& layout.buffer_size >= bytes_needed(properties_size)
            },
            Err(code) => code == ERROR_ARITHMETIC_OVERFLOW && words_for(
                bytes_needed(properties_size),
                word_size,
            ) * word_size > u32::MAX,
        },
{
    proof {
        let bytes = bytes_needed(properties_size);
        let w = word_size as int;
        vstd::arithmetic::div_mod::lemma_fundamental_div_mod(bytes + w - 1, w);
        vstd::arithmetic::div_mod::lemma_mod_bound(bytes + w - 1, w);
        vstd::arithmetic::mul::lemma_mul_is_commutative((bytes + w - 1) / w, w);
    }
    let log_file_offset: usize = match properties_size.checked_add(NAME_ROOM_BYTES) {
        Some(n) => n,
        None => {
            return Err(ERROR_ARITHMETIC_OVERFLOW);
        },
    };
    let required: usize = match log_file_offset.checked_add(NAME_ROOM_BYTES) {
        Some(n) => n,
        None => {
            return Err(ERROR_ARITHMETIC_OVERFLOW);
        },
    };
    if required > u32::MAX as usize {
        return Err(ERROR_ARITHMETIC_OVERFLOW);
    }
    let word_count: u64 = (required as u64 + word_size as u64 - 1) / word_size as u64;
    assert(word_count as int == words_for(bytes_needed(properties_size), word_size));
    assert(word_count * word_size <= required + word_size - 1);
    let actual: u64 = word_count * word_size as u64;
    if actual > u32::MAX as u64 {
        return Err(ERROR_ARITHMETIC_OVERFLOW);
    }
    assert(word_count <= actual) by (nonlinear_arith)
        requires
            actual == word_count * word_size,
            word_size >= 1,
    ;
    Ok(
        PropertiesLayout {
            word_count: word_count as usize,
            buffer_size: actual as u32,
            logger_name_offset: properties_size as u32,
            log_file_name_offset: log_file_offset as u32,
        },
    )
}

/// The parts of the properties do not overlap, and each name has room for its most characters and
/// its end mark.
pub proof fn law_names_have_room(properties_size: usize, layout: PropertiesLayout)
    requires
        layout.logger_name_offset == properties_size,
        layout.log_file_name_offset == properties_size + NAME_ROOM_BYTES,
        layout.buffer_size >= bytes_needed(properties_size),
    ensures
        properties_size <= layout.logger_name_offset,
        layout.logger_name_offset + 2 * (MAX_SESSION_NAME_CHARS + 1)
            <= layout.log_file_name_offset,
        layout.log_file_name_offset + 2 * (MAX_LOG_FILE_NAME_CHARS + 1) <= layout.buffer_size,
{
}

} // verus!
