//! What a repository of sessions is asked, and what it answers, written down call by call.
use crate::recording;
use crate::recording::{Batch, BatchView};
use crate::session::{
    AlertRecord, EndpointSummary, ExportFormat, ProcessSessionSummary, SessionBucket,
    SessionDetail, SessionId, SessionRecord, SessionRepository, SessionStatus,
};
use vstd::prelude::*;

verus! {

/// A call of the repository: what it was asked and what it answered.
pub enum RepositoryCall {
    Recover { timestamp: u64, answer: Result<usize, String> },
    Start {
        name: Seq<char>,
        notes: Seq<char>,
        timestamp: u64,
        answer: Result<SessionId, String>,
    },
    Finish {
        id: SessionId,
        timestamp: u64,
        status: SessionStatus,
        answer: Result<bool, String>,
    },
    Append { batch: BatchView, answer: Result<(), String> },
    List { limit: usize, answer: Result<Vec<SessionRecord>, String> },
    Detail { id: SessionId, answer: Result<Option<SessionDetail>, String> },
    Delete { id: SessionId, answer: Result<bool, String> },
    DeleteEnded { cutoff: u64, answer: Result<usize, String> },
    Setting { key: Seq<char>, answer: Result<Option<String>, String> },
    SetSetting { key: Seq<char>, value: Seq<char>, answer: Result<(), String> },
    Export { id: SessionId, format: ExportFormat, path: Seq<char>, answer: Result<(), String> },
}

/// Whether a repository may have given the answer of a call to what it was asked.
pub open spec fn answered_by<R: SessionRepository>(repository: R, call: RepositoryCall) -> bool {
    match call {
        RepositoryCall::Recover { timestamp, answer } => call_ensures(
            R::recover_interrupted,
            (&repository, timestamp),
            answer,
        ),
        RepositoryCall::Start { name, notes, timestamp, answer } => exists|
            title: &str,
            kept: &str,
        | #[trigger]
            call_ensures(R::start_session, (&repository, title, kept, timestamp), answer) && title@
                == name && kept@ == notes,
        RepositoryCall::Finish { id, timestamp, status, answer } => call_ensures(
            R::finish_session,
            (&repository, id, timestamp, status),
            answer,
        ),
        RepositoryCall::Append { batch, answer } => exists|
            buckets: &[SessionBucket],
            processes: &[ProcessSessionSummary],
            endpoints: &[EndpointSummary],
            alerts: &[AlertRecord],
        |
            {
                &&& #[trigger] call_ensures(
                    R::append_batch,
                    (&repository, batch.id, buckets, processes, endpoints, alerts),
                    answer,
                )
                &&& buckets@ == seq![batch.bucket]
                &&& recording::process_views(processes@) == batch.processes
                &&& recording::endpoint_views(endpoints@) == batch.endpoints
                &&& recording::alert_record_views(alerts@) == batch.alerts
            },
        RepositoryCall::List { limit, answer } => call_ensures(
            R::list_sessions,
            (&repository, limit),
            answer,
        ),
        RepositoryCall::Detail { id, answer } => call_ensures(
            R::detail,
            (&repository, id),
            answer,
        ),
        RepositoryCall::Delete { id, answer } => call_ensures(
            R::delete_session,
            (&repository, id),
            answer,
        ),
        RepositoryCall::DeleteEnded { cutoff, answer } => call_ensures(
            R::delete_sessions_ended_before,
            (&repository, cutoff),
            answer,
        ),
        RepositoryCall::Setting { key, answer } => exists|name: &str| #[trigger]
            call_ensures(R::setting, (&repository, name), answer) && name@ == key,
        RepositoryCall::SetSetting { key, value, answer } => exists|name: &str, kept: &str|
            #[trigger]
            call_ensures(R::set_setting, (&repository, name, kept), answer) && name@ == key && kept@
                == value,
        RepositoryCall::Export { id, format, path, answer } => exists|file: &str| #[trigger]
            call_ensures(R::export_session, (&repository, id, format, file), answer) && file@
                == path,
    }
}

/// A repository that can be called through the journal alone: each method makes the one call that
/// it is named after and writes it down. Whoever holds a journal says by its calls what the
/// repository was asked, how often and in which order.
///
/// That an answer which is written down was given by the repository is proved. That a method here
/// makes no further call is read off its body: a call leaves no trace in the value of a repository,
/// of whose methods nothing is promised.
pub struct Journal<R: SessionRepository> {
    repository: R,
    calls: Ghost<Seq<RepositoryCall>>,
}

impl<R: SessionRepository> Journal<R> {
    /// The repository.
    pub closed spec fn repository(&self) -> R {
        self.repository
    }

    /// The calls that the repository has answered, the first one first.
    pub closed spec fn calls(&self) -> Seq<RepositoryCall> {
        self.calls@
    }

    /// Every answer that is written down was given by the repository.
    pub open spec fn well_formed(&self) -> bool {
        forall|i: int|
            0 <= i < self.calls().len() ==> answered_by(
                self.repository(),
                #[trigger] self.calls()[i],
            )
    }

    /// Whether a journal comes of this one by one more call.
    pub open spec fn goes_on(&self, call: RepositoryCall, after: Journal<R>) -> bool {
        &&& after.well_formed()
        &&& after.repository() == self.repository()
        &&& after.calls() == self.calls().push(call)
    }

    /// A repository that has not been called yet.
    pub fn new(repository: R) -> (journal: Journal<R>)
        ensures
            journal.well_formed(),
            journal.repository() == repository,
            journal.calls() == Seq::<RepositoryCall>::empty(),
    {
        Journal { repository, calls: Ghost(Seq::empty()) }
    }

    /// Writes a call down that the repository has answered.
    fn note(&mut self, call: Ghost<RepositoryCall>)
        requires
            old(self).well_formed(),
            answered_by(old(self).repository(), call@),
        ensures
            old(self).goes_on(call@, *final(self)),
    {
        let ghost before = self.calls@;
        self.calls = Ghost(before.push(call@));
        assert forall|i: int| 0 <= i < self.calls().len() implies answered_by(
            self.repository(),
            #[trigger] self.calls()[i],
        ) by {
            if i < before.len() {
                assert(answered_by(old(self).repository(), old(self).calls()[i]));
            }
        }
    }

    /// Marks the sessions that were left recording as interrupted.
    pub fn recover_interrupted(&mut self, timestamp: u64) -> (answer: Result<usize, String>)
        requires
            old(self).well_formed(),
        ensures
            old(self).goes_on(RepositoryCall::Recover { timestamp, answer }, *final(self)),
    {
        let answer = self.repository.recover_interrupted(timestamp);
        self.note(Ghost(RepositoryCall::Recover { timestamp, answer }));
        answer
    }

    /// Starts a session.
    pub fn start_session(&mut self, name: &str, notes: &str, timestamp: u64) -> (answer: Result<
        SessionId,
        String,
    >)
        requires
            old(self).well_formed(),
        ensures
            old(self).goes_on(
                RepositoryCall::Start { name: name@, notes: notes@, timestamp, answer },
                *final(self),
            ),
    {
        let answer = self.repository.start_session(name, notes, timestamp);
        self.note(Ghost(RepositoryCall::Start { name: name@, notes: notes@, timestamp, answer }));
        answer
    }

    /// Finishes a session.
    pub fn finish_session(
        &mut self,
        id: SessionId,
        timestamp: u64,
        status: SessionStatus,
    ) -> (answer: Result<bool, String>)
        requires
            old(self).well_formed(),
        ensures
            old(self).goes_on(
                RepositoryCall::Finish { id, timestamp, status, answer },
                *final(self),
            ),
    {
        let answer = self.repository.finish_session(id, timestamp, status);
        self.note(Ghost(RepositoryCall::Finish { id, timestamp, status, answer }));
        answer
    }

    /// Stores what a snapshot gives.
    pub fn append_batch(&mut self, batch: &Batch) -> (answer: Result<(), String>)
        requires
            old(self).well_formed(),
        ensures
            old(self).goes_on(RepositoryCall::Append { batch: batch@, answer }, *final(self)),
    {
        let mut buckets: Vec<SessionBucket> = Vec::new();
        buckets.push(batch.bucket);
        assert(buckets@ =~= seq![batch.bucket]);
        let answer = self.repository.append_batch(
            batch.id,
            buckets.as_slice(),
            batch.processes.as_slice(),
            batch.endpoints.as_slice(),
            batch.alerts.as_slice(),
        );
        self.note(Ghost(RepositoryCall::Append { batch: batch@, answer }));
        answer
    }

    /// The sessions, up to a number of them.
    pub fn list_sessions(&mut self, limit: usize) -> (answer: Result<Vec<SessionRecord>, String>)
        requires
            old(self).well_formed(),
        ensures
            old(self).goes_on(RepositoryCall::List { limit, answer }, *final(self)),
    {
        let answer = self.repository.list_sessions(limit);
        self.note(Ghost(RepositoryCall::List { limit, answer }));
        answer
    }

    /// All that is stored of a session.
    pub fn detail(&mut self, id: SessionId) -> (answer: Result<Option<SessionDetail>, String>)
        requires
            old(self).well_formed(),
        ensures
            old(self).goes_on(RepositoryCall::Detail { id, answer }, *final(self)),
    {
        let answer = self.repository.detail(id);
        self.note(Ghost(RepositoryCall::Detail { id, answer }));
        answer
    }

    /// Deletes a session.
    pub fn delete_session(&mut self, id: SessionId) -> (answer: Result<bool, String>)
        requires
            old(self).well_formed(),
        ensures
            old(self).goes_on(RepositoryCall::Delete { id, answer }, *final(self)),
    {
        let answer = self.repository.delete_session(id);
        self.note(Ghost(RepositoryCall::Delete { id, answer }));
        answer
    }

    /// Deletes the sessions that ended before a time.
    pub fn delete_sessions_ended_before(&mut self, cutoff: u64) -> (answer: Result<usize, String>)
        requires
            old(self).well_formed(),
        ensures
            old(self).goes_on(RepositoryCall::DeleteEnded { cutoff, answer }, *final(self)),
    {
        let answer = self.repository.delete_sessions_ended_before(cutoff);
        self.note(Ghost(RepositoryCall::DeleteEnded { cutoff, answer }));
        answer
    }

    /// The value of a setting.
    pub fn setting(&mut self, key: &str) -> (answer: Result<Option<String>, String>)
        requires
            old(self).well_formed(),
        ensures
            old(self).goes_on(RepositoryCall::Setting { key: key@, answer }, *final(self)),
    {
        let answer = self.repository.setting(key);
        self.note(Ghost(RepositoryCall::Setting { key: key@, answer }));
        answer
    }

    /// Stores the value of a setting.
    pub fn set_setting(&mut self, key: &str, value: &str) -> (answer: Result<(), String>)
        requires
            old(self).well_formed(),
        ensures
            old(self).goes_on(
                RepositoryCall::SetSetting { key: key@, value: value@, answer },
                *final(self),
            ),
    {
        let answer = self.repository.set_setting(key, value);
        self.note(Ghost(RepositoryCall::SetSetting { key: key@, value: value@, answer }));
        answer
    }

    /// Exports a session.
    pub fn export_session(&mut self, id: SessionId, format: ExportFormat, path: &str) -> (answer:
        Result<(), String>)
        requires
            old(self).well_formed(),
        ensures
            old(self).goes_on(
                RepositoryCall::Export { id, format, path: path@, answer },
                *final(self),
            ),
    {
        let answer = self.repository.export_session(id, format, path);
        self.note(Ghost(RepositoryCall::Export { id, format, path: path@, answer }));
        answer
    }
}

} // verus!
