//! The engine: the debouncer and the session tally behind the two decisions
//! that the surrounding loop asks for, what to do on a filesystem event and
//! what to do with a replay file's bytes.

use crate::debounce::action_for;
use crate::debounce::pending_after;
use crate::debounce::Action;
use crate::debounce::Debouncer;
use crate::debounce::RawEvent;
use crate::record::extract;
use crate::record::extraction_of;
use crate::record::ExtractError;
use crate::record::MatchRecord;
use crate::record::MatchRecordView;
use crate::report::render;
use crate::report::report_text;
use crate::tally::merged;
use crate::tally::mergeable;
use crate::tally::SessionState;
use crate::tally::SessionView;
use vstd::prelude::*;

verus! {

/// Why a replay file was skipped. The session is as it was before.
#[derive(Clone, Copy, Debug, PartialEq, Eq, Structural)]
pub enum Skip {
    /// The file gave no match record.
    Unreadable(ExtractError),
    /// A count or a sum of the session would leave the range of 64 bits.
    TallyFull,
}

/// The engine of one session.
#[derive(Debug)]
pub struct Engine {
    debouncer: Debouncer,
    session: SessionState,
}

/// The mathematical value of an [`Engine`].
pub struct EngineView {
    pub pending: Option<Seq<char>>,
    pub session: SessionView,
}

impl View for Engine {
    type V = EngineView;

    closed spec fn view(&self) -> EngineView {
        EngineView { pending: self.debouncer@, session: self.session@ }
    }
}

/// What folding a match into a session gives: the new session and the report
/// on it, or the reason why the match is skipped.
pub open spec fn absorbed(session: SessionView, record: MatchRecordView) -> Result<
    (SessionView, Seq<char>),
    Skip,
> {
    if mergeable(session, record) {
        Ok((merged(session, record), report_text(merged(session, record))))
    } else {
        Err(Skip::TallyFull)
    }
}

/// What a replay file's bytes do to a session.
pub open spec fn replayed(session: SessionView, data: Seq<u8>) -> Result<
    (SessionView, Seq<char>),
    Skip,
> {
    match extraction_of(data) {
        Ok(record) => absorbed(session, record),
        Err(e) => Err(Skip::Unreadable(e)),
    }
}

/// Whether an engine step came out as `expected`: on success the session is
/// the new one and the text is its report; on a skip the session is as it
/// was.
pub open spec fn stepped(
    before: EngineView,
    after: EngineView,
    outcome: Result<String, Skip>,
    expected: Result<(SessionView, Seq<char>), Skip>,
) -> bool {
    &&& after.pending == before.pending
    &&& match (outcome, expected) {
        (Ok(text), Ok((session, report))) => after.session == session && text@ == report,
        (Err(skip), Err(reason)) => skip == reason && after.session == before.session,
        _ => false,
    }
}

impl Engine {
    /// An engine with an idle debouncer and an empty session.
    pub fn new() -> (engine: Engine)
        ensures
            engine@.pending is None,
            engine@.session.players.len() == 0,
            engine@.session.games_played == 0,
    {
        Engine { debouncer: Debouncer::new(), session: SessionState::new() }
    }

    /// The session as it stands.
    pub fn session(&self) -> (session: &SessionState)
        ensures
            session@ == self@.session,
    {
        &self.session
    }

    /// Takes a filesystem event in, and says what the loop is to do: on
    /// `Read`, to read the file and hand its bytes to [`Engine::on_replay`].
    /// The session is not touched.
    pub fn on_event(&mut self, event: &RawEvent) -> (action: Action)
        ensures
            final(self)@.session == old(self)@.session,
            final(self)@.pending == pending_after(old(self)@.pending, event@),
            action@ == action_for(old(self)@.pending, event@),
    {
        self.debouncer.react(event)
    }

    /// Folds a match record into the session and renders the report on the
    /// new session. Where a count or a sum would no longer fit, the match is
    /// skipped and the session stays as it was.
    pub fn on_record(&mut self, record: &MatchRecord) -> (outcome: Result<String, Skip>)
        ensures
            stepped(old(self)@, final(self)@, outcome, absorbed(old(self)@.session, record@)),
    {
        if self.session.try_merge(record) {
            Ok(render(&self.session))
        } else {
            Err(Skip::TallyFull)
        }
    }

    /// Takes the bytes of a replay file that is ready: extracts the match
    /// record, folds it into the session and renders the report. A file that
    /// gives no record is skipped, and the session stays as it was.
    pub fn on_replay(&mut self, data: &[u8]) -> (outcome: Result<String, Skip>)
        ensures
            stepped(old(self)@, final(self)@, outcome, replayed(old(self)@.session, data@)),
    {
        match extract(data) {
            Ok(record) => self.on_record(&record),
            Err(e) => Err(Skip::Unreadable(e)),
        }
    }
}

} // verus!
