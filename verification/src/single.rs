//! Playing one level on its own, without the menus.

use crate::catalog;
use crate::catalog::{Catalog, CatalogView};
use crate::level::Level;
use crate::progress::{Progress, ProgressView};
use crate::session::{GameSession, LevelOutcome, LevelResult, OutcomeView, SessionView};
use crate::time::Duration;
use vstd::prelude::*;

verus! {

/// Why a level cannot be played.
#[derive(Debug)]
pub enum LaunchError {
    /// There is no level with this identifier.
    UnknownLevel(String),
    /// The level has not been unlocked.
    Locked(String),
}

/// What a [`LaunchError`] holds.
#[verifier::ext_equal]
pub enum LaunchErrorView {
    UnknownLevel(Seq<char>),
    Locked(Seq<char>),
}

impl View for LaunchError {
    type V = LaunchErrorView;

    open spec fn view(&self) -> LaunchErrorView {
        match self {
            LaunchError::UnknownLevel(id) => LaunchErrorView::UnknownLevel(id@),
            LaunchError::Locked(id) => LaunchErrorView::Locked(id@),
        }
    }
}

impl LaunchErrorView {
    /// The error in words.
    pub open spec fn words(self) -> Seq<char> {
        match self {
            LaunchErrorView::UnknownLevel(id) => "unknown level `"@ + id + "`"@,
            LaunchErrorView::Locked(id) => "level `"@ + id + "` is locked"@,
        }
    }
}

impl LaunchError {
    /// The error in words.
    pub fn message(&self) -> (message: String)
        ensures
            message@ == self@.words(),
    {
        match self {
            LaunchError::UnknownLevel(id) => {
                let mut message: String = "unknown level `".to_string();
                message.append(id.as_str());
                message.append("`");
                message
            },
            LaunchError::Locked(id) => {
                let mut message: String = "level `".to_string();
                message.append(id.as_str());
                message.append("` is locked");
                message
            },
        }
    }
}

/// What comes of asking for a level: the level about to be played, or the reason why
/// it cannot be.
pub open spec fn launched(
    catalog: CatalogView,
    progress: ProgressView,
    id: Seq<char>,
    seed: u64,
) -> Result<SessionView, LaunchErrorView> {
    match catalog.find(id) {
        None => Err(LaunchErrorView::UnknownLevel(id)),
        Some(level) => if progress.unlocked(level.id) {
            Ok(SessionView::of_level(level, seed))
        } else {
            Err(LaunchErrorView::Locked(level.id))
        },
    }
}

/// The outcome of a session that is over: its own, or a quit where it has none.
pub open spec fn outcome_of(session: SessionView, now: Duration) -> OutcomeView {
    match session.finished {
        Some(outcome) => outcome,
        None => OutcomeView {
            level_id: session.level.id,
            result: LevelResult::Quit,
            elapsed: now,
            commands: session.accepted_commands,
            message: "Level closed."@,
            hint: None,
        },
    }
}

/// The progress after a session that is over.
pub open spec fn progress_after(
    progress: ProgressView,
    session: SessionView,
    outcome: OutcomeView,
) -> ProgressView {
    if outcome.result == LevelResult::Clear {
        progress.recorded(session.level.id, outcome.elapsed.millis() as u128, outcome.commands)
    } else {
        progress
    }
}

/// Starts the level with this identifier, if there is one and it is unlocked.
pub fn launch_level(catalog: &Catalog, progress: &Progress, level_id: &str, seed: u64) -> (session:
    Result<GameSession, LaunchError>)
    requires
        catalog@.wf(),
    ensures
        match session {
            Ok(session) => launched(catalog@, progress@, level_id@, seed) == Ok::<
                SessionView,
                LaunchErrorView,
            >(session@) && session@.wf(),
            Err(error) => launched(catalog@, progress@, level_id@, seed) == Err::<
                SessionView,
                LaunchErrorView,
            >(error@),
        },
{
    proof {
        catalog::lookup_finds_what_is_there(catalog@, level_id@);
    }
    match catalog.level(level_id) {
        None => Err(LaunchError::UnknownLevel(level_id.to_string())),
        Some(level) => if progress.is_unlocked(level.id.as_str()) {
            Ok(GameSession::new(level, seed))
        } else {
            Err(LaunchError::Locked(level.id.clone()))
        },
    }
}

/// Takes the outcome out of a session that is over, `now` after its start, and
/// records a clear.
pub fn settle_level_at(
    session: &mut GameSession,
    progress: &mut Progress,
    now: Duration,
) -> (outcome: LevelOutcome)
    ensures
        outcome@ == outcome_of(old(session)@, now),
        final(progress)@ == progress_after(old(progress)@, old(session)@, outcome@),
        final(session)@ == (SessionView { finished: None, ..old(session)@ }),
        final(session).start == old(session).start,
        old(progress).wf() ==> final(progress).wf(),
{
    let outcome: LevelOutcome = match session.finished.take() {
        Some(outcome) => outcome,
        None => LevelOutcome {
            level_id: session.level.id.clone(),
            result: LevelResult::Quit,
            elapsed: now,
            commands: session.accepted_commands,
            message: "Level closed.".to_string(),
            hint: None,
        },
    };
    if outcome.result == LevelResult::Clear {
        progress.record_clear(session.level.id.as_str(), outcome.elapsed, outcome.commands);
    }
    outcome
}

/// Takes the outcome out of a session that is over, by the clock, and records a
/// clear.
pub fn settle_level(session: &mut GameSession, progress: &mut Progress) -> (outcome: LevelOutcome)
    ensures
        exists|now: Duration| now.wf() && outcome@ == #[trigger] outcome_of(old(session)@, now),
        final(progress)@ == progress_after(old(progress)@, old(session)@, outcome@),
        final(session)@ == (SessionView { finished: None, ..old(session)@ }),
        final(session).start == old(session).start,
        old(progress).wf() ==> final(progress).wf(),
{
    let now: Duration = session.elapsed();
    settle_level_at(session, progress, now)
}

/// A level is played on its own exactly when it is in the catalogue and unlocked, and it is
/// then played with the given seed; otherwise the error says which of the two is missing.
pub proof fn only_unlocked_levels_are_launched(
    catalog: CatalogView,
    progress: ProgressView,
    id: Seq<char>,
    seed: u64,
)
    ensures
        catalog.find(id) is None ==> launched(catalog, progress, id, seed) == Err::<
            SessionView,
            LaunchErrorView,
        >(LaunchErrorView::UnknownLevel(id)),
        catalog.find(id) matches Some(level) ==> {
            &&& level.id == id
            &&& progress.unlocked(id) ==> launched(catalog, progress, id, seed) == Ok::<
                SessionView,
                LaunchErrorView,
            >(SessionView::of_level(level, seed))
            &&& !progress.unlocked(id) ==> launched(catalog, progress, id, seed) == Err::<
                SessionView,
                LaunchErrorView,
            >(LaunchErrorView::Locked(id))
        },
        LaunchErrorView::UnknownLevel(id).words() == "unknown level `"@ + id + "`"@,
        LaunchErrorView::Locked(id).words() == "level `"@ + id + "` is locked"@,
{
    catalog::lookup_finds_what_is_there(catalog, id);
}

/// A session that ended gives its own outcome, and one that did not is told as a quit. Only a
/// clear is recorded, for the level that was played, with the time and the commands of the
/// outcome.
pub proof fn sessions_are_settled(
    session: SessionView,
    progress: ProgressView,
    outcome: OutcomeView,
    now: Duration,
)
    ensures
        session.finished matches Some(own) ==> outcome_of(session, now) == own,
        session.finished is None ==> ({
            let quit = outcome_of(session, now);
            &&& quit.level_id == session.level.id
            &&& quit.result == LevelResult::Quit
            &&& quit.elapsed == now
            &&& quit.commands == session.accepted_commands
            &&& quit.message == "Level closed."@
            &&& quit.hint is None
        }),
        outcome.result != LevelResult::Clear ==> progress_after(progress, session, outcome)
            == progress,
        outcome.result == LevelResult::Clear ==> progress_after(progress, session, outcome)
            == progress.recorded(
            session.level.id,
            (outcome.elapsed.secs * 1000 + outcome.elapsed.nanos / 1_000_000) as u128,
            outcome.commands,
        ),
{
}

} // verus!
