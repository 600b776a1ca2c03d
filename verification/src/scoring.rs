//! Writing a new score.
//!
//! An update gives the user its score in the ranking set, stores a snapshot
//! of the submitted activity for a day, and publishes the change. The score
//! is the number of steps, and it replaces the score the user had.

use vstd::prelude::*;
use crate::keys::{leaderboard_key, leaderboard_key_text, user_details_key, user_details_key_text};
use crate::models::{
    LeaderboardEntry, LeaderboardEntryView, LeaderboardEvent, LeaderboardEventView,
    ScoreUpdateRequest,
};
use crate::port::{CacheValue, CacheValueView, Command, CommandView, Reply, ReplyView};
use crate::operation::{Expected, ServiceError, Step};
use crate::time::Timestamp;

verus! {

/// The seconds for which a snapshot is kept: one day.
pub const DETAILS_TTL_SECS: u64 = 86400;

/// The snapshot that an update stores: the submitted activity, no name and
/// no rank.
pub open spec fn update_snapshot(
    user: Seq<char>,
    competition: Seq<char>,
    steps: i64,
    distance: i64,
    calories: i64,
    now: Timestamp,
) -> LeaderboardEntryView {
    LeaderboardEntryView {
        user_id: user,
        user_name: Seq::empty(),
        competition_id: competition,
        score: steps,
        rank: 0,
        steps,
        distance,
        calories,
        last_synced_at: now,
        updated_at: now,
    }
}

/// The event that an update publishes.
pub open spec fn update_event(
    user: Seq<char>,
    competition: Seq<char>,
    score: i64,
    now: Timestamp,
) -> LeaderboardEventView {
    LeaderboardEventView {
        event_type: "score_update"@,
        competition_id: competition,
        user_id: user,
        score,
        timestamp: now,
    }
}

/// An update of a score that is under way.
#[derive(Debug, PartialEq, Eq)]
pub enum ScoreUpdate {
    /// The score is being written to the ranking set.
    Ranking { snapshot: LeaderboardEntry, event: LeaderboardEvent },
    /// The snapshot is being stored.
    Snapshot { event: LeaderboardEvent },
    /// The event is being published.
    Publishing,
}

pub enum ScoreUpdateView {
    Ranking { snapshot: LeaderboardEntryView, event: LeaderboardEventView },
    Snapshot { event: LeaderboardEventView },
    Publishing,
}

impl View for ScoreUpdate {
    type V = ScoreUpdateView;

    open spec fn view(&self) -> ScoreUpdateView {
        match self {
            ScoreUpdate::Ranking { snapshot, event } => ScoreUpdateView::Ranking {
                snapshot: snapshot@,
                event: event@,
            },
            ScoreUpdate::Snapshot { event } => ScoreUpdateView::Snapshot { event: event@ },
            ScoreUpdate::Publishing => ScoreUpdateView::Publishing,
        }
    }
}

impl ScoreUpdateView {
    /// The update when it begins.
    pub open spec fn initial(
        user: Seq<char>,
        competition: Seq<char>,
        steps: i64,
        distance: i64,
        calories: i64,
        now: Timestamp,
    ) -> ScoreUpdateView {
        ScoreUpdateView::Ranking {
            snapshot: update_snapshot(user, competition, steps, distance, calories, now),
            event: update_event(user, competition, steps, now),
        }
    }

    /// The first command of an update: the score for the ranking set.
    pub open spec fn first_command(user: Seq<char>, competition: Seq<char>, steps: i64)
        -> CommandView {
        CommandView::ZAdd { key: leaderboard_key_text(competition), score: steps, member: user }
    }

    /// The command that stores `snapshot`.
    pub open spec fn store_command(snapshot: LeaderboardEntryView) -> CommandView {
        CommandView::Put {
            key: user_details_key_text(snapshot.competition_id, snapshot.user_id),
            value: CacheValueView::Entry(snapshot),
            ttl_secs: DETAILS_TTL_SECS,
        }
    }

    /// The command that publishes `event` on the channel of its competition.
    pub open spec fn publish_command(event: LeaderboardEventView) -> CommandView {
        CommandView::Publish { channel: leaderboard_key_text(event.competition_id), event }
    }

    /// What the update does with `reply`: it goes on after each command that
    /// was carried out, and ends with the failure of the first that was not.
    pub open spec fn step(self, reply: ReplyView) -> Expected<ScoreUpdateView, ()> {
        match reply {
            ReplyView::Done => match self {
                ScoreUpdateView::Ranking { snapshot, event } => Expected::Ask(
                    ScoreUpdateView::Snapshot { event },
                    Self::store_command(snapshot),
                ),
                ScoreUpdateView::Snapshot { event } => Expected::Ask(
                    ScoreUpdateView::Publishing,
                    Self::publish_command(event),
                ),
                ScoreUpdateView::Publishing => Expected::Finished(Ok(())),
            },
            ReplyView::Failed(error) => Expected::Finished(Err(ServiceError::Cache(error))),
            _ => Expected::Finished(Err(ServiceError::UnexpectedReply)),
        }
    }
}

/// `step` is what `expected` says, view for view.
pub open spec fn update_agrees(
    step: Step<ScoreUpdate, ()>,
    expected: Expected<ScoreUpdateView, ()>,
) -> bool {
    match (step, expected) {
        (Step::Ask(update, command), Expected::Ask(update_view, command_view)) => update@
            == update_view && command@ == command_view,
        (Step::Finished(Ok(_)), Expected::Finished(Ok(_))) => true,
        (Step::Finished(Err(error)), Expected::Finished(Err(expected_error))) => error
            == expected_error,
        _ => false,
    }
}

impl ScoreUpdate {
    /// Begins the update that `request` asks for, stamped `now`.
    pub fn start(request: &ScoreUpdateRequest, now: Timestamp) -> (begun: (ScoreUpdate, Command))
        ensures
            begun.0@ == ScoreUpdateView::initial(
                request.user_id@,
                request.competition_id@,
                request.steps,
                request.distance,
                request.calories,
                now,
            ),
            begun.1@ == ScoreUpdateView::first_command(
                request.user_id@,
                request.competition_id@,
                request.steps,
            ),
    {
        let snapshot = LeaderboardEntry {
            user_id: request.user_id.clone(),
            user_name: String::new(),
            competition_id: request.competition_id.clone(),
            score: request.steps,
            rank: 0,
            steps: request.steps,
            distance: request.distance,
            calories: request.calories,
            last_synced_at: now,
            updated_at: now,
        };
        let event = LeaderboardEvent {
            event_type: "score_update".to_owned(),
            competition_id: request.competition_id.clone(),
            user_id: request.user_id.clone(),
            score: request.steps,
            timestamp: now,
        };
        let command = Command::ZAdd {
            key: leaderboard_key(request.competition_id.as_str()),
            score: request.steps,
            member: request.user_id.clone(),
        };
        (ScoreUpdate::Ranking { snapshot, event }, command)
    }

    /// Takes the reply to the command that this update asked last, and says
    /// what comes next.
    pub fn step(self, reply: Reply) -> (step: Step<ScoreUpdate, ()>)
        ensures
            update_agrees(step, self@.step(reply@)),
    {
        match reply {
            Reply::Done => match self {
                ScoreUpdate::Ranking { snapshot, event } => {
                    let key = user_details_key(
                        snapshot.competition_id.as_str(),
                        snapshot.user_id.as_str(),
                    );
                    Step::Ask(
                        ScoreUpdate::Snapshot { event },
                        Command::Put {
                            key,
                            value: CacheValue::Entry(snapshot),
                            ttl_secs: DETAILS_TTL_SECS,
                        },
                    )
                },
                ScoreUpdate::Snapshot { event } => {
                    let channel = leaderboard_key(event.competition_id.as_str());
                    Step::Ask(ScoreUpdate::Publishing, Command::Publish { channel, event })
                },
                ScoreUpdate::Publishing => Step::Finished(Ok(())),
            },
            Reply::Failed(error) => Step::Finished(Err(ServiceError::Cache(error))),
            _ => Step::Finished(Err(ServiceError::UnexpectedReply)),
        }
    }
}

} // verus!
