//! Reading the standings of a competition.
//!
//! A read asks the cache for the top of the ranking set, then for the
//! snapshot of each member it found, then for the size of the whole set. A
//! read of the top 0 asks for the size alone.

use vstd::prelude::*;
use crate::keys::{leaderboard_key, leaderboard_key_text, user_details_key, user_details_key_text};
use crate::models::{
    entry_views, Leaderboard, LeaderboardEntry, LeaderboardEntryView, LeaderboardView,
};
use crate::port::{CacheError, CacheValue, CacheValueView, Command, CommandView, Reply, ReplyView,
    ValueKind};
use crate::ranking::{standings, Standing};
use crate::operation::{Expected, ServiceError, Step};
use crate::time::Timestamp;

verus! {

/// The number of entries that a read fetches when the caller names none.
pub fn default_limit() -> (limit: isize)
    ensures
        limit == 100,
{
    100
}

/// The entry shown for a member whose snapshot is missing: only its place
/// in the ranking set is known.
pub open spec fn placeholder(
    competition: Seq<char>,
    member: Seq<char>,
    score: i64,
    rank: i32,
    now: Timestamp,
) -> LeaderboardEntryView {
    LeaderboardEntryView {
        user_id: member,
        user_name: "Unknown"@,
        competition_id: competition,
        score,
        rank,
        steps: 0,
        distance: 0,
        calories: 0,
        last_synced_at: now,
        updated_at: now,
    }
}

/// The entry shown for a member: its snapshot, or a placeholder, with the
/// score and the rank that the ranking set gives it.
pub open spec fn listed(
    snapshot: Option<LeaderboardEntryView>,
    competition: Seq<char>,
    member: Seq<char>,
    score: i64,
    rank: i32,
    now: Timestamp,
) -> LeaderboardEntryView {
    match snapshot {
        Some(details) => LeaderboardEntryView { score, rank, ..details },
        None => placeholder(competition, member, score, rank, now),
    }
}

/// The entry shown for a member; see [`listed`].
pub fn listed_entry(
    snapshot: Option<LeaderboardEntry>,
    competition: &str,
    member: &str,
    score: i64,
    rank: i32,
    now: Timestamp,
) -> (entry: LeaderboardEntry)
    ensures
        entry@ == listed(
            match snapshot {
                Some(details) => Some(details@),
                None => None,
            },
            competition@,
            member@,
            score,
            rank,
            now,
        ),
{
    match snapshot {
        Some(details) => LeaderboardEntry {
            user_id: details.user_id,
            user_name: details.user_name,
            competition_id: details.competition_id,
            score,
            rank,
            steps: details.steps,
            distance: details.distance,
            calories: details.calories,
            last_synced_at: details.last_synced_at,
            updated_at: details.updated_at,
        },
        None => LeaderboardEntry {
            user_id: member.to_owned(),
            user_name: "Unknown".to_owned(),
            competition_id: competition.to_owned(),
            score,
            rank,
            steps: 0,
            distance: 0,
            calories: 0,
            last_synced_at: now,
            updated_at: now,
        },
    }
}

/// What a read is waiting for.
#[derive(Clone, Copy, Debug, PartialEq, Eq, Structural)]
pub enum ReadStage {
    /// The top of the ranking set.
    Ranking,
    /// The snapshot of the next member that has no entry yet.
    Details,
    /// The size of the ranking set.
    Count,
}

/// A read of a competition's standings that is under way.
#[derive(Debug, PartialEq, Eq)]
pub struct LeaderboardRead {
    pub competition_id: String,
    pub now: Timestamp,
    pub stage: ReadStage,
    /// The top of the ranking set, once it has arrived.
    pub ranked: Vec<(String, i64)>,
    /// The entries made so far, one for each of the first of `ranked`.
    pub entries: Vec<LeaderboardEntry>,
}

pub struct LeaderboardReadView {
    pub competition_id: Seq<char>,
    pub now: Timestamp,
    pub stage: ReadStage,
    pub ranked: Seq<Standing>,
    pub entries: Seq<LeaderboardEntryView>,
}

impl View for LeaderboardRead {
    type V = LeaderboardReadView;

    open spec fn view(&self) -> LeaderboardReadView {
        LeaderboardReadView {
            competition_id: self.competition_id@,
            now: self.now,
            stage: self.stage,
            ranked: standings(self.ranked@),
            entries: entry_views(self.entries@),
        }
    }
}

/// The largest number of standings that a read accepts in one reply: every
/// rank has to fit the rank field of an entry.
pub const MAX_RANKED: usize = 2147483647;

impl LeaderboardReadView {
    /// The read of the top `limit` when it begins: nothing has arrived. With
    /// a limit of 0 there are no standings to wait for, only the size of the
    /// set.
    pub open spec fn initial(competition: Seq<char>, limit: isize, now: Timestamp)
        -> LeaderboardReadView {
        LeaderboardReadView {
            competition_id: competition,
            now,
            stage: if limit == 0 {
                ReadStage::Count
            } else {
                ReadStage::Ranking
            },
            ranked: Seq::empty(),
            entries: Seq::empty(),
        }
    }

    /// The first command of a read of the top `limit`: the window of the
    /// ranking set from 0 to `limit - 1`. A limit of 0 asks for no standing,
    /// so the read begins with the size of the set. A limit below 0 gives a
    /// window whose end is counted from the last standing.
    pub open spec fn first_command(competition: Seq<char>, limit: isize) -> CommandView {
        if limit == 0 {
            CommandView::ZCard { key: leaderboard_key_text(competition) }
        } else {
            CommandView::ZRevRangeWithScores {
                key: leaderboard_key_text(competition),
                start: 0,
                stop: (limit - 1) as isize,
            }
        }
    }

    /// What the read asks for next: the snapshot of the first member
    /// without an entry, or, when every member has one, the size of the set.
    pub open spec fn proceed(self) -> Expected<LeaderboardReadView, LeaderboardView> {
        if self.entries.len() < self.ranked.len() {
            Expected::Ask(
                LeaderboardReadView { stage: ReadStage::Details, ..self },
                CommandView::Get {
                    key: user_details_key_text(
                        self.competition_id,
                        self.ranked[self.entries.len() as int].0,
                    ),
                    kind: ValueKind::Entry,
                },
            )
        } else {
            Expected::Ask(
                LeaderboardReadView { stage: ReadStage::Count, ..self },
                CommandView::ZCard { key: leaderboard_key_text(self.competition_id) },
            )
        }
    }

    /// The read with the entry of the next member added, made from
    /// `snapshot` or, without one, as a placeholder.
    pub open spec fn listing(self, snapshot: Option<LeaderboardEntryView>) -> LeaderboardReadView {
        let i = self.entries.len() as int;
        LeaderboardReadView {
            entries: self.entries.push(
                listed(
                    snapshot,
                    self.competition_id,
                    self.ranked[i].0,
                    self.ranked[i].1,
                    (i + 1) as i32,
                    self.now,
                ),
            ),
            ..self
        }
    }

    /// The standings that the read returns when the set has `count` members.
    pub open spec fn outcome(self, count: i32) -> LeaderboardView {
        LeaderboardView {
            competition_id: self.competition_id,
            entries: self.entries,
            total_count: count,
            updated_at: self.now,
        }
    }

    /// What the read does with `reply`.
    ///
    /// A failed command ends the read with that failure, with one exception:
    /// a snapshot that is not found is replaced by a placeholder.
    pub open spec fn step(self, reply: ReplyView) -> Expected<LeaderboardReadView, LeaderboardView> {
        match self.stage {
            ReadStage::Ranking => match reply {
                ReplyView::Ranked(list) => if list.len() > MAX_RANKED {
                    Expected::Finished(Err(ServiceError::UnexpectedReply))
                } else {
                    LeaderboardReadView { ranked: list, entries: Seq::empty(), ..self }.proceed()
                },
                ReplyView::Failed(error) => Expected::Finished(Err(ServiceError::Cache(error))),
                _ => Expected::Finished(Err(ServiceError::UnexpectedReply)),
            },
            ReadStage::Details => if self.entries.len() >= self.ranked.len() || self.ranked.len()
                > MAX_RANKED {
                Expected::Finished(Err(ServiceError::UnexpectedReply))
            } else {
                match reply {
                    ReplyView::Value(CacheValueView::Entry(details)) => self.listing(
                        Some(details),
                    ).proceed(),
                    ReplyView::Failed(CacheError::NotFound) => self.listing(None).proceed(),
                    ReplyView::Failed(error) => Expected::Finished(
                        Err(ServiceError::Cache(error)),
                    ),
                    _ => Expected::Finished(Err(ServiceError::UnexpectedReply)),
                }
            },
            ReadStage::Count => match reply {
                ReplyView::Count(count) => Expected::Finished(Ok(self.outcome(count))),
                ReplyView::Failed(error) => Expected::Finished(Err(ServiceError::Cache(error))),
                _ => Expected::Finished(Err(ServiceError::UnexpectedReply)),
            },
        }
    }
}

/// `step` is what `expected` says, view for view.
pub open spec fn read_agrees(
    step: Step<LeaderboardRead, Leaderboard>,
    expected: Expected<LeaderboardReadView, LeaderboardView>,
) -> bool {
    match (step, expected) {
        (Step::Ask(read, command), Expected::Ask(read_view, command_view)) => read@ == read_view
            && command@ == command_view,
        (Step::Finished(Ok(board)), Expected::Finished(Ok(board_view))) => board@ == board_view,
        (Step::Finished(Err(error)), Expected::Finished(Err(expected_error))) => error
            == expected_error,
        _ => false,
    }
}

impl LeaderboardRead {
    /// Begins a read of the top `limit` of a competition, stamped `now`.
    pub fn start(competition_id: &str, limit: isize, now: Timestamp) -> (begun: (
        LeaderboardRead,
        Command,
    ))
        requires
            limit > isize::MIN,
        ensures
            begun.0@ == LeaderboardReadView::initial(competition_id@, limit, now),
            begun.1@ == LeaderboardReadView::first_command(competition_id@, limit),
    {
        let read = LeaderboardRead {
            competition_id: competition_id.to_owned(),
            now,
            stage: if limit == 0 {
                ReadStage::Count
            } else {
                ReadStage::Ranking
            },
            ranked: Vec::new(),
            entries: Vec::new(),
        };
        assert(read@.ranked =~= Seq::<Standing>::empty());
        assert(read@.entries =~= Seq::<LeaderboardEntryView>::empty());
        let key = leaderboard_key(competition_id);
        let command = if limit == 0 {
            Command::ZCard { key }
        } else {
            Command::ZRevRangeWithScores { key, start: 0, stop: limit - 1 }
        };
        (read, command)
    }

    fn proceed(self) -> (step: Step<LeaderboardRead, Leaderboard>)
        ensures
            read_agrees(step, self@.proceed()),
    {
        if self.entries.len() < self.ranked.len() {
            let key = user_details_key(
                self.competition_id.as_str(),
                self.ranked[self.entries.len()].0.as_str(),
            );
            let read = LeaderboardRead {
                competition_id: self.competition_id,
                now: self.now,
                stage: ReadStage::Details,
                ranked: self.ranked,
                entries: self.entries,
            };
            Step::Ask(read, Command::Get { key, kind: ValueKind::Entry })
        } else {
            let key = leaderboard_key(self.competition_id.as_str());
            let read = LeaderboardRead {
                competition_id: self.competition_id,
                now: self.now,
                stage: ReadStage::Count,
                ranked: self.ranked,
                entries: self.entries,
            };
            Step::Ask(read, Command::ZCard { key })
        }
    }

    fn listing(self, snapshot: Option<LeaderboardEntry>) -> (read: LeaderboardRead)
        requires
            self.entries@.len() < self.ranked@.len() <= MAX_RANKED,
        ensures
            read@ == self@.listing(
                match snapshot {
                    Some(details) => Some(details@),
                    None => None,
                },
            ),
    {
        let i: usize = self.entries.len();
        let rank: i32 = (i + 1) as i32;
        let entry = listed_entry(
            snapshot,
            self.competition_id.as_str(),
            self.ranked[i].0.as_str(),
            self.ranked[i].1,
            rank,
            self.now,
        );
        let mut entries = self.entries;
        let ghost before = entries@;
        entries.push(entry);
        assert(entry_views(entries@) =~= entry_views(before).push(entry@));
        LeaderboardRead {
            competition_id: self.competition_id,
            now: self.now,
            stage: self.stage,
            ranked: self.ranked,
            entries,
        }
    }

    /// Takes the reply to the command that this read asked last, and says
    /// what comes next.
    pub fn step(self, reply: Reply) -> (step: Step<LeaderboardRead, Leaderboard>)
        ensures
            read_agrees(step, self@.step(reply@)),
    {
        match self.stage {
            ReadStage::Ranking => match reply {
                Reply::Ranked(list) => {
                    if list.len() > MAX_RANKED {
                        Step::Finished(Err(ServiceError::UnexpectedReply))
                    } else {
                        let read = LeaderboardRead {
                            competition_id: self.competition_id,
                            now: self.now,
                            stage: self.stage,
                            ranked: list,
                            entries: Vec::new(),
                        };
                        assert(read@.entries =~= Seq::<LeaderboardEntryView>::empty());
                        read.proceed()
                    }
                },
                Reply::Failed(error) => Step::Finished(Err(ServiceError::Cache(error))),
                _ => Step::Finished(Err(ServiceError::UnexpectedReply)),
            },
            ReadStage::Details => {
                if self.entries.len() >= self.ranked.len() || self.ranked.len() > MAX_RANKED {
                    Step::Finished(Err(ServiceError::UnexpectedReply))
                } else {
                    match reply {
                        Reply::Value(CacheValue::Entry(details)) => self.listing(
                            Some(details),
                        ).proceed(),
                        Reply::Failed(CacheError::NotFound) => self.listing(None).proceed(),
                        Reply::Failed(error) => Step::Finished(Err(ServiceError::Cache(error))),
                        _ => Step::Finished(Err(ServiceError::UnexpectedReply)),
                    }
                }
            },
            ReadStage::Count => match reply {
                Reply::Count(count) => Step::Finished(
                    Ok(
                        Leaderboard {
                            competition_id: self.competition_id,
                            entries: self.entries,
                            total_count: count,
                            updated_at: self.now,
                        },
                    ),
                ),
                Reply::Failed(error) => Step::Finished(Err(ServiceError::Cache(error))),
                _ => Step::Finished(Err(ServiceError::UnexpectedReply)),
            },
        }
    }
}

} // verus!
