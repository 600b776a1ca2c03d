//! Splitting a prize pool among the first three of a competition.
//!
//! Money is counted in the smallest unit of the currency. A share is the
//! pool times a whole percentage, divided by 100 and rounded down; what
//! rounding leaves over, and the share of a rank that nobody holds, stays in
//! the pool.

use vstd::prelude::*;
use crate::keys::{prize_id, prize_id_text, prizes_key, prizes_key_text};
use crate::leaderboard::{LeaderboardRead, LeaderboardReadView};
use crate::models::{
    entry_views, prize_views, LeaderboardEntry, LeaderboardEntryView, LeaderboardView, Prize,
    PrizeView,
};
use crate::port::{clone_prizes, CacheValue, CacheValueView, Command, CommandView, Reply, ReplyView};
use crate::operation::{Expected, ServiceError, Step};
use crate::time::Timestamp;

verus! {

/// The seconds for which calculated prizes are kept: seven days.
pub const PRIZES_TTL_SECS: u64 = 604800;

/// The number of ranks that win a prize.
pub const PRIZE_RANKS: usize = 3;

/// The percentages of the pool that go to the first three ranks.
#[derive(Clone, Copy, Debug, PartialEq, Eq, Structural)]
pub struct PrizeDistribution {
    pub rank_1_percentage: u8,
    pub rank_2_percentage: u8,
    pub rank_3_percentage: u8,
}

impl Default for PrizeDistribution {
    /// 60, 30 and 10 percent.
    fn default() -> (distribution: PrizeDistribution)
        ensures
            distribution == (PrizeDistribution {
                rank_1_percentage: 60,
                rank_2_percentage: 30,
                rank_3_percentage: 10,
            }),
    {
        PrizeDistribution { rank_1_percentage: 60, rank_2_percentage: 30, rank_3_percentage: 10 }
    }
}

/// The percentage of the pool that goes to `rank`: 60, 30 and 10 for the
/// ranks 1, 2 and 3, nothing below.
pub open spec fn percentage_for(rank: int) -> int {
    if rank == 1 {
        60
    } else if rank == 2 {
        30
    } else if rank == 3 {
        10
    } else {
        0
    }
}

/// `percentage` percent of `pool`, rounded down.
pub open spec fn share_of(pool: u64, percentage: int) -> int {
    pool * percentage / 100
}

/// A share of at most the whole pool is no more than the pool.
pub proof fn lemma_share_fits(pool: u64, percentage: int)
    requires
        0 <= percentage <= 100,
    ensures
        0 <= share_of(pool, percentage) <= pool,
{
    assert(0 <= pool * percentage / 100 <= pool) by (nonlinear_arith)
        requires
            0 <= percentage <= 100,
            0 <= pool,
    ;
}

/// `percentage` percent of `pool`, rounded down. The share has to be a
/// number of the pool's type, as every share of up to 100 percent is.
pub fn share(pool: u64, percentage: u8) -> (amount: u64)
    requires
        share_of(pool, percentage as int) <= u64::MAX,
    ensures
        amount == share_of(pool, percentage as int),
{
    assert(pool * percentage <= u64::MAX * 255) by (nonlinear_arith)
        requires
            0 <= percentage <= 255,
            0 <= pool <= u64::MAX,
    ;
    let product: u128 = (pool as u128) * (percentage as u128);
    (product / 100) as u64
}

/// The prize of `rank` in `competition`, won by `user`, out of `pool`.
pub open spec fn prize_for(
    competition: Seq<char>,
    user: Seq<char>,
    rank: int,
    pool: u64,
    now: Timestamp,
) -> PrizeView {
    PrizeView {
        id: prize_id_text(competition, rank as i32),
        competition_id: competition,
        user_id: user,
        rank: rank as i32,
        amount: share_of(pool, percentage_for(rank)) as u64,
        status: "pending"@,
        distributed_at: None,
        created_at: now,
    }
}

/// The number of prizes among `entrants` entrants: one for each of the
/// first three.
pub open spec fn prize_count(entrants: nat) -> nat {
    if entrants < PRIZE_RANKS {
        entrants
    } else {
        PRIZE_RANKS as nat
    }
}

/// The prizes of a competition whose standings begin with `entries`: one for
/// each of the first three, in the order of the standings.
pub open spec fn awards(
    competition: Seq<char>,
    entries: Seq<LeaderboardEntryView>,
    pool: u64,
    now: Timestamp,
) -> Seq<PrizeView> {
    Seq::new(
        prize_count(entries.len()),
        |i: int| prize_for(competition, entries[i].user_id, i + 1, pool, now),
    )
}

/// The prizes of a competition; see [`awards`].
pub fn award(competition: &str, entries: &Vec<LeaderboardEntry>, pool: u64, now: Timestamp) -> (prizes:
    Vec<Prize>)
    ensures
        prize_views(prizes@) == awards(competition@, entry_views(entries@), pool, now),
{
    let distribution = PrizeDistribution::default();
    let mut prizes: Vec<Prize> = Vec::new();
    let mut i: usize = 0;
    while i < PRIZE_RANKS && i < entries.len()
        invariant
            i <= PRIZE_RANKS,
            i <= entries@.len(),
            prizes@.len() == i,
            distribution == (PrizeDistribution {
                rank_1_percentage: 60,
                rank_2_percentage: 30,
                rank_3_percentage: 10,
            }),
            forall|k: int|
                0 <= k < i ==> (#[trigger] prizes@[k])@ == prize_for(
                    competition@,
                    entries@[k].user_id@,
                    k + 1,
                    pool,
                    now,
                ),
        decreases PRIZE_RANKS - i,
    {
        let rank: i32 = (i + 1) as i32;
        let percentage: u8 = if i == 0 {
            distribution.rank_1_percentage
        } else if i == 1 {
            distribution.rank_2_percentage
        } else {
            distribution.rank_3_percentage
        };
        proof {
            lemma_share_fits(pool, percentage as int);
        }
        let prize = Prize {
            id: prize_id(competition, rank),
            competition_id: competition.to_owned(),
            user_id: entries[i].user_id.clone(),
            rank,
            amount: share(pool, percentage),
            status: "pending".to_owned(),
            distributed_at: None,
            created_at: now,
        };
        prizes.push(prize);
        i += 1;
    }
    assert(prize_views(prizes@) =~= awards(competition@, entry_views(entries@), pool, now));
    prizes
}

/// A calculation of prizes that is under way.
#[derive(Debug, PartialEq, Eq)]
pub enum PrizeCalculation {
    /// The first three of the standings are being read.
    Reading { read: LeaderboardRead, prize_pool: u64 },
    /// The prizes are being stored.
    Caching { prizes: Vec<Prize> },
}

pub enum PrizeCalculationView {
    Reading { read: LeaderboardReadView, prize_pool: u64 },
    Caching { prizes: Seq<PrizeView> },
}

impl View for PrizeCalculation {
    type V = PrizeCalculationView;

    open spec fn view(&self) -> PrizeCalculationView {
        match self {
            PrizeCalculation::Reading { read, prize_pool } => PrizeCalculationView::Reading {
                read: read@,
                prize_pool: *prize_pool,
            },
            PrizeCalculation::Caching { prizes } => PrizeCalculationView::Caching {
                prizes: prize_views(prizes@),
            },
        }
    }
}

impl PrizeCalculationView {
    /// The calculation when it begins.
    pub open spec fn initial(competition: Seq<char>, prize_pool: u64, now: Timestamp)
        -> PrizeCalculationView {
        PrizeCalculationView::Reading {
            read: LeaderboardReadView::initial(competition, PRIZE_RANKS as isize, now),
            prize_pool,
        }
    }

    /// The first command of a calculation: the read of the first three.
    pub open spec fn first_command(competition: Seq<char>) -> CommandView {
        LeaderboardReadView::first_command(competition, PRIZE_RANKS as isize)
    }

    /// What the calculation does once the standings `board` have been read:
    /// without entrants it fails, else it stores the prizes.
    pub open spec fn decide(board: LeaderboardView, prize_pool: u64) -> Expected<
        PrizeCalculationView,
        Seq<PrizeView>,
    > {
        if board.entries.len() == 0 {
            Expected::Finished(Err(ServiceError::NoParticipants))
        } else {
            let prizes = awards(board.competition_id, board.entries, prize_pool, board.updated_at);
            Expected::Ask(
                PrizeCalculationView::Caching { prizes },
                CommandView::Put {
                    key: prizes_key_text(board.competition_id),
                    value: CacheValueView::Prizes(prizes),
                    ttl_secs: PRIZES_TTL_SECS,
                },
            )
        }
    }

    /// What the calculation does with `reply`.
    pub open spec fn step(self, reply: ReplyView) -> Expected<PrizeCalculationView, Seq<PrizeView>> {
        match self {
            PrizeCalculationView::Reading { read, prize_pool } => match read.step(reply) {
                Expected::Ask(next, command) => Expected::Ask(
                    PrizeCalculationView::Reading { read: next, prize_pool },
                    command,
                ),
                Expected::Finished(Ok(board)) => Self::decide(board, prize_pool),
                Expected::Finished(Err(error)) => Expected::Finished(Err(error)),
            },
            PrizeCalculationView::Caching { prizes } => match reply {
                ReplyView::Done => Expected::Finished(Ok(prizes)),
                ReplyView::Failed(error) => Expected::Finished(Err(ServiceError::Cache(error))),
                _ => Expected::Finished(Err(ServiceError::UnexpectedReply)),
            },
        }
    }
}

/// `step` is what `expected` says, view for view.
pub open spec fn calculation_agrees(
    step: Step<PrizeCalculation, Vec<Prize>>,
    expected: Expected<PrizeCalculationView, Seq<PrizeView>>,
) -> bool {
    match (step, expected) {
        (Step::Ask(calculation, command), Expected::Ask(calculation_view, command_view)) =>
            calculation@ == calculation_view && command@ == command_view,
        (Step::Finished(Ok(prizes)), Expected::Finished(Ok(prizes_view))) => prize_views(prizes@)
            == prizes_view,
        (Step::Finished(Err(error)), Expected::Finished(Err(expected_error))) => error
            == expected_error,
        _ => false,
    }
}

impl PrizeCalculation {
    /// Begins the calculation of the prizes of a competition out of
    /// `prize_pool`, stamped `now`.
    pub fn start(competition_id: &str, prize_pool: u64, now: Timestamp) -> (begun: (
        PrizeCalculation,
        Command,
    ))
        ensures
            begun.0@ == PrizeCalculationView::initial(competition_id@, prize_pool, now),
            begun.1@ == PrizeCalculationView::first_command(competition_id@),
    {
        let (read, command) = LeaderboardRead::start(competition_id, PRIZE_RANKS as isize, now);
        (PrizeCalculation::Reading { read, prize_pool }, command)
    }

    /// Takes the reply to the command that this calculation asked last, and
    /// says what comes next.
    pub fn step(self, reply: Reply) -> (step: Step<PrizeCalculation, Vec<Prize>>)
        ensures
            calculation_agrees(step, self@.step(reply@)),
    {
        match self {
            PrizeCalculation::Reading { read, prize_pool } => match read.step(reply) {
                Step::Ask(next, command) => Step::Ask(
                    PrizeCalculation::Reading { read: next, prize_pool },
                    command,
                ),
                Step::Finished(Ok(board)) => {
                    if board.entries.len() == 0 {
                        Step::Finished(Err(ServiceError::NoParticipants))
                    } else {
                        let prizes = award(
                            board.competition_id.as_str(),
                            &board.entries,
                            prize_pool,
                            board.updated_at,
                        );
                        let stored = clone_prizes(&prizes);
                        Step::Ask(
                            PrizeCalculation::Caching { prizes },
                            Command::Put {
                                key: prizes_key(board.competition_id.as_str()),
                                value: CacheValue::Prizes(stored),
                                ttl_secs: PRIZES_TTL_SECS,
                            },
                        )
                    }
                },
                Step::Finished(Err(error)) => Step::Finished(Err(error)),
            },
            PrizeCalculation::Caching { prizes } => match reply {
                Reply::Done => Step::Finished(Ok(prizes)),
                Reply::Failed(error) => Step::Finished(Err(ServiceError::Cache(error))),
                _ => Step::Finished(Err(ServiceError::UnexpectedReply)),
            },
        }
    }
}

} // verus!
