//! The service run against the cache in memory: every operation is carried
//! through, command by command, and its contract says what the caller gets
//! and what the cache holds afterwards.

use vstd::prelude::*;
use crate::cache::CacheService;
use crate::fitness::{
    raised, request_sample, stats_agree, totals_fit, zero_totals, FitnessSync, StatsRead,
    FITNESS_TTL_SECS,
};
use crate::keys::{
    fitness_key_text, fitness_stats_key_text, leaderboard_key_text, prizes_key_text,
    user_details_key_text,
};
use crate::leaderboard::{read_agrees, LeaderboardRead, LeaderboardReadView, MAX_RANKED};
use crate::models::{
    prize_views, FitnessData, FitnessDataView, FitnessSyncRequest, Leaderboard, LeaderboardView,
    Prize, PrizeView, ScoreUpdateRequest,
};
use crate::port::{CacheError, CacheState, CacheValueView, CommandView};
use crate::prizes::{
    awards, PrizeCalculation, PrizeCalculationView, PRIZES_TTL_SECS, PRIZE_RANKS,
};
use crate::scoring::{update_event, update_snapshot, ScoreUpdate, DETAILS_TTL_SECS};
use crate::operation::{same_outcome, Expected, ServiceError, Step};
use crate::standings::{
    board_of, lemma_board_shape, lemma_read_begins, lemma_read_goes_on, ranking_of, read_after,
    readable, standings_of, top_of, unreadable,
};
use crate::time::{optional_text, Timestamp};

verus! {

/// `found` is what `expected` says, view for view.
pub open spec fn board_agrees(
    found: Result<Leaderboard, ServiceError>,
    expected: Result<LeaderboardView, ServiceError>,
) -> bool {
    match (found, expected) {
        (Ok(board), Ok(view)) => board@ == view,
        (Err(error), Err(expected_error)) => error == expected_error,
        _ => false,
    }
}

/// The cache after a score was written: the user has its score in the
/// ranking set of the competition, its snapshot is stored for a day, and the
/// change has been published on the competition's channel.
pub open spec fn updated(
    state: CacheState,
    user: Seq<char>,
    competition: Seq<char>,
    steps: i64,
    distance: i64,
    calories: i64,
    now: Timestamp,
) -> CacheState {
    state.zadd(leaderboard_key_text(competition), user, steps).set(
        user_details_key_text(competition, user),
        CacheValueView::Entry(update_snapshot(user, competition, steps, distance, calories, now)),
        DETAILS_TTL_SECS,
    ).publish(leaderboard_key_text(competition), update_event(user, competition, steps, now))
}

/// The prizes that a calculation returns from `state`: a prize for each of
/// the first three of the standings, or the failure to read the standings,
/// or, without entrants, the failure that says so.
pub open spec fn prizes_of(state: CacheState, competition: Seq<char>, pool: u64, now: Timestamp)
    -> Result<Seq<PrizeView>, ServiceError> {
    match standings_of(state, competition, PRIZE_RANKS as isize, now) {
        Ok(board) => if board.entries.len() == 0 {
            Err(ServiceError::NoParticipants)
        } else {
            Ok(awards(competition, board.entries, pool, now))
        },
        Err(error) => Err(error),
    }
}

/// The cache after a calculation of prizes: the prizes are stored for seven
/// days in place of those calculated before; a failed calculation stores
/// nothing.
pub open spec fn with_prizes(state: CacheState, competition: Seq<char>, pool: u64, now: Timestamp)
    -> CacheState {
    match prizes_of(state, competition, pool, now) {
        Ok(prizes) => state.set(
            prizes_key_text(competition),
            CacheValueView::Prizes(prizes),
            PRIZES_TTL_SECS,
        ),
        Err(_) => state,
    }
}

/// `found` is what `expected` says, view for view.
pub open spec fn prizes_agree(
    found: Result<Vec<Prize>, ServiceError>,
    expected: Result<Seq<PrizeView>, ServiceError>,
) -> bool {
    match (found, expected) {
        (Ok(prizes), Ok(views)) => prize_views(prizes@) == views,
        (Err(error), Err(expected_error)) => error == expected_error,
        _ => false,
    }
}

/// The leaderboard engine over a cache in memory.
pub struct LeaderboardService {
    pub cache: CacheService,
}

impl LeaderboardService {
    /// An engine that works on `cache`.
    pub fn new(cache: CacheService) -> (service: LeaderboardService)
        ensures
            service.cache == cache,
    {
        LeaderboardService { cache }
    }

    /// The standings of a competition: its top `limit`, each member with its
    /// rank, its score and its snapshot, and the size of the whole ranking
    /// set.
    ///
    /// A `limit` of 0 gives no entries. A `limit` below 0 is handed to the
    /// ranking set as it is, which then counts the end of its window from
    /// the last standing.
    pub fn get_leaderboard(&self, competition_id: &str, limit: isize, now: Timestamp) -> (found:
        Result<Leaderboard, ServiceError>)
        requires
            limit > isize::MIN,
        ensures
            board_agrees(found, standings_of(self.cache@, competition_id@, limit, now)),
            found matches Ok(board) ==> board.total_count == ranking_of(
                self.cache@,
                competition_id@,
            ).len(),
            found matches Ok(board) ==> forall|i: int|
                0 <= i < board.entries@.len() ==> (#[trigger] board.entries@[i]).rank == i + 1,
            limit >= 0 ==> (found matches Ok(board) ==> board.entries@.len() == if ranking_of(
                self.cache@,
                competition_id@,
            ).len() <= limit {
                ranking_of(self.cache@, competition_id@).len() as int
            } else {
                limit as int
            }),
            found matches Ok(board) ==> forall|i: int, j: int|
                0 <= i < j < board.entries@.len() ==> (#[trigger] board.entries@[i]).score >= (
                #[trigger] board.entries@[j]).score,
    {
        let ghost state = self.cache@;
        let ghost competition = competition_id@;
        let (read, command) = LeaderboardRead::start(competition_id, limit, now);
        let reply = match self.cache.answer(&command) {
            Some(reply) => reply,
            None => {
                return Err(ServiceError::UnexpectedReply);
            },
        };
        proof {
            lemma_read_begins(state, competition, limit, now);
        }
        let mut step = read.step(reply);
        let ghost mut k: int = 0;
        loop
            invariant
                self.cache@ == state,
                competition == competition_id@,
                state.wf(),
                0 <= k <= top_of(state, competition, limit).len() <= MAX_RANKED,
                step is Ask ==> readable(state, competition, top_of(state, competition, limit), k)
                    && read_agrees(step, read_after(state, competition, limit, now, k).proceed()),
                step matches Step::Finished(found) ==> board_agrees(
                    found,
                    standings_of(state, competition, limit, now),
                ),
            decreases
                    (if step is Ask {
                        top_of(state, competition, limit).len() - k + 1
                    } else {
                        0
                    }),
        {
            match step {
                Step::Finished(found) => {
                    proof {
                        lemma_board_shape(state, competition, limit, now);
                        if found is Ok {
                            let board = found->Ok_0;
                            let expected = board_of(state, competition, limit, now);
                            assert(board@ == expected);
                            assert forall|i: int| 0 <= i < board.entries@.len() implies (
                            #[trigger] board.entries@[i]).rank == i + 1 by {
                                assert(board@.entries[i] == board.entries@[i]@);
                            }
                            assert forall|i: int, j: int|
                                0 <= i < j < board.entries@.len() implies (
                            #[trigger] board.entries@[i]).score >= (
                            #[trigger] board.entries@[j]).score by {
                                assert(board@.entries[i] == board.entries@[i]@);
                                assert(board@.entries[j] == board.entries@[j]@);
                            }
                        }
                    }
                    return found;
                },
                Step::Ask(read, command) => {
                    proof {
                        lemma_read_goes_on(state, competition, limit, now, k, read@, command@);
                    }
                    let reply = match self.cache.answer(&command) {
                        Some(reply) => reply,
                        None => {
                            return Err(ServiceError::UnexpectedReply);
                        },
                    };
                    step = read.step(reply);
                    proof {
                        if k < top_of(state, competition, limit).len() && !unreadable(
                            state,
                            competition,
                            top_of(state, competition, limit)[k].0,
                        ) {
                            k = k + 1;
                        }
                    }
                },
            }
        }
    }

    /// Gives the user of `request` its new score: the number of steps, in
    /// place of the score it had. The snapshot of the submitted activity is
    /// stored and the change is published.
    ///
    /// The update fails, and changes nothing, only where the ranking set is
    /// full and the user is new to it.
    pub fn update_score(&mut self, request: &ScoreUpdateRequest, now: Timestamp) -> (done: Result<
        (),
        ServiceError,
    >)
        ensures
            old(self).cache@.takes(leaderboard_key_text(request.competition_id@), request.user_id@)
                ==> done is Ok && final(self).cache@ == updated(
                old(self).cache@,
                request.user_id@,
                request.competition_id@,
                request.steps,
                request.distance,
                request.calories,
                now,
            ),
            !old(self).cache@.takes(leaderboard_key_text(request.competition_id@), request.user_id@)
                ==> done == Err::<(), ServiceError>(
                ServiceError::Cache(CacheError::StoreUnavailable),
            ) && final(self).cache@ == old(self).cache@,
    {
        let (update, command) = ScoreUpdate::start(request, now);
        let reply = self.cache.execute(command);
        match update.step(reply) {
            Step::Ask(update, command) => {
                let reply = self.cache.execute(command);
                match update.step(reply) {
                    Step::Ask(update, command) => {
                        let reply = self.cache.execute(command);
                        match update.step(reply) {
                            Step::Ask(_, _) => Err(ServiceError::UnexpectedReply),
                            Step::Finished(done) => done,
                        }
                    },
                    Step::Finished(done) => done,
                }
            },
            Step::Finished(done) => done,
        }
    }

    /// Calculates the prizes of a competition out of `prize_pool`: 60, 30
    /// and 10 percent for the first three of its standings, as far as there
    /// are that many. The prizes are stored in place of those calculated
    /// before.
    pub fn calculate_prizes(&mut self, competition_id: &str, prize_pool: u64, now: Timestamp) -> (found:
        Result<Vec<Prize>, ServiceError>)
        ensures
            prizes_agree(found, prizes_of(old(self).cache@, competition_id@, prize_pool, now)),
            final(self).cache@ == with_prizes(old(self).cache@, competition_id@, prize_pool, now),
    {
        let ghost state = self.cache@;
        let ghost competition = competition_id@;
        let ghost limit: isize = PRIZE_RANKS as isize;
        let (calculation, command) = PrizeCalculation::start(competition_id, prize_pool, now);
        let reply = self.cache.execute(command);
        proof {
            lemma_read_begins(state, competition, limit, now);
        }
        let mut step = calculation.step(reply);
        let ghost mut k: int = 0;
        loop
            invariant
                state == old(self).cache@,
                competition == competition_id@,
                limit == PRIZE_RANKS,
                state.wf(),
                0 <= k <= top_of(state, competition, limit).len() <= MAX_RANKED,
                step matches Step::Ask(calculation, command) ==> self.cache@ == state && (
                match calculation@ {
                    PrizeCalculationView::Reading { read, prize_pool: pool } => pool == prize_pool
                        && readable(state, competition, top_of(state, competition, limit), k)
                        && read_after(state, competition, limit, now, k).proceed() == Expected::<
                        LeaderboardReadView,
                        LeaderboardView,
                    >::Ask(read, command@),
                    PrizeCalculationView::Caching { prizes } => prizes_of(
                        state,
                        competition,
                        prize_pool,
                        now,
                    ) == Ok::<Seq<PrizeView>, ServiceError>(prizes) && command@
                        == (CommandView::Put {
                        key: prizes_key_text(competition),
                        value: CacheValueView::Prizes(prizes),
                        ttl_secs: PRIZES_TTL_SECS,
                    }),
                }),
                step matches Step::Finished(found) ==> prizes_agree(
                    found,
                    prizes_of(state, competition, prize_pool, now),
                ) && self.cache@ == with_prizes(state, competition, prize_pool, now),
            decreases
                    (match step {
                        Step::Ask(calculation, _) => match calculation {
                            PrizeCalculation::Reading { .. } => top_of(
                                state,
                                competition,
                                limit,
                            ).len() - k + 2,
                            PrizeCalculation::Caching { .. } => 1,
                        },
                        Step::Finished(_) => 0,
                    }),
        {
            match step {
                Step::Finished(found) => {
                    return found;
                },
                Step::Ask(calculation, command) => {
                    proof {
                        match calculation@ {
                            PrizeCalculationView::Reading { read, prize_pool: pool } => {
                                lemma_read_goes_on(
                                    state,
                                    competition,
                                    limit,
                                    now,
                                    k,
                                    read,
                                    command@,
                                );
                            },
                            PrizeCalculationView::Caching { prizes } => {},
                        }
                    }
                    let ghost reading = calculation@ is Reading;
                    let reply = self.cache.execute(command);
                    step = calculation.step(reply);
                    proof {
                        if reading && k < top_of(state, competition, limit).len() && !unreadable(
                            state,
                            competition,
                            top_of(state, competition, limit)[k].0,
                        ) {
                            k = k + 1;
                        }
                    }
                },
            }
        }
    }
}

/// The totals that a read returns from `state`: those that are stored, zero
/// totals where none are, or the failure to read what is stored in their
/// place.
pub open spec fn stats_of(
    state: CacheState,
    user: Seq<char>,
    competition: Seq<char>,
    now: Timestamp,
) -> Result<FitnessDataView, ServiceError> {
    match state.live(fitness_stats_key_text(user, competition)) {
        Some(CacheValueView::Fitness(totals)) => Ok(totals),
        Some(_) => Err(ServiceError::Cache(CacheError::Deserialization)),
        None => Ok(zero_totals(user, competition, Seq::empty(), now)),
    }
}

/// The cache, and the outcome, after `totals` were to be raised by `sample`
/// in `state`: the sums are stored for thirty days, unless one of them
/// leaves its number type.
pub open spec fn totals_raised(
    state: CacheState,
    totals: FitnessDataView,
    sample: FitnessDataView,
    now: Timestamp,
) -> (CacheState, Result<(), ServiceError>) {
    if totals_fit(totals, sample) {
        (
            state.set(
                fitness_stats_key_text(sample.user_id, sample.competition_id),
                CacheValueView::Fitness(raised(totals, sample, now)),
                FITNESS_TTL_SECS,
            ),
            Ok(()),
        )
    } else {
        (state, Err(ServiceError::TotalsOutOfRange))
    }
}

/// The cache, and the outcome, after `sample` was taken in, where `day` is
/// the calendar day of its date. The sample is stored under its day for
/// thirty days, in place of an earlier sample of that day; then the user's
/// totals, or zero totals where none are stored, are raised by it.
pub open spec fn synced(
    state: CacheState,
    sample: FitnessDataView,
    day: Option<Seq<char>>,
    now: Timestamp,
) -> (CacheState, Result<(), ServiceError>) {
    match day {
        Some(text) => {
            let stored = state.set(
                fitness_key_text(sample.user_id, sample.competition_id, text),
                CacheValueView::Fitness(sample),
                FITNESS_TTL_SECS,
            );
            match stored.live(fitness_stats_key_text(sample.user_id, sample.competition_id)) {
                Some(CacheValueView::Fitness(totals)) => totals_raised(stored, totals, sample, now),
                Some(_) => (stored, Err(ServiceError::Cache(CacheError::Deserialization))),
                None => totals_raised(
                    stored,
                    zero_totals(sample.user_id, sample.competition_id, sample.source, now),
                    sample,
                    now,
                ),
            }
        },
        None => (state, Err(ServiceError::InvalidDate)),
    }
}

/// The fitness aggregator over a cache in memory.
pub struct FitnessService {
    pub cache: CacheService,
}

impl FitnessService {
    /// An aggregator that works on `cache`.
    pub fn new(cache: CacheService) -> (service: FitnessService)
        ensures
            service.cache == cache,
    {
        FitnessService { cache }
    }

    /// Takes in the submission `request` at `now`, where `day` is the
    /// calendar day of the request's date, if it has one.
    pub fn sync_fitness_data_on(
        &mut self,
        request: &FitnessSyncRequest,
        day: Option<String>,
        now: Timestamp,
    ) -> (done: Result<(), ServiceError>)
        ensures
            final(self).cache@ == synced(
                old(self).cache@,
                request_sample(*request, now),
                optional_text(day),
                now,
            ).0,
            same_outcome(
                done,
                synced(
                    old(self).cache@,
                    request_sample(*request, now),
                    optional_text(day),
                    now,
                ).1,
            ),
    {
        let step = FitnessSync::begin(request, day, now);
        match step {
            Step::Ask(sync, command) => {
                let reply = self.cache.execute(command);
                match sync.step(reply) {
                    Step::Ask(sync, command) => {
                        let reply = self.cache.execute(command);
                        match sync.step(reply) {
                            Step::Ask(sync, command) => {
                                let reply = self.cache.execute(command);
                                match sync.step(reply) {
                                    Step::Ask(_, _) => Err(ServiceError::UnexpectedReply),
                                    Step::Finished(done) => done,
                                }
                            },
                            Step::Finished(done) => done,
                        }
                    },
                    Step::Finished(done) => done,
                }
            },
            Step::Finished(done) => done,
        }
    }

    /// Takes in the submission `request` at `now`: stores the sample under
    /// the UTC calendar day of its date and raises the user's totals by it.
    pub fn sync_fitness_data(&mut self, request: &FitnessSyncRequest, now: Timestamp) -> (done:
        Result<(), ServiceError>)
        ensures
            final(self).cache@ == synced(
                old(self).cache@,
                request_sample(*request, now),
                request.date.day_text(),
                now,
            ).0,
            same_outcome(
                done,
                synced(
                    old(self).cache@,
                    request_sample(*request, now),
                    request.date.day_text(),
                    now,
                ).1,
            ),
    {
        let day = request.date.calendar_day();
        self.sync_fitness_data_on(request, day, now)
    }

    /// The running totals of a user in a competition; zero totals, stamped
    /// `now`, for a user of whom nothing is stored.
    pub fn get_user_stats(&self, user_id: &str, competition_id: &str, now: Timestamp) -> (found:
        Result<FitnessData, ServiceError>)
        ensures
            stats_agree(found, stats_of(self.cache@, user_id@, competition_id@, now)),
            self.cache@.live(fitness_stats_key_text(user_id@, competition_id@)) is None ==> (
            found matches Ok(totals) && totals@ == zero_totals(
                user_id@,
                competition_id@,
                Seq::empty(),
                now,
            )),
    {
        let (read, command) = StatsRead::start(user_id, competition_id, now);
        match self.cache.answer(&command) {
            Some(reply) => read.finish(reply),
            None => Err(ServiceError::UnexpectedReply),
        }
    }
}

} // verus!
