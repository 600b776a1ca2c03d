//! What holds of the service as a whole, proved from the contracts of its
//! operations.

use vstd::prelude::*;
use crate::fitness::{
    raised, sample_of, zero_totals, FitnessSyncView, StatsReadView, FITNESS_TTL_SECS,
};
use crate::keys::{
    fitness_key_text, fitness_stats_key_text, leaderboard_key_text,
    lemma_fitness_keys_are_no_snapshot_keys, lemma_prizes_key_is_no_snapshot_key,
    lemma_sample_key_is_not_stats_key, lemma_snapshot_keys_tell_users_apart, prizes_key_text,
    unambiguous, user_details_key_text,
};
use crate::leaderboard::listed;
use crate::leaderboard::{LeaderboardReadView, ReadStage, MAX_RANKED};
use crate::models::{
    FitnessDataView, LeaderboardEntryView, LeaderboardEventView, LeaderboardView, PrizeView,
};
use crate::operation::Expected;
use crate::port::{CacheState, CacheValueView, ReplyView};
use crate::prizes::{
    awards, lemma_share_fits, percentage_for, prize_count, prize_for, share_of,
};
use crate::ranking::{
    has_member, is_ranking, lemma_slot_exists, lemma_upsert, lemma_without, position, slot, upsert,
    without,
};
use crate::scoring::{update_event, update_snapshot};
use crate::operation::ServiceError;
use crate::services::{prizes_of, stats_of, synced, updated, with_prizes};
use crate::standings::{
    board_entries, board_of, is_snapshot_of, lemma_board_shape, lemma_window_len, ranking_of,
    readable, snapshot_at, snapshots_in_place, standings_of, top_of, unreadable,
};
use crate::time::Timestamp;

verus! {

/// A read of the standings returns as many entries as the ranking set has
/// members, but no more than the limit; their scores never increase from
/// one entry to the next; and the rank of each entry is its place in the
/// list, counted from 1. The count of all members that comes with them is
/// the size of the ranking set, whatever the limit.
///
/// The number of entries is stated for limits of at least 0. A limit below
/// 0 is no number of entries: it counts the end of the window from the last
/// standing.
pub proof fn law_standings_are_ranked(
    state: CacheState,
    competition: Seq<char>,
    limit: isize,
    now: Timestamp,
)
    requires
        state.wf(),
    ensures
        standings_of(state, competition, limit, now) matches Ok(board) ==> {
            let members = ranking_of(state, competition).len();
            &&& board.total_count == members
            &&& limit >= 0 ==> board.entries.len() == if members <= limit {
                members as int
            } else {
                limit as int
            }
            &&& forall|i: int|
                0 <= i < board.entries.len() ==> (#[trigger] board.entries[i]).rank == i + 1
            &&& forall|i: int, j: int|
                0 <= i < j < board.entries.len() ==> (#[trigger] board.entries[i]).score >= (
                #[trigger] board.entries[j]).score
        },
{
    lemma_board_shape(state, competition, limit, now);
}

/// The cache after a score was written is well-formed, and in the ranking
/// set of the competition the user stands once, with the new score, behind
/// every other member whose score is at least as high and before every
/// member whose score is lower.
pub proof fn law_update_places_the_user(
    state: CacheState,
    user: Seq<char>,
    competition: Seq<char>,
    steps: i64,
    distance: i64,
    calories: i64,
    now: Timestamp,
)
    requires
        state.wf(),
        state.takes(leaderboard_key_text(competition), user),
    ensures
        ({
            let before = ranking_of(state, competition);
            let after = ranking_of(
                updated(state, user, competition, steps, distance, calories, now),
                competition,
            );
            let place = slot(without(before, user), steps);
            &&& updated(state, user, competition, steps, distance, calories, now).wf()
            &&& after == upsert(before, user, steps)
            &&& is_ranking(after)
            &&& 0 <= place < after.len()
            &&& after[place] == (user, steps)
            &&& position(after, user) == Some(place)
            &&& forall|i: int| 0 <= i < place ==> (#[trigger] after[i]).1 >= steps
            &&& forall|i: int| place < i < after.len() ==> (#[trigger] after[i]).1 < steps
            &&& after.len() == if has_member(before, user) {
                before.len()
            } else {
                before.len() + 1
            }
        }),
{
    let key = leaderboard_key_text(competition);
    let before = ranking_of(state, competition);
    let next = updated(state, user, competition, steps, distance, calories, now);
    let after = ranking_of(next, competition);
    assert(is_ranking(before));
    lemma_upsert(before, user, steps);
    lemma_without(before, user);
    let rest = without(before, user);
    lemma_slot_exists(rest, steps);
    let place = slot(rest, steps);
    assert(next.rankings == state.rankings.insert(key, upsert(before, user, steps)));
    assert(after == upsert(before, user, steps));
    assert forall|i: int| 0 <= i < place implies (#[trigger] after[i]).1 >= steps by {
        assert(after[i] == rest[i]);
    }
    assert forall|i: int| place < i < after.len() implies (#[trigger] after[i]).1 < steps by {
        assert(after[i] == rest[i - 1]);
    }
}

/// In a cache whose snapshots are in place, a read of the standings
/// succeeds, and each entry bears the competition and the member of its
/// place in the ranking set.
pub proof fn law_standings_name_their_members(
    state: CacheState,
    competition: Seq<char>,
    limit: isize,
    now: Timestamp,
)
    requires
        state.wf(),
        snapshots_in_place(state),
    ensures
        standings_of(state, competition, limit, now) == Ok::<LeaderboardView, ServiceError>(
            board_of(state, competition, limit, now),
        ),
        forall|i: int|
            0 <= i < board_of(state, competition, limit, now).entries.len() ==> (#[trigger] board_of(
                state,
                competition,
                limit,
                now,
            ).entries[i]).user_id == ranking_of(state, competition)[i].0 && board_of(
                state,
                competition,
                limit,
                now,
            ).entries[i].competition_id == competition,
{
    let ranking = ranking_of(state, competition);
    let top = top_of(state, competition, limit);
    let board = board_of(state, competition, limit, now);
    lemma_window_len(ranking, 0, limit - 1);
    assert forall|i: int| 0 <= i < top.len() implies !unreadable(
        state,
        competition,
        (#[trigger] top[i]).0,
    ) by {
        lemma_snapshot_is_of_its_member(state, competition, top[i].0);
    }
    assert forall|i: int| 0 <= i < board.entries.len() implies (#[trigger] board.entries[i]).user_id
        == ranking[i].0 && board.entries[i].competition_id == competition by {
        assert(top[i] == ranking[i]);
        lemma_snapshot_is_of_its_member(state, competition, top[i].0);
    }
}

/// In a cache whose snapshots are in place, what stands under the snapshot
/// key of a member can be read and bears the member and the competition.
pub proof fn lemma_snapshot_is_of_its_member(
    state: CacheState,
    competition: Seq<char>,
    member: Seq<char>,
)
    requires
        snapshots_in_place(state),
    ensures
        !unreadable(state, competition, member),
        snapshot_at(state, competition, member) matches Some(details) ==> details.user_id
            == member && details.competition_id == competition,
{
    let key = user_details_key_text(competition, member);
    if state.values.contains_key(key) {
        assert(is_snapshot_of(state.values[key].value, competition, member));
    }
}

/// A cache that holds nothing has its snapshots in place.
pub proof fn law_snapshots_are_in_place_from_the_start()
    ensures
        snapshots_in_place(CacheState::empty()),
        CacheState::empty().wf(),
{
}

/// Writing a score keeps the snapshots in place, where the snapshot key of
/// the user is the key of that user and that competition alone, as it is
/// where neither of the two holds a colon.
pub proof fn law_update_keeps_the_snapshots_in_place(
    state: CacheState,
    user: Seq<char>,
    competition: Seq<char>,
    steps: i64,
    distance: i64,
    calories: i64,
    now: Timestamp,
)
    requires
        snapshots_in_place(state),
        unambiguous(competition, user),
    ensures
        snapshots_in_place(updated(state, user, competition, steps, distance, calories, now)),
{
    let next = updated(state, user, competition, steps, distance, calories, now);
    let written = user_details_key_text(competition, user);
    assert forall|other: Seq<char>, member: Seq<char>|
        next.values.contains_key(#[trigger] user_details_key_text(other, member))
        implies is_snapshot_of(
        next.values[user_details_key_text(other, member)].value,
        other,
        member,
    ) by {
        let key = user_details_key_text(other, member);
        if key != written {
            assert(state.values.contains_key(key));
            assert(next.values[key] == state.values[key]);
        }
    }
}

/// A calculation of prizes keeps the snapshots in place.
pub proof fn law_prizes_keep_the_snapshots_in_place(
    state: CacheState,
    competition: Seq<char>,
    pool: u64,
    now: Timestamp,
)
    requires
        snapshots_in_place(state),
    ensures
        snapshots_in_place(with_prizes(state, competition, pool, now)),
{
    let next = with_prizes(state, competition, pool, now);
    assert forall|other: Seq<char>, member: Seq<char>|
        next.values.contains_key(#[trigger] user_details_key_text(other, member))
        implies is_snapshot_of(
        next.values[user_details_key_text(other, member)].value,
        other,
        member,
    ) by {
        let key = user_details_key_text(other, member);
        lemma_prizes_key_is_no_snapshot_key(competition, other, member);
        assert(state.values.contains_key(key));
        assert(next.values[key] == state.values[key]);
    }
}

/// Taking in a submission keeps the snapshots in place, however it ends.
pub proof fn law_submission_keeps_the_snapshots_in_place(
    state: CacheState,
    sample: FitnessDataView,
    day: Option<Seq<char>>,
    now: Timestamp,
)
    requires
        snapshots_in_place(state),
    ensures
        snapshots_in_place(synced(state, sample, day, now).0),
{
    let next = synced(state, sample, day, now).0;
    assert forall|other: Seq<char>, member: Seq<char>|
        next.values.contains_key(#[trigger] user_details_key_text(other, member))
        implies is_snapshot_of(
        next.values[user_details_key_text(other, member)].value,
        other,
        member,
    ) by {
        let key = user_details_key_text(other, member);
        match day {
            Some(text) => {
                lemma_fitness_keys_are_no_snapshot_keys(
                    sample.user_id,
                    sample.competition_id,
                    text,
                    other,
                    member,
                );
            },
            None => {},
        }
        assert(state.values.contains_key(key));
        assert(next.values[key] == state.values[key]);
    }
}

/// After a score was written to a cache whose snapshots are in place, a read
/// of the standings whose limit reaches the user's place succeeds and shows
/// the user there, and nowhere else: with the new score, with the rank of
/// that place, and with the activity that was submitted. The place is behind
/// every other member whose score is at least as high and before every
/// member whose score is lower.
pub proof fn law_update_shows_in_standings(
    state: CacheState,
    user: Seq<char>,
    competition: Seq<char>,
    steps: i64,
    distance: i64,
    calories: i64,
    now: Timestamp,
    limit: isize,
    later: Timestamp,
)
    requires
        state.wf(),
        snapshots_in_place(state),
        state.takes(leaderboard_key_text(competition), user),
        slot(without(ranking_of(state, competition), user), steps) < limit,
    ensures
        ({
            let next = updated(state, user, competition, steps, distance, calories, now);
            let place = slot(without(ranking_of(state, competition), user), steps);
            &&& standings_of(next, competition, limit, later) matches Ok(board) && {
                &&& 0 <= place < board.entries.len()
                &&& board.entries[place] == LeaderboardEntryView {
                    rank: (place + 1) as i32,
                    ..update_snapshot(user, competition, steps, distance, calories, now)
                }
                &&& forall|i: int|
                    0 <= i < board.entries.len() && i != place ==> (#[trigger] board.entries[i]).user_id
                        != user
                &&& forall|i: int|
                    0 <= i < place ==> (#[trigger] board.entries[i]).score >= steps
                &&& forall|i: int|
                    place < i < board.entries.len() ==> (#[trigger] board.entries[i]).score < steps
            }
        }),
{
    let next = updated(state, user, competition, steps, distance, calories, now);
    let place = slot(without(ranking_of(state, competition), user), steps);
    law_update_places_the_user(state, user, competition, steps, distance, calories, now);
    let after = ranking_of(next, competition);
    lemma_window_len(after, 0, limit - 1);
    let top = top_of(next, competition, limit);
    let written = user_details_key_text(competition, user);
    let snapshot = update_snapshot(user, competition, steps, distance, calories, now);
    assert(top[place] == after[place]);
    assert(next.live(written) == Some(CacheValueView::Entry(snapshot)));
    assert(snapshot_at(next, competition, user) == Some(snapshot));
    assert forall|i: int| 0 <= i < top.len() implies !unreadable(
        next,
        competition,
        (#[trigger] top[i]).0,
    ) && (i != place ==> listed(
        snapshot_at(next, competition, top[i].0),
        competition,
        top[i].0,
        top[i].1,
        (i + 1) as i32,
        later,
    ).user_id != user) by {
        let member = top[i].0;
        assert(top[i] == after[i]);
        if i != place {
            if i < place {
                assert(after[i].0 != after[place].0);
            } else {
                assert(after[place].0 != after[i].0);
            }
            let key = user_details_key_text(competition, member);
            if key == written {
                lemma_snapshot_keys_tell_users_apart(competition, user, member);
            }
            assert(next.live(key) == state.live(key));
            lemma_snapshot_is_of_its_member(state, competition, member);
        }
    }
    let board = board_of(next, competition, limit, later);
    assert(board.entries[place] == LeaderboardEntryView { rank: (place + 1) as i32, ..snapshot });
    assert forall|i: int| 0 <= i < place implies (#[trigger] board.entries[i]).score >= steps by {
        assert(top[i] == after[i]);
    }
    assert forall|i: int| place < i < board.entries.len() implies (#[trigger] board.entries[i]).score
        < steps by {
        assert(top[i] == after[i]);
    }
}

/// In a cache whose snapshots are in place, a calculation of prizes
/// succeeds wherever the competition has entrants, and the prize of each
/// rank goes to the member that stands at that rank in the ranking set:
/// with one entrant, the one prize is that member's, and 60 percent of the
/// pool.
pub proof fn law_prizes_go_to_the_first_three(
    state: CacheState,
    competition: Seq<char>,
    pool: u64,
    now: Timestamp,
)
    requires
        state.wf(),
        snapshots_in_place(state),
    ensures
        ranking_of(state, competition).len() == 0 ==> prizes_of(state, competition, pool, now)
            == Err::<Seq<PrizeView>, ServiceError>(ServiceError::NoParticipants),
        ranking_of(state, competition).len() > 0 ==> (prizes_of(
            state,
            competition,
            pool,
            now,
        ) matches Ok(prizes) && {
            &&& prizes.len() == prize_count(ranking_of(state, competition).len())
            &&& forall|i: int|
                0 <= i < prizes.len() ==> (#[trigger] prizes[i]) == prize_for(
                    competition,
                    ranking_of(state, competition)[i].0,
                    i + 1,
                    pool,
                    now,
                )
            &&& prizes[0].user_id == ranking_of(state, competition)[0].0
            &&& prizes[0].rank == 1
            &&& prizes[0].amount == pool * 60 / 100
        }),
{
    let limit: isize = 3;
    law_standings_name_their_members(state, competition, limit, now);
    lemma_board_shape(state, competition, limit, now);
    lemma_share_fits(pool, 60);
    let board = board_of(state, competition, limit, now);
    if ranking_of(state, competition).len() > 0 {
        let prizes = awards(competition, board.entries, pool, now);
        assert(prizes_of(state, competition, pool, now) == Ok::<Seq<PrizeView>, ServiceError>(
            prizes,
        ));
        assert forall|i: int| 0 <= i < prizes.len() implies (#[trigger] prizes[i]) == prize_for(
            competition,
            ranking_of(state, competition)[i].0,
            i + 1,
            pool,
            now,
        ) by {
            assert(board.entries[i].user_id == ranking_of(state, competition)[i].0);
        }
    }
}

/// The sum of the amounts of `prizes`.
pub open spec fn total_amount(prizes: Seq<PrizeView>) -> int
    decreases prizes.len(),
{
    if prizes.len() == 0 {
        0
    } else {
        total_amount(prizes.drop_last()) + prizes.last().amount
    }
}

/// A calculation of prizes fails in a competition without entrants. With
/// entrants it returns one prize for each of the first three, the prize of
/// rank 1 being 60 percent of the pool; with three or more entrants the
/// three prizes fall short of the pool by what rounding leaves over, at
/// most 2 units, and add up to the pool where it is a multiple of 10 units.
pub proof fn law_prizes_split_the_pool(
    state: CacheState,
    competition: Seq<char>,
    pool: u64,
    now: Timestamp,
)
    requires
        state.wf(),
    ensures
        ranking_of(state, competition).len() == 0 ==> prizes_of(state, competition, pool, now)
            == Err::<Seq<PrizeView>, ServiceError>(ServiceError::NoParticipants),
        prizes_of(state, competition, pool, now) matches Ok(prizes) ==> {
            let entrants = ranking_of(state, competition).len();
            &&& entrants > 0
            &&& prizes.len() == prize_count(entrants)
            &&& forall|i: int|
                0 <= i < prizes.len() ==> (#[trigger] prizes[i]).rank == i + 1 && prizes[i].amount
                    == share_of(pool, percentage_for(i + 1))
            &&& prizes[0].amount == pool * 60 / 100
            &&& entrants == 1 ==> prizes.len() == 1
            &&& entrants >= 3 ==> prizes.len() == 3 && pool - 2 <= total_amount(prizes) <= pool
                && (pool % 10 == 0 ==> total_amount(prizes) == pool)
        },
{
    let limit: isize = 3;
    lemma_board_shape(state, competition, limit, now);
    let outcome = prizes_of(state, competition, pool, now);
    if ranking_of(state, competition).len() == 0 {
        let top = top_of(state, competition, limit);
        assert(top.len() == 0);
    }
    if outcome is Ok {
        let prizes = outcome->Ok_0;
        let board = board_of(state, competition, limit, now);
        assert(prizes == awards(competition, board.entries, pool, now));
        assert forall|i: int| 0 <= i < prizes.len() implies (#[trigger] prizes[i]).rank == i + 1
            && prizes[i].amount == share_of(pool, percentage_for(i + 1)) by {
            lemma_share_fits(pool, percentage_for(i + 1));
        }
        lemma_share_fits(pool, 60);
        if prizes.len() == 3 {
            lemma_share_fits(pool, 30);
            lemma_share_fits(pool, 10);
            let two = prizes.drop_last();
            let one = two.drop_last();
            assert(one.drop_last().len() == 0);
            assert(total_amount(one) == prizes[0].amount) by {
                assert(total_amount(one.drop_last()) == 0);
                assert(one.last() == prizes[0]);
            }
            assert(total_amount(two) == prizes[0].amount + prizes[1].amount) by {
                assert(two.last() == prizes[1]);
            }
            assert(total_amount(prizes) == prizes[0].amount + prizes[1].amount + prizes[2].amount)
                by {
                assert(prizes.last() == prizes[2]);
            }
        }
    }
}

/// The same day's activity taken in twice is stored once and counted twice:
/// after the second submission the sample of that day is the second one,
/// no key has been added to those of the first, and the user's totals stand
/// at what they were before plus twice the activity.
pub proof fn law_resubmission_overwrites_and_counts_again(
    state: CacheState,
    user: Seq<char>,
    competition: Seq<char>,
    steps: i64,
    distance: i64,
    calories: i64,
    active_minutes: i32,
    source: Seq<char>,
    date: Timestamp,
    day: Seq<char>,
    first: Timestamp,
    second: Timestamp,
)
    ensures
        ({
            let sample = sample_of(
                user,
                competition,
                steps,
                distance,
                calories,
                active_minutes,
                source,
                date,
                first,
            );
            let again = sample_of(
                user,
                competition,
                steps,
                distance,
                calories,
                active_minutes,
                source,
                date,
                second,
            );
            let once = synced(state, sample, Some(day), first);
            let twice = synced(once.0, again, Some(day), second);
            once.1 is Ok && twice.1 is Ok ==> {
                &&& stats_of(state, user, competition, first) matches Ok(before)
                &&& twice.0.live(fitness_key_text(user, competition, day)) == Some(
                    CacheValueView::Fitness(again),
                )
                &&& twice.0.values.dom() == once.0.values.dom()
                &&& stats_of(twice.0, user, competition, second) matches Ok(after)
                &&& after.steps == before.steps + 2 * steps
                &&& after.distance == before.distance + 2 * distance
                &&& after.calories == before.calories + 2 * calories
                &&& after.active_minutes == before.active_minutes + 2 * active_minutes
            }
        }),
{
    let sample = sample_of(
        user,
        competition,
        steps,
        distance,
        calories,
        active_minutes,
        source,
        date,
        first,
    );
    let again = sample_of(
        user,
        competition,
        steps,
        distance,
        calories,
        active_minutes,
        source,
        date,
        second,
    );
    let once = synced(state, sample, Some(day), first);
    let twice = synced(once.0, again, Some(day), second);
    let sample_key = fitness_key_text(user, competition, day);
    let stats_key = fitness_stats_key_text(user, competition);
    lemma_sample_key_is_not_stats_key(user, competition, day, user, competition);
    if once.1 is Ok && twice.1 is Ok {
        let stored = state.set(sample_key, CacheValueView::Fitness(sample), FITNESS_TTL_SECS);
        assert(stored.live(stats_key) == state.live(stats_key));
        let restored = once.0.set(sample_key, CacheValueView::Fitness(again), FITNESS_TTL_SECS);
        assert(restored.live(stats_key) == once.0.live(stats_key));
        assert(twice.0.values.dom() =~= once.0.values.dom());
    }
}

/// After a submission was taken in, a read of the user's totals returns
/// what was stored: the totals before it, raised by the sample.
pub proof fn law_totals_reflect_submission(
    state: CacheState,
    sample: FitnessDataView,
    day: Seq<char>,
    now: Timestamp,
    later: Timestamp,
)
    ensures
        synced(state, sample, Some(day), now).1 is Ok ==> (stats_of(
            state,
            sample.user_id,
            sample.competition_id,
            now,
        ) matches Ok(before) && stats_of(
            synced(state, sample, Some(day), now).0,
            sample.user_id,
            sample.competition_id,
            later,
        ) == Ok::<FitnessDataView, ServiceError>(
            raised(FitnessDataView { source: sample.source, ..before }, sample, now),
        )),
{
    let sample_key = fitness_key_text(sample.user_id, sample.competition_id, day);
    let stats_key = fitness_stats_key_text(sample.user_id, sample.competition_id);
    lemma_sample_key_is_not_stats_key(
        sample.user_id,
        sample.competition_id,
        day,
        sample.user_id,
        sample.competition_id,
    );
    let stored = state.set(sample_key, CacheValueView::Fitness(sample), FITNESS_TTL_SECS);
    assert(stored.live(stats_key) == state.live(stats_key));
}

/// A read of the totals of a user of whom nothing is stored returns zero
/// totals, not a failure.
pub proof fn law_unknown_user_has_zero_totals(
    state: CacheState,
    user: Seq<char>,
    competition: Seq<char>,
    now: Timestamp,
)
    requires
        state.live(fitness_stats_key_text(user, competition)) is None,
    ensures
        stats_of(state, user, competition, now) == Ok::<FitnessDataView, ServiceError>(
            zero_totals(user, competition, Seq::empty(), now),
        ),
        zero_totals(user, competition, Seq::empty(), now).steps == 0,
        zero_totals(user, competition, Seq::empty(), now).distance == 0,
        zero_totals(user, competition, Seq::empty(), now).calories == 0,
        zero_totals(user, competition, Seq::empty(), now).active_minutes == 0,
{
}

/// A read has made its entries in the order of the standings that the cache
/// gave it: each with the rank of its place and the score of its standing.
pub open spec fn read_in_order(read: LeaderboardReadView) -> bool {
    &&& read.entries.len() <= read.ranked.len() <= MAX_RANKED
    &&& read.stage == ReadStage::Details ==> read.entries.len() < read.ranked.len()
    &&& read.stage == ReadStage::Count ==> read.entries.len() == read.ranked.len()
    &&& forall|i: int|
        0 <= i < read.entries.len() ==> (#[trigger] read.entries[i]).rank == i + 1
            && read.entries[i].score == read.ranked[i].1
}

/// Whatever the cache replies, a read returns one entry for each standing
/// it was given, in their order, each with the rank of its place and the
/// score of its standing, and with them the count that the cache gave.
pub proof fn law_read_keeps_the_order_of_the_standings(
    competition: Seq<char>,
    limit: isize,
    now: Timestamp,
    read: LeaderboardReadView,
    reply: ReplyView,
)
    requires
        read_in_order(read),
    ensures
        read_in_order(LeaderboardReadView::initial(competition, limit, now)),
        match read.step(reply) {
            Expected::Ask(next, _) => read_in_order(next) && (read.stage != ReadStage::Ranking
                ==> next.ranked == read.ranked),
            Expected::Finished(Ok(board)) => {
                &&& reply == ReplyView::Count(board.total_count)
                &&& board.entries.len() == read.ranked.len()
                &&& forall|i: int|
                    0 <= i < board.entries.len() ==> (#[trigger] board.entries[i]).rank == i + 1
                        && board.entries[i].score == read.ranked[i].1
            },
            Expected::Finished(Err(_)) => true,
        },
{
}

/// A calculation of prizes replaces what an earlier one has stored: after
/// two calculations the cache is what the second alone would have left.
pub proof fn law_recalculation_replaces_the_prizes(
    state: CacheState,
    competition: Seq<char>,
    earlier_pool: u64,
    earlier: Timestamp,
    pool: u64,
    now: Timestamp,
)
    ensures
        prizes_of(with_prizes(state, competition, earlier_pool, earlier), competition, pool, now)
            == prizes_of(state, competition, pool, now),
        with_prizes(
            with_prizes(state, competition, earlier_pool, earlier),
            competition,
            pool,
            now,
        ) == with_prizes(state, competition, pool, now),
{
    let limit: isize = 3;
    let between = with_prizes(state, competition, earlier_pool, earlier);
    let top = top_of(state, competition, limit);
    assert(top_of(between, competition, limit) == top);
    assert forall|member: Seq<char>|
        snapshot_at(between, competition, member) == snapshot_at(state, competition, member)
            && unreadable(between, competition, member) == unreadable(
            state,
            competition,
            member,
        ) by {
        lemma_prizes_key_is_no_snapshot_key(competition, competition, member);
    }
    assert(readable(between, competition, top, top.len() as int) == readable(
        state,
        competition,
        top,
        top.len() as int,
    ));
    assert(board_entries(between, competition, top, now) =~= board_entries(
        state,
        competition,
        top,
        now,
    ));
    assert(board_entries(between, competition, top, earlier) =~= board_entries(
        state,
        competition,
        top,
        earlier,
    ));
    let after = with_prizes(between, competition, pool, now);
    let alone = with_prizes(state, competition, pool, now);
    assert(after.values =~= alone.values);
}

/// A score that was written is told once to each of those who listen on
/// the channel of its competition at that moment: the event is the last in
/// their inboxes, behind what they had not collected. To those who listen
/// elsewhere, or have left, nothing is told.
pub proof fn law_update_reaches_the_listeners(
    state: CacheState,
    user: Seq<char>,
    competition: Seq<char>,
    steps: i64,
    distance: i64,
    calories: i64,
    now: Timestamp,
)
    requires
        state.takes(leaderboard_key_text(competition), user),
    ensures
        ({
            let next = updated(state, user, competition, steps, distance, calories, now);
            let channel = leaderboard_key_text(competition);
            &&& next.listeners.len() == state.listeners.len()
            &&& forall|i: int|
                0 <= i < state.listeners.len() ==> (#[trigger] next.listeners[i]).channel
                    == state.listeners[i].channel && next.listeners[i].inbox == if
                    state.listeners[i].channel == Some(channel) {
                    state.listeners[i].inbox.push(update_event(user, competition, steps, now))
                } else {
                    state.listeners[i].inbox
                }
        }),
{
}

/// Nothing that was published before someone came to listen reaches it:
/// a new listener begins with an empty inbox, whatever was published, and
/// what it collects is not delivered again.
pub proof fn law_events_are_not_replayed(
    state: CacheState,
    channel: Seq<char>,
    event: LeaderboardEventView,
    later: LeaderboardEventView,
)
    ensures
        ({
            let joined = state.publish(channel, event).subscribe(channel);
            let listener = state.listeners.len() as int;
            &&& joined.listeners.len() == listener + 1
            &&& joined.listeners[listener].inbox == Seq::<LeaderboardEventView>::empty()
            &&& joined.publish(channel, later).listeners[listener].inbox == seq![later]
            &&& joined.publish(channel, later).collected(listener).listeners[listener].inbox
                == Seq::<LeaderboardEventView>::empty()
        }),
{
    let joined = state.publish(channel, event).subscribe(channel);
    let listener = state.listeners.len() as int;
    assert(joined.publish(channel, later).listeners[listener].inbox =~= seq![later]);
}

/// Two submissions of one user that both read the totals before either
/// writes them lose the first: the totals that are left count the second
/// submission only. Nothing in the service holds the totals between the
/// read and the write.
pub proof fn law_interleaved_submissions_lose_the_first(
    state: CacheState,
    first: FitnessDataView,
    second: FitnessDataView,
    first_now: Timestamp,
    second_now: Timestamp,
    later: Timestamp,
)
    requires
        first.user_id == second.user_id,
        first.competition_id == second.competition_id,
    ensures
        ({
            let read = state.reply(
                StatsReadView::first_command(first.user_id, first.competition_id),
            );
            let one = (FitnessSyncView::Totals { sample: first, now: first_now }).step(read);
            let other = (FitnessSyncView::Totals { sample: second, now: second_now }).step(read);
            one matches Expected::Ask(_, earlier) ==> (other matches Expected::Ask(_, last) ==> {
                let left = state.after(earlier).after(last);
                &&& stats_of(state, first.user_id, first.competition_id, later) matches Ok(before)
                &&& stats_of(left, first.user_id, first.competition_id, later) matches Ok(after)
                &&& after.steps == before.steps + second.steps
                &&& after.distance == before.distance + second.distance
                &&& after.calories == before.calories + second.calories
                &&& after.active_minutes == before.active_minutes + second.active_minutes
            })
        }),
{
}

} // verus!
