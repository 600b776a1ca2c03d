//! What a read of the standings returns from a given cache, and why.

use vstd::prelude::*;
use crate::keys::{leaderboard_key_text, user_details_key_text};
use crate::leaderboard::{listed, LeaderboardReadView, ReadStage, MAX_RANKED};
use crate::models::{LeaderboardEntryView, LeaderboardView};
use crate::port::{CacheError, CacheState, CacheValueView, CommandView, ValueKind};
use crate::ranking::{is_ranking, window, Standing, MAX_MEMBERS};
use crate::operation::{Expected, ServiceError};
use crate::time::Timestamp;

verus! {

/// The standings of `competition` in `state`, highest score first.
pub open spec fn ranking_of(state: CacheState, competition: Seq<char>) -> Seq<Standing> {
    state.ranking(leaderboard_key_text(competition))
}

/// The top `limit` of the standings of `competition` in `state`: the
/// ranking set's window from 0 to `limit - 1`, and nothing for a limit of 0.
/// A limit below 0 gives a window whose end is counted from the last
/// standing.
pub open spec fn top_of(state: CacheState, competition: Seq<char>, limit: isize) -> Seq<Standing> {
    if limit == 0 {
        Seq::empty()
    } else {
        window(ranking_of(state, competition), 0, limit - 1)
    }
}

/// The snapshot of `member` that `state` holds, if it holds one.
pub open spec fn snapshot_at(state: CacheState, competition: Seq<char>, member: Seq<char>)
    -> Option<LeaderboardEntryView> {
    match state.live(user_details_key_text(competition, member)) {
        Some(CacheValueView::Entry(details)) => Some(details),
        _ => None,
    }
}

/// Under the key of `member`'s snapshot `state` holds something that is no
/// snapshot.
pub open spec fn unreadable(state: CacheState, competition: Seq<char>, member: Seq<char>) -> bool {
    match state.live(user_details_key_text(competition, member)) {
        Some(CacheValueView::Entry(_)) => false,
        Some(_) => true,
        None => false,
    }
}

/// `value` is a snapshot that bears `competition` and `user`.
pub open spec fn is_snapshot_of(value: CacheValueView, competition: Seq<char>, user: Seq<char>)
    -> bool {
    match value {
        CacheValueView::Entry(details) => details.user_id == user && details.competition_id
            == competition,
        _ => false,
    }
}

/// Under every key of a snapshot stands a snapshot, and it bears the
/// competition and the user of its key. The service keeps its cache so;
/// whoever writes to the cache beside it may not.
pub open spec fn snapshots_in_place(state: CacheState) -> bool {
    forall|competition: Seq<char>, user: Seq<char>|
        state.values.contains_key(#[trigger] user_details_key_text(competition, user))
            ==> is_snapshot_of(
            state.values[user_details_key_text(competition, user)].value,
            competition,
            user,
        )
}

/// None of the first `n` of `top` is unreadable.
pub open spec fn readable(state: CacheState, competition: Seq<char>, top: Seq<Standing>, n: int)
    -> bool {
    forall|i: int| 0 <= i < n ==> !unreadable(state, competition, (#[trigger] top[i]).0)
}

/// The entries of the members `top`, in their order: each with its rank, its
/// score, and its snapshot or a placeholder.
pub open spec fn board_entries(
    state: CacheState,
    competition: Seq<char>,
    top: Seq<Standing>,
    now: Timestamp,
) -> Seq<LeaderboardEntryView> {
    Seq::new(
        top.len(),
        |i: int|
            listed(
                snapshot_at(state, competition, top[i].0),
                competition,
                top[i].0,
                top[i].1,
                (i + 1) as i32,
                now,
            ),
    )
}

/// The standings that a read of the top `limit` returns from `state`.
pub open spec fn board_of(state: CacheState, competition: Seq<char>, limit: isize, now: Timestamp)
    -> LeaderboardView {
    LeaderboardView {
        competition_id: competition,
        entries: board_entries(state, competition, top_of(state, competition, limit), now),
        total_count: ranking_of(state, competition).len() as i32,
        updated_at: now,
    }
}

/// What a read of the top `limit` returns from `state`: the standings, or
/// the failure to read a snapshot.
pub open spec fn standings_of(
    state: CacheState,
    competition: Seq<char>,
    limit: isize,
    now: Timestamp,
) -> Result<LeaderboardView, ServiceError> {
    let top = top_of(state, competition, limit);
    if readable(state, competition, top, top.len() as int) {
        Ok(board_of(state, competition, limit, now))
    } else {
        Err(ServiceError::Cache(CacheError::Deserialization))
    }
}

/// The read after it has made the entries of the first `k` members.
pub open spec fn read_after(
    state: CacheState,
    competition: Seq<char>,
    limit: isize,
    now: Timestamp,
    k: int,
) -> LeaderboardReadView {
    let top = top_of(state, competition, limit);
    LeaderboardReadView {
        competition_id: competition,
        now,
        stage: ReadStage::Ranking,
        ranked: top,
        entries: board_entries(state, competition, top, now).take(k),
    }
}

/// A window of a ranking is no longer than the ranking.
pub proof fn lemma_window_len(s: Seq<Standing>, start: int, stop: int)
    ensures
        window(s, start, stop).len() <= s.len(),
        start == 0 && stop >= 0 ==> window(s, start, stop).len() == if stop + 1 <= s.len() {
            stop + 1
        } else {
            s.len() as int
        },
        start == 0 && stop >= 0 ==> window(s, start, stop) == s.take(
            window(s, start, stop).len() as int,
        ),
{
    if start == 0 && stop >= 0 {
        assert(window(s, start, stop) =~= s.take(window(s, start, stop).len() as int));
    }
}

/// The first step of a read against `state`: the top of the ranking set
/// arrives and the read asks for what it needs next; a read of the top 0
/// gets the size of the set and ends.
pub proof fn lemma_read_begins(
    state: CacheState,
    competition: Seq<char>,
    limit: isize,
    now: Timestamp,
)
    requires
        state.wf(),
        limit > isize::MIN,
    ensures
        state.after(LeaderboardReadView::first_command(competition, limit)) == state,
        LeaderboardReadView::first_command(competition, limit).is_read(),
        limit != 0 ==> LeaderboardReadView::initial(competition, limit, now).step(
            state.reply(LeaderboardReadView::first_command(competition, limit)),
        ) == read_after(state, competition, limit, now, 0).proceed(),
        limit == 0 ==> LeaderboardReadView::initial(competition, limit, now).step(
            state.reply(LeaderboardReadView::first_command(competition, limit)),
        ) == Expected::<LeaderboardReadView, LeaderboardView>::Finished(
            standings_of(state, competition, limit, now),
        ) && standings_of(state, competition, limit, now) is Ok,
        top_of(state, competition, limit).len() <= MAX_RANKED,
{
    let ranking = ranking_of(state, competition);
    lemma_window_len(ranking, 0, limit - 1);
    let top = top_of(state, competition, limit);
    assert(ranking.len() <= MAX_MEMBERS);
    if limit == 0 {
        assert(board_entries(state, competition, top, now) =~= Seq::<
            LeaderboardEntryView,
        >::empty());
    } else {
        let begun = LeaderboardReadView {
            ranked: top,
            entries: Seq::empty(),
            ..LeaderboardReadView::initial(competition, limit, now)
        };
        assert(board_entries(state, competition, top, now).take(0) =~= Seq::<
            LeaderboardEntryView,
        >::empty());
        assert(begun == read_after(state, competition, limit, now, 0));
    }
}

/// A later step of a read against `state`: the snapshot of the next member
/// arrives, or fails to, or the size of the set arrives and ends the read.
pub proof fn lemma_read_goes_on(
    state: CacheState,
    competition: Seq<char>,
    limit: isize,
    now: Timestamp,
    k: int,
    read: LeaderboardReadView,
    command: CommandView,
)
    requires
        state.wf(),
        0 <= k <= top_of(state, competition, limit).len() <= MAX_RANKED,
        readable(state, competition, top_of(state, competition, limit), k),
        read_after(state, competition, limit, now, k).proceed() == Expected::<
            LeaderboardReadView,
            LeaderboardView,
        >::Ask(read, command),
    ensures
        state.after(command) == state,
        k < top_of(state, competition, limit).len() && !unreadable(
            state,
            competition,
            top_of(state, competition, limit)[k].0,
        ) ==> read.step(state.reply(command)) == read_after(
            state,
            competition,
            limit,
            now,
            k + 1,
        ).proceed() && readable(state, competition, top_of(state, competition, limit), k + 1),
        k < top_of(state, competition, limit).len() && unreadable(
            state,
            competition,
            top_of(state, competition, limit)[k].0,
        ) ==> read.step(state.reply(command)) == Expected::<
            LeaderboardReadView,
            LeaderboardView,
        >::Finished(Err(ServiceError::Cache(CacheError::Deserialization))) && standings_of(
            state,
            competition,
            limit,
            now,
        ) == Err::<LeaderboardView, ServiceError>(
            ServiceError::Cache(CacheError::Deserialization),
        ),
        k == top_of(state, competition, limit).len() ==> read.step(state.reply(command))
            == Expected::<LeaderboardReadView, LeaderboardView>::Finished(
            standings_of(state, competition, limit, now),
        ) && standings_of(state, competition, limit, now) is Ok,
{
    let top = top_of(state, competition, limit);
    let all = board_entries(state, competition, top, now);
    let here = read_after(state, competition, limit, now, k);
    assert(here.entries.len() == k);
    if k < top.len() {
        let member = top[k].0;
        let key = user_details_key_text(competition, member);
        assert(command == CommandView::Get { key, kind: ValueKind::Entry });
        assert(read.entries.len() < read.ranked.len());
        if !unreadable(state, competition, member) {
            let snapshot = snapshot_at(state, competition, member);
            assert(read.listing(snapshot).entries =~= all.take(k + 1));
            assert(read.listing(snapshot) == LeaderboardReadView {
                stage: ReadStage::Details,
                ..read_after(state, competition, limit, now, k + 1)
            });
            match state.live(key) {
                Some(CacheValueView::Entry(details)) => {
                    assert(read.step(state.reply(command)) == read.listing(snapshot).proceed());
                },
                Some(_) => {},
                None => {
                    assert(read.step(state.reply(command)) == read.listing(snapshot).proceed());
                },
            }
        } else {
            assert(!readable(state, competition, top, top.len() as int));
        }
    } else {
        assert(all.take(k) =~= all);
        let ranking = ranking_of(state, competition);
        assert(ranking.len() <= MAX_MEMBERS);
    }
}

/// What holds of the standings that a read returns: the size of the whole
/// ranking set; ranks that count the entries from 1; scores that never
/// increase; each entry with the score of its place; and, for a limit of at
/// least 0, as many entries as the ranking set has members, up to the limit.
pub proof fn lemma_board_shape(
    state: CacheState,
    competition: Seq<char>,
    limit: isize,
    now: Timestamp,
)
    requires
        state.wf(),
    ensures
        ({
            let board = board_of(state, competition, limit, now);
            let members = ranking_of(state, competition).len();
            &&& board.total_count == members
            &&& forall|i: int|
                0 <= i < board.entries.len() ==> (#[trigger] board.entries[i]).rank == i + 1
            &&& forall|i: int, j: int|
                0 <= i < j < board.entries.len() ==> (#[trigger] board.entries[i]).score >= (
                #[trigger] board.entries[j]).score
            &&& limit >= 0 ==> board.entries.len() == if members <= limit {
                members as int
            } else {
                limit as int
            }
            &&& forall|i: int|
                0 <= i < board.entries.len() ==> (#[trigger] board.entries[i]).score
                    == ranking_of(state, competition)[i].1 && i < members
        }),
{
    let ranking = ranking_of(state, competition);
    lemma_window_len(ranking, 0, limit - 1);
    let top = top_of(state, competition, limit);
    let board = board_of(state, competition, limit, now);
    assert(is_ranking(ranking));
    assert(top.len() <= MAX_MEMBERS);
    assert forall|i: int, j: int| 0 <= i < j < board.entries.len() implies (
    #[trigger] board.entries[i]).score >= (#[trigger] board.entries[j]).score by {
        assert(top[i] == ranking[i]);
        assert(top[j] == ranking[j]);
    }
}

} // verus!
