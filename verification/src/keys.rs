//! The layout of cache keys, channels and identifiers.

use vstd::prelude::*;
use vstd::string::*;
use crate::text::{decimal, push_decimal};

verus! {

/// `fitness:{user}:{competition}:{day}`: one day's sample of a user.
pub open spec fn fitness_key_text(user: Seq<char>, competition: Seq<char>, day: Seq<char>) -> Seq<
    char,
> {
    "fitness:"@ + user + ":"@ + competition + ":"@ + day
}

/// `fitness_stats:{user}:{competition}`: the running totals of a user.
pub open spec fn fitness_stats_key_text(user: Seq<char>, competition: Seq<char>) -> Seq<char> {
    "fitness_stats:"@ + user + ":"@ + competition
}

/// `leaderboard:{competition}`: the ranking set of a competition, and the
/// channel on which its score changes are published.
pub open spec fn leaderboard_key_text(competition: Seq<char>) -> Seq<char> {
    "leaderboard:"@ + competition
}

/// `user_details:{competition}:{user}`: the snapshot of a user's latest
/// activity.
pub open spec fn user_details_key_text(competition: Seq<char>, user: Seq<char>) -> Seq<char> {
    "user_details:"@ + competition + ":"@ + user
}

/// `prizes:{competition}`: the prizes last calculated for a competition.
pub open spec fn prizes_key_text(competition: Seq<char>) -> Seq<char> {
    "prizes:"@ + competition
}

/// `{user}-{competition}-{seconds}`: the identifier of a sample, the same for
/// every submission of one user, competition and instant.
pub open spec fn sample_id_text(user: Seq<char>, competition: Seq<char>, secs: i64) -> Seq<char> {
    user + "-"@ + competition + "-"@ + decimal(secs as int)
}

/// `prize-{competition}-{rank}`: the identifier of the prize of one rank.
pub open spec fn prize_id_text(competition: Seq<char>, rank: i32) -> Seq<char> {
    "prize-"@ + competition + "-"@ + decimal(rank as int)
}

pub fn fitness_key(user: &str, competition: &str, day: &str) -> (key: String)
    ensures
        key@ == fitness_key_text(user@, competition@, day@),
{
    let mut key = "fitness:".to_owned();
    key.append(user);
    key.append(":");
    key.append(competition);
    key.append(":");
    key.append(day);
    key
}

pub fn fitness_stats_key(user: &str, competition: &str) -> (key: String)
    ensures
        key@ == fitness_stats_key_text(user@, competition@),
{
    let mut key = "fitness_stats:".to_owned();
    key.append(user);
    key.append(":");
    key.append(competition);
    key
}

pub fn leaderboard_key(competition: &str) -> (key: String)
    ensures
        key@ == leaderboard_key_text(competition@),
{
    let mut key = "leaderboard:".to_owned();
    key.append(competition);
    key
}

pub fn user_details_key(competition: &str, user: &str) -> (key: String)
    ensures
        key@ == user_details_key_text(competition@, user@),
{
    let mut key = "user_details:".to_owned();
    key.append(competition);
    key.append(":");
    key.append(user);
    key
}

pub fn prizes_key(competition: &str) -> (key: String)
    ensures
        key@ == prizes_key_text(competition@),
{
    let mut key = "prizes:".to_owned();
    key.append(competition);
    key
}

pub fn sample_id(user: &str, competition: &str, secs: i64) -> (id: String)
    ensures
        id@ == sample_id_text(user@, competition@, secs),
{
    let mut id = user.to_owned();
    id.append("-");
    id.append(competition);
    id.append("-");
    push_decimal(&mut id, secs);
    id
}

pub fn prize_id(competition: &str, rank: i32) -> (id: String)
    ensures
        id@ == prize_id_text(competition@, rank),
{
    let mut id = "prize-".to_owned();
    id.append(competition);
    id.append("-");
    push_decimal(&mut id, rank as i64);
    id
}

/// A day's sample and the running totals never share a key.
pub proof fn lemma_sample_key_is_not_stats_key(
    user: Seq<char>,
    competition: Seq<char>,
    day: Seq<char>,
    other_user: Seq<char>,
    other_competition: Seq<char>,
)
    ensures
        fitness_key_text(user, competition, day) != fitness_stats_key_text(
            other_user,
            other_competition,
        ),
{
    reveal_strlit("fitness:");
    reveal_strlit("fitness_stats:");
    let a = fitness_key_text(user, competition, day);
    let b = fitness_stats_key_text(other_user, other_competition);
    assert(a[7] == ':');
    assert(b[7] == '_');
}

/// No colon stands in `text`.
pub open spec fn colon_free(text: Seq<char>) -> bool {
    forall|i: int| 0 <= i < text.len() ==> #[trigger] text[i] != ':'
}

/// The key of the snapshot of `user` in `competition` is the snapshot key
/// of no other pair of a competition and a user.
pub open spec fn unambiguous(competition: Seq<char>, user: Seq<char>) -> bool {
    forall|other: Seq<char>, member: Seq<char>|
        #[trigger] user_details_key_text(other, member) == user_details_key_text(
            competition,
            user,
        ) ==> other == competition && member == user
}

/// Within one competition, two users never share a snapshot key.
pub proof fn lemma_snapshot_keys_tell_users_apart(
    competition: Seq<char>,
    user: Seq<char>,
    member: Seq<char>,
)
    requires
        user_details_key_text(competition, user) == user_details_key_text(competition, member),
    ensures
        user == member,
{
    let front = "user_details:"@ + competition + ":"@;
    assert((front + user).skip(front.len() as int) =~= user);
    assert((front + member).skip(front.len() as int) =~= member);
}

/// Where neither the competition nor the user holds a colon, their snapshot
/// key is the key of that pair alone.
pub proof fn lemma_plain_ids_are_unambiguous(competition: Seq<char>, user: Seq<char>)
    requires
        colon_free(competition),
        colon_free(user),
    ensures
        unambiguous(competition, user),
{
    reveal_strlit("user_details:");
    reveal_strlit(":");
    let head = "user_details:"@;
    let key = user_details_key_text(competition, user);
    assert forall|other: Seq<char>, member: Seq<char>| #[trigger]
        user_details_key_text(other, member) == key implies other == competition && member
        == user by {
        let same = user_details_key_text(other, member);
        let start = head.len() as int;
        let at = start + other.len();
        assert(":"@.len() == 1 && ":"@[0] == ':');
        assert(same.len() == start + other.len() + 1 + member.len());
        assert(key.len() == start + competition.len() + 1 + user.len());
        assert(same[at] == ':');
        assert(key[at] == ':');
        if at < start + competition.len() {
            assert(key[at] == competition[at - start]);
        } else if at > start + competition.len() {
            assert(key[at] == user[at - start - competition.len() - 1]);
        }
        assert(other.len() == competition.len());
        assert(same.subrange(start, at) =~= other);
        assert(key.subrange(start, at) =~= competition);
        assert(same.skip(at + 1) =~= member);
        assert(key.skip(at + 1) =~= user);
    }
}

/// Samples and totals never stand under the key of a snapshot.
pub proof fn lemma_fitness_keys_are_no_snapshot_keys(
    user: Seq<char>,
    competition: Seq<char>,
    day: Seq<char>,
    other: Seq<char>,
    member: Seq<char>,
)
    ensures
        fitness_key_text(user, competition, day) != user_details_key_text(other, member),
        fitness_stats_key_text(user, competition) != user_details_key_text(other, member),
{
    reveal_strlit("fitness:");
    reveal_strlit("fitness_stats:");
    reveal_strlit("user_details:");
    assert(fitness_key_text(user, competition, day)[0] == 'f');
    assert(fitness_stats_key_text(user, competition)[0] == 'f');
    assert(user_details_key_text(other, member)[0] == 'u');
}

/// Prizes never stand under the key of a snapshot.
pub proof fn lemma_prizes_key_is_no_snapshot_key(
    competition: Seq<char>,
    other: Seq<char>,
    member: Seq<char>,
)
    ensures
        prizes_key_text(competition) != user_details_key_text(other, member),
{
    reveal_strlit("prizes:");
    reveal_strlit("user_details:");
    assert(prizes_key_text(competition)[0] == 'p');
    assert(user_details_key_text(other, member)[0] == 'u');
}

} // verus!
