//! The vocabulary of the cache port: the values it stores, the commands it
//! takes, the replies it gives, and what a store does with each command.

use vstd::prelude::*;
use crate::models::{
    prize_views, FitnessData, FitnessDataView, LeaderboardEntry, LeaderboardEntryView,
    LeaderboardEvent, LeaderboardEventView, Prize, PrizeView,
};
use crate::ranking::{
    has_member, is_ranking, position, score_of, standings, upsert, window, Standing, MAX_MEMBERS,
};

verus! {

/// Why a cache command failed.
#[derive(Clone, Copy, Debug, PartialEq, Eq, Structural)]
pub enum CacheError {
    /// Nothing is stored under the key, or what was stored has expired.
    NotFound,
    /// The value could not be written in its stored form.
    Serialization,
    /// What is stored does not have the shape that was asked for.
    Deserialization,
    /// The store could not be reached, or could not take the command.
    StoreUnavailable,
}

/// The shapes of the values that the service stores.
#[derive(Clone, Copy, Debug, PartialEq, Eq, Structural)]
pub enum ValueKind {
    Fitness,
    Entry,
    Prizes,
}

/// A value that the service stores under a key.
#[derive(Debug, PartialEq, Eq)]
pub enum CacheValue {
    Fitness(FitnessData),
    Entry(LeaderboardEntry),
    Prizes(Vec<Prize>),
}

pub enum CacheValueView {
    Fitness(FitnessDataView),
    Entry(LeaderboardEntryView),
    Prizes(Seq<PrizeView>),
}

impl CacheValueView {
    pub open spec fn kind(self) -> ValueKind {
        match self {
            CacheValueView::Fitness(_) => ValueKind::Fitness,
            CacheValueView::Entry(_) => ValueKind::Entry,
            CacheValueView::Prizes(_) => ValueKind::Prizes,
        }
    }
}

impl View for CacheValue {
    type V = CacheValueView;

    open spec fn view(&self) -> CacheValueView {
        match self {
            CacheValue::Fitness(data) => CacheValueView::Fitness(data@),
            CacheValue::Entry(entry) => CacheValueView::Entry(entry@),
            CacheValue::Prizes(prizes) => CacheValueView::Prizes(prize_views(prizes@)),
        }
    }
}

/// A copy of a list of prizes.
pub fn clone_prizes(prizes: &Vec<Prize>) -> (copy: Vec<Prize>)
    ensures
        copy@ == prizes@,
{
    let mut copy: Vec<Prize> = Vec::new();
    let mut i: usize = 0;
    while i < prizes.len()
        invariant
            i <= prizes@.len(),
            copy@ == prizes@.subrange(0, i as int),
        decreases prizes@.len() - i,
    {
        copy.push(prizes[i].clone());
        i += 1;
        assert(copy@ =~= prizes@.subrange(0, i as int));
    }
    assert(copy@ =~= prizes@);
    copy
}

impl CacheValue {
    /// The shape of this value.
    pub fn kind(&self) -> (kind: ValueKind)
        ensures
            kind == self@.kind(),
    {
        match self {
            CacheValue::Fitness(_) => ValueKind::Fitness,
            CacheValue::Entry(_) => ValueKind::Entry,
            CacheValue::Prizes(_) => ValueKind::Prizes,
        }
    }
}

impl Clone for CacheValue {
    fn clone(&self) -> (copy: Self)
        ensures
            copy@ == self@,
    {
        match self {
            CacheValue::Fitness(data) => CacheValue::Fitness(data.clone()),
            CacheValue::Entry(entry) => CacheValue::Entry(entry.clone()),
            CacheValue::Prizes(prizes) => CacheValue::Prizes(clone_prizes(prizes)),
        }
    }
}

/// One command to the cache.
#[derive(Debug, PartialEq, Eq)]
pub enum Command {
    /// Store `value` under `key` for `ttl_secs` seconds from now, in place
    /// of what was there.
    Put { key: String, value: CacheValue, ttl_secs: u64 },
    /// Read the value under `key`, which is expected to have the shape `kind`.
    Get { key: String, kind: ValueKind },
    /// Remove what is stored under `key`.
    Delete { key: String },
    /// Ask whether a value is stored under `key`.
    Exists { key: String },
    /// Give `member` the score `score` in the ranking set `key`.
    ZAdd { key: String, score: i64, member: String },
    /// Read the standings of the ranking set `key` from position `start` to
    /// position `stop`, highest score first.
    ZRevRangeWithScores { key: String, start: isize, stop: isize },
    /// Read the position of `member` in the ranking set `key`.
    ZRevRank { key: String, member: String },
    /// Read the score of `member` in the ranking set `key`.
    ZScore { key: String, member: String },
    /// Count the members of the ranking set `key`.
    ZCard { key: String },
    /// Send `event` to those who listen on `channel` at this moment.
    Publish { channel: String, event: LeaderboardEvent },
}

pub enum CommandView {
    Put { key: Seq<char>, value: CacheValueView, ttl_secs: u64 },
    Get { key: Seq<char>, kind: ValueKind },
    Delete { key: Seq<char> },
    Exists { key: Seq<char> },
    ZAdd { key: Seq<char>, score: i64, member: Seq<char> },
    ZRevRangeWithScores { key: Seq<char>, start: isize, stop: isize },
    ZRevRank { key: Seq<char>, member: Seq<char> },
    ZScore { key: Seq<char>, member: Seq<char> },
    ZCard { key: Seq<char> },
    Publish { channel: Seq<char>, event: LeaderboardEventView },
}

impl CommandView {
    /// The command changes nothing in the cache.
    pub open spec fn is_read(self) -> bool {
        match self {
            CommandView::Put { .. } => false,
            CommandView::Delete { .. } => false,
            CommandView::ZAdd { .. } => false,
            CommandView::Publish { .. } => false,
            _ => true,
        }
    }
}

impl View for Command {
    type V = CommandView;

    open spec fn view(&self) -> CommandView {
        match self {
            Command::Put { key, value, ttl_secs } => CommandView::Put {
                key: key@,
                value: value@,
                ttl_secs: *ttl_secs,
            },
            Command::Get { key, kind } => CommandView::Get { key: key@, kind: *kind },
            Command::Delete { key } => CommandView::Delete { key: key@ },
            Command::Exists { key } => CommandView::Exists { key: key@ },
            Command::ZAdd { key, score, member } => CommandView::ZAdd {
                key: key@,
                score: *score,
                member: member@,
            },
            Command::ZRevRangeWithScores { key, start, stop } => CommandView::ZRevRangeWithScores {
                key: key@,
                start: *start,
                stop: *stop,
            },
            Command::ZRevRank { key, member } => CommandView::ZRevRank {
                key: key@,
                member: member@,
            },
            Command::ZScore { key, member } => CommandView::ZScore { key: key@, member: member@ },
            Command::ZCard { key } => CommandView::ZCard { key: key@ },
            Command::Publish { channel, event } => CommandView::Publish {
                channel: channel@,
                event: event@,
            },
        }
    }
}

/// What the cache answers to one command.
#[derive(Debug, PartialEq, Eq)]
pub enum Reply {
    /// The command was carried out and has nothing to report.
    Done,
    /// The value that was read.
    Value(CacheValue),
    /// The answer to a yes-or-no question.
    Flag(bool),
    /// The standings that were read, highest score first.
    Ranked(Vec<(String, i64)>),
    /// The position of a member, counted from 0, if it has one.
    Rank(Option<isize>),
    /// The score of a member, if it has one.
    Score(Option<i64>),
    /// The number of members of a ranking set.
    Count(i32),
    /// The command failed.
    Failed(CacheError),
}

pub enum ReplyView {
    Done,
    Value(CacheValueView),
    Flag(bool),
    Ranked(Seq<Standing>),
    Rank(Option<isize>),
    Score(Option<i64>),
    Count(i32),
    Failed(CacheError),
}

impl View for Reply {
    type V = ReplyView;

    open spec fn view(&self) -> ReplyView {
        match self {
            Reply::Done => ReplyView::Done,
            Reply::Value(value) => ReplyView::Value(value@),
            Reply::Flag(flag) => ReplyView::Flag(*flag),
            Reply::Ranked(found) => ReplyView::Ranked(standings(found@)),
            Reply::Rank(rank) => ReplyView::Rank(*rank),
            Reply::Score(score) => ReplyView::Score(*score),
            Reply::Count(count) => ReplyView::Count(*count),
            Reply::Failed(error) => ReplyView::Failed(*error),
        }
    }
}

/// A stored value and the second at which it expires (`None`: never).
pub struct StoredView {
    pub value: CacheValueView,
    pub expires_at: Option<u64>,
}

/// Someone who listens on a channel, and the events that have reached it
/// and were not collected yet, oldest first. A listener that has left
/// listens on no channel.
pub struct ListenerView {
    pub channel: Option<Seq<char>>,
    pub inbox: Seq<LeaderboardEventView>,
}

impl ListenerView {
    /// This listener after `event` was published on `channel`: the event
    /// has reached it if that is the channel it listens on.
    pub open spec fn hearing(self, channel: Seq<char>, event: LeaderboardEventView)
        -> ListenerView {
        if self.channel == Some(channel) {
            ListenerView { inbox: self.inbox.push(event), ..self }
        } else {
            self
        }
    }
}

/// Every one of `rankings` holds each member once, highest score first, and
/// no more members than a ranking set can hold.
pub open spec fn all_rankings(rankings: Map<Seq<char>, Seq<Standing>>) -> bool {
    forall|key: Seq<char>| #[trigger]
        rankings.contains_key(key) ==> is_ranking(rankings[key]) && rankings[key].len()
            <= MAX_MEMBERS
}

/// Everything a cache holds at one moment.
pub struct CacheState {
    /// The seconds that have passed on the cache's clock.
    pub clock: u64,
    /// The values under their keys, expired ones included.
    pub values: Map<Seq<char>, StoredView>,
    /// The ranking sets under their keys.
    pub rankings: Map<Seq<char>, Seq<Standing>>,
    /// Those who have come to listen, in the order they came.
    pub listeners: Seq<ListenerView>,
}

impl CacheState {
    /// A cache that holds nothing, with its clock at 0.
    pub open spec fn empty() -> CacheState {
        CacheState {
            clock: 0,
            values: Map::empty(),
            rankings: Map::empty(),
            listeners: Seq::empty(),
        }
    }

    /// Every ranking set holds each member once, highest score first, and no
    /// more members than a ranking set can hold.
    pub open spec fn wf(self) -> bool {
        all_rankings(self.rankings)
    }

    /// The value under `key`, unless none is stored or it has expired.
    pub open spec fn live(self, key: Seq<char>) -> Option<CacheValueView> {
        if self.values.contains_key(key) && (match self.values[key].expires_at {
            Some(end) => self.clock < end,
            None => true,
        }) {
            Some(self.values[key].value)
        } else {
            None
        }
    }

    /// The standings of the ranking set `key`; none where there is no such
    /// set.
    pub open spec fn ranking(self, key: Seq<char>) -> Seq<Standing> {
        if self.rankings.contains_key(key) {
            self.rankings[key]
        } else {
            Seq::empty()
        }
    }

    /// The second at which a value stored now for `ttl_secs` seconds expires.
    pub open spec fn expiry(self, ttl_secs: u64) -> Option<u64> {
        if self.clock + ttl_secs <= u64::MAX {
            Some((self.clock + ttl_secs) as u64)
        } else {
            None
        }
    }

    /// The cache after `value` was stored under `key` for `ttl_secs` seconds.
    pub open spec fn set(self, key: Seq<char>, value: CacheValueView, ttl_secs: u64) -> CacheState {
        CacheState {
            values: self.values.insert(
                key,
                StoredView { value, expires_at: self.expiry(ttl_secs) },
            ),
            ..self
        }
    }

    /// The cache after what was under `key` was removed.
    pub open spec fn delete(self, key: Seq<char>) -> CacheState {
        CacheState { values: self.values.remove(key), ..self }
    }

    /// Whether the ranking set `key` takes `member`: it does unless it is
    /// full and `member` is new to it.
    pub open spec fn takes(self, key: Seq<char>, member: Seq<char>) -> bool {
        has_member(self.ranking(key), member) || self.ranking(key).len() < MAX_MEMBERS
    }

    /// The cache after `member` was given `score` in the ranking set `key`.
    pub open spec fn zadd(self, key: Seq<char>, member: Seq<char>, score: i64) -> CacheState {
        if self.takes(key, member) {
            CacheState {
                rankings: self.rankings.insert(key, upsert(self.ranking(key), member, score)),
                ..self
            }
        } else {
            self
        }
    }

    /// The cache after `event` was published on `channel`: the event has
    /// reached those who listen on the channel at this moment, and nobody
    /// else; it is kept nowhere.
    pub open spec fn publish(self, channel: Seq<char>, event: LeaderboardEventView) -> CacheState {
        CacheState {
            listeners: Seq::new(
                self.listeners.len(),
                |i: int| self.listeners[i].hearing(channel, event),
            ),
            ..self
        }
    }

    /// The cache after someone new came to listen on `channel`.
    pub open spec fn subscribe(self, channel: Seq<char>) -> CacheState {
        CacheState {
            listeners: self.listeners.push(
                ListenerView { channel: Some(channel), inbox: Seq::empty() },
            ),
            ..self
        }
    }

    /// The cache after the listener `listener` collected its events.
    pub open spec fn collected(self, listener: int) -> CacheState {
        if 0 <= listener < self.listeners.len() {
            CacheState {
                listeners: self.listeners.update(
                    listener,
                    ListenerView { inbox: Seq::empty(), ..self.listeners[listener] },
                ),
                ..self
            }
        } else {
            self
        }
    }

    /// The cache after the listener `listener` left: it listens no more and
    /// what it had not collected is gone.
    pub open spec fn unsubscribe(self, listener: int) -> CacheState {
        if 0 <= listener < self.listeners.len() {
            CacheState {
                listeners: self.listeners.update(
                    listener,
                    ListenerView { channel: None, inbox: Seq::empty() },
                ),
                ..self
            }
        } else {
            self
        }
    }

    /// The cache `secs` seconds later.
    pub open spec fn advance(self, secs: u64) -> CacheState {
        CacheState {
            clock: if self.clock + secs <= u64::MAX {
                (self.clock + secs) as u64
            } else {
                u64::MAX
            },
            ..self
        }
    }

    /// What the cache answers to `command`.
    pub open spec fn reply(self, command: CommandView) -> ReplyView {
        match command {
            CommandView::Put { .. } => ReplyView::Done,
            CommandView::Get { key, kind } => match self.live(key) {
                Some(value) => if value.kind() == kind {
                    ReplyView::Value(value)
                } else {
                    ReplyView::Failed(CacheError::Deserialization)
                },
                None => ReplyView::Failed(CacheError::NotFound),
            },
            CommandView::Delete { .. } => ReplyView::Done,
            CommandView::Exists { key } => ReplyView::Flag(self.live(key) is Some),
            CommandView::ZAdd { key, member, .. } => if self.takes(key, member) {
                ReplyView::Done
            } else {
                ReplyView::Failed(CacheError::StoreUnavailable)
            },
            CommandView::ZRevRangeWithScores { key, start, stop } => ReplyView::Ranked(
                window(self.ranking(key), start as int, stop as int),
            ),
            CommandView::ZRevRank { key, member } => ReplyView::Rank(
                match position(self.ranking(key), member) {
                    Some(i) => Some(i as isize),
                    None => None,
                },
            ),
            CommandView::ZScore { key, member } => ReplyView::Score(
                score_of(self.ranking(key), member),
            ),
            CommandView::ZCard { key } => ReplyView::Count(self.ranking(key).len() as i32),
            CommandView::Publish { .. } => ReplyView::Done,
        }
    }

    /// The cache after it carried out `command`.
    pub open spec fn after(self, command: CommandView) -> CacheState {
        match command {
            CommandView::Put { key, value, ttl_secs } => self.set(key, value, ttl_secs),
            CommandView::Delete { key } => self.delete(key),
            CommandView::ZAdd { key, score, member } => self.zadd(key, member, score),
            CommandView::Publish { channel, event } => self.publish(channel, event),
            _ => self,
        }
    }
}

} // verus!
