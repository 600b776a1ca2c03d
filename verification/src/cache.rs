//! A cache held in memory. It answers every command of the port as
//! [`CacheState`] says, so the service can be run, and its behaviour proved,
//! without a remote store.

use vstd::prelude::*;
use crate::models::{LeaderboardEvent, LeaderboardEventView};
use crate::port::{
    all_rankings, CacheError, CacheState, CacheValue, Command, ListenerView, Reply, StoredView,
    ValueKind,
};
use crate::ranking::{position, score_of, standings, upsert, window, RankingSet, Standing};
use crate::table::Table;

verus! {

/// A value and the second at which it expires.
pub struct Stored {
    pub value: CacheValue,
    pub expires_at: Option<u64>,
}

impl View for Stored {
    type V = StoredView;

    open spec fn view(&self) -> StoredView {
        StoredView { value: self.value@, expires_at: self.expires_at }
    }
}

/// Someone who listens on a channel, with the events that have reached it.
pub struct Listener {
    pub channel: Option<String>,
    pub inbox: Vec<LeaderboardEvent>,
}

/// The views of a sequence of events, in order.
pub open spec fn event_views(events: Seq<LeaderboardEvent>) -> Seq<LeaderboardEventView> {
    Seq::new(events.len(), |i: int| events[i]@)
}

impl View for Listener {
    type V = ListenerView;

    open spec fn view(&self) -> ListenerView {
        ListenerView {
            channel: match self.channel {
                Some(channel) => Some(channel@),
                None => None,
            },
            inbox: event_views(self.inbox@),
        }
    }
}

/// The views of a sequence of listeners, in order.
pub open spec fn listener_views(listeners: Seq<Listener>) -> Seq<ListenerView> {
    Seq::new(listeners.len(), |i: int| listeners[i]@)
}

/// The stored values as the port sees them.
pub open spec fn stored_views(values: Map<Seq<char>, Stored>) -> Map<Seq<char>, StoredView> {
    values.map_values(|stored: Stored| stored@)
}

/// The ranking sets as the port sees them.
pub open spec fn ranking_views(rankings: Map<Seq<char>, RankingSet>) -> Map<
    Seq<char>,
    Seq<Standing>,
> {
    rankings.map_values(|set: RankingSet| set@)
}

/// The cache of the service, held in memory.
pub struct CacheService {
    clock: u64,
    values: Table<Stored>,
    rankings: Table<RankingSet>,
    listeners: Vec<Listener>,
}

impl View for CacheService {
    type V = CacheState;

    closed spec fn view(&self) -> CacheState {
        CacheState {
            clock: self.clock,
            values: stored_views(self.values@),
            rankings: ranking_views(self.rankings@),
            listeners: listener_views(self.listeners@),
        }
    }
}

impl CacheService {
    #[verifier::type_invariant]
    spec fn well_formed(&self) -> bool {
        all_rankings(ranking_views(self.rankings@))
    }

    /// A cache that holds nothing, with its clock at 0.
    pub fn new() -> (cache: CacheService)
        ensures
            cache@ == CacheState::empty(),
            cache@.wf(),
    {
        let cache = CacheService {
            clock: 0,
            values: Table::new(),
            rankings: Table::new(),
            listeners: Vec::new(),
        };
        assert(cache@.values =~= Map::<Seq<char>, StoredView>::empty());
        assert(cache@.rankings =~= Map::<Seq<char>, Seq<Standing>>::empty());
        assert(cache@.listeners =~= Seq::<ListenerView>::empty());
        cache
    }

    /// Lets `secs` seconds pass on the cache's clock.
    pub fn advance(&mut self, secs: u64)
        ensures
            final(self)@ == old(self)@.advance(secs),
            final(self)@.wf(),
    {
        proof {
            use_type_invariant(&*self);
        }
        let clock: u64 = if secs > u64::MAX - self.clock {
            u64::MAX
        } else {
            self.clock + secs
        };
        self.clock = clock;
    }

    /// Stores `value` under `key` for `ttl_secs` seconds from now.
    pub fn set(&mut self, key: &str, value: CacheValue, ttl_secs: u64) -> (done: Result<
        (),
        CacheError,
    >)
        ensures
            done is Ok,
            final(self)@ == old(self)@.set(key@, value@, ttl_secs),
            final(self)@.wf(),
    {
        proof {
            use_type_invariant(&*self);
        }
        let expires_at = self.clock.checked_add(ttl_secs);
        let mut values: Table<Stored> = Table::new();
        core::mem::swap(&mut self.values, &mut values);
        let ghost before = values@;
        let stored = Stored { value, expires_at };
        values.put(key.to_owned(), stored);
        assert(stored_views(values@) =~= stored_views(before).insert(key@, stored@));
        self.values = values;
        Ok(())
    }

    /// Reads the value under `key`, which is expected to have the shape
    /// `kind`.
    pub fn get(&self, key: &str, kind: ValueKind) -> (found: Result<CacheValue, CacheError>)
        ensures
            match found {
                Ok(value) => self@.live(key@) == Some(value@) && value@.kind() == kind,
                Err(error) => error == match self@.live(key@) {
                    Some(_) => CacheError::Deserialization,
                    None => CacheError::NotFound,
                } && (self@.live(key@) matches Some(value) ==> value.kind() != kind),
            },
            self@.wf(),
    {
        proof {
            use_type_invariant(self);
        }
        let name = key.to_owned();
        match self.values.get(&name) {
            Some(stored) => {
                let live = match stored.expires_at {
                    Some(end) => self.clock < end,
                    None => true,
                };
                if !live {
                    Err(CacheError::NotFound)
                } else if stored.value.kind() == kind {
                    Ok(stored.value.clone())
                } else {
                    Err(CacheError::Deserialization)
                }
            },
            None => Err(CacheError::NotFound),
        }
    }

    /// Removes what is stored under `key`.
    pub fn delete(&mut self, key: &str) -> (done: Result<(), CacheError>)
        ensures
            done is Ok,
            final(self)@ == old(self)@.delete(key@),
            final(self)@.wf(),
    {
        proof {
            use_type_invariant(&*self);
        }
        let mut values: Table<Stored> = Table::new();
        core::mem::swap(&mut self.values, &mut values);
        let ghost before = values@;
        let _ = values.take(&key.to_owned());
        assert(stored_views(values@) =~= stored_views(before).remove(key@));
        self.values = values;
        Ok(())
    }

    /// Whether a value is stored under `key` and has not expired.
    pub fn exists_key(&self, key: &str) -> (found: Result<bool, CacheError>)
        ensures
            found == Ok::<bool, CacheError>(self@.live(key@) is Some),
            self@.wf(),
    {
        proof {
            use_type_invariant(self);
        }
        let name = key.to_owned();
        match self.values.get(&name) {
            Some(stored) => {
                let live = match stored.expires_at {
                    Some(end) => self.clock < end,
                    None => true,
                };
                Ok(live)
            },
            None => Ok(false),
        }
    }

    /// Gives `member` the score `score` in the ranking set `key`, whatever
    /// score it had. A set that is full takes no new member.
    pub fn zadd(&mut self, key: &str, score: i64, member: &str) -> (done: Result<(), CacheError>)
        ensures
            old(self)@.takes(key@, member@) ==> done is Ok,
            !old(self)@.takes(key@, member@) ==> done == Err::<(), CacheError>(
                CacheError::StoreUnavailable,
            ),
            final(self)@ == old(self)@.zadd(key@, member@, score),
            final(self)@.wf(),
    {
        proof {
            use_type_invariant(&*self);
        }
        let name = key.to_owned();
        let mut rankings: Table<RankingSet> = Table::new();
        core::mem::swap(&mut self.rankings, &mut rankings);
        let ghost before = rankings@;
        let mut set = match rankings.take(&name) {
            Some(set) => set,
            None => RankingSet::new(),
        };
        assert(set@ == old(self)@.ranking(key@));
        let accepted = set.add(member.to_owned(), score);
        rankings.put(name, set);
        proof {
            if accepted {
                assert(ranking_views(rankings@) =~= ranking_views(before).insert(
                    key@,
                    upsert(old(self)@.ranking(key@), member@, score),
                ));
            } else {
                assert(before.contains_key(key@));
                assert(ranking_views(rankings@) =~= ranking_views(before));
            }
        }
        self.rankings = rankings;
        if accepted {
            Ok(())
        } else {
            Err(CacheError::StoreUnavailable)
        }
    }

    /// The standings of the ranking set `key` from position `start` to
    /// position `stop`, highest score first.
    pub fn zrevrange_withscores(&self, key: &str, start: isize, stop: isize) -> (found: Result<
        Vec<(String, i64)>,
        CacheError,
    >)
        ensures
            found matches Ok(list) && standings(list@) == window(
                self@.ranking(key@),
                start as int,
                stop as int,
            ),
            self@.wf(),
    {
        proof {
            use_type_invariant(self);
        }
        let name = key.to_owned();
        match self.rankings.get(&name) {
            Some(set) => Ok(set.range(start, stop)),
            None => {
                let list: Vec<(String, i64)> = Vec::new();
                assert(standings(list@) =~= window(
                    self@.ranking(key@),
                    start as int,
                    stop as int,
                ));
                Ok(list)
            },
        }
    }

    /// The position of `member` in the ranking set `key`, counted from 0 at
    /// the highest score.
    pub fn zrevrank(&self, key: &str, member: &str) -> (found: Result<Option<isize>, CacheError>)
        ensures
            found matches Ok(rank) && match rank {
                Some(i) => position(self@.ranking(key@), member@) == Some(i as int),
                None => position(self@.ranking(key@), member@) is None,
            },
            self@.wf(),
    {
        proof {
            use_type_invariant(self);
        }
        let name = key.to_owned();
        match self.rankings.get(&name) {
            Some(set) => match set.rank(&member.to_owned()) {
                Some(i) => {
                    let _ = set.card();
                    Ok(Some(i as isize))
                },
                None => Ok(None),
            },
            None => Ok(None),
        }
    }

    /// The score of `member` in the ranking set `key`.
    pub fn zscore(&self, key: &str, member: &str) -> (found: Result<Option<i64>, CacheError>)
        ensures
            found == Ok::<Option<i64>, CacheError>(score_of(self@.ranking(key@), member@)),
            self@.wf(),
    {
        proof {
            use_type_invariant(self);
        }
        let name = key.to_owned();
        match self.rankings.get(&name) {
            Some(set) => Ok(set.score(&member.to_owned())),
            None => Ok(None),
        }
    }

    /// The number of members of the ranking set `key`.
    pub fn zcard(&self, key: &str) -> (count: Result<i32, CacheError>)
        ensures
            count matches Ok(n) && n == self@.ranking(key@).len(),
            self@.wf(),
    {
        proof {
            use_type_invariant(self);
        }
        let name = key.to_owned();
        match self.rankings.get(&name) {
            Some(set) => Ok(set.card() as i32),
            None => Ok(0),
        }
    }

    /// Publishes `event` on `channel`: a copy of it reaches each of those
    /// who listen on the channel at this moment. Nothing is kept for those
    /// who come to listen later.
    pub fn publish(&mut self, channel: &str, event: LeaderboardEvent) -> (done: Result<
        (),
        CacheError,
    >)
        ensures
            done is Ok,
            final(self)@ == old(self)@.publish(channel@, event@),
            final(self)@.wf(),
    {
        proof {
            use_type_invariant(&*self);
        }
        let name = channel.to_owned();
        let mut listeners: Vec<Listener> = Vec::new();
        core::mem::swap(&mut self.listeners, &mut listeners);
        let ghost before = listener_views(listeners@);
        let mut i: usize = 0;
        while i < listeners.len()
            invariant
                i <= listeners@.len(),
                listeners@.len() == before.len(),
                name@ == channel@,
                forall|k: int|
                    0 <= k < i ==> (#[trigger] listeners@[k])@ == before[k].hearing(
                        channel@,
                        event@,
                    ),
                forall|k: int| i <= k < listeners@.len() ==> (#[trigger] listeners@[k])@ == before[k],
            decreases listeners@.len() - i,
        {
            let hears = match &listeners[i].channel {
                Some(own) => *own == name,
                None => false,
            };
            if hears {
                let ghost inbox = listeners@[i as int].inbox@;
                let copy = event.clone();
                listeners[i].inbox.push(copy);
                assert(event_views(listeners@[i as int].inbox@) =~= event_views(inbox).push(
                    event@,
                ));
            }
            i += 1;
        }
        assert(listener_views(listeners@) =~= old(self)@.publish(channel@, event@).listeners);
        self.listeners = listeners;
        Ok(())
    }

    /// Comes to listen on `channel`. The number that is returned names the
    /// listener from now on.
    pub fn subscribe(&mut self, channel: &str) -> (listener: usize)
        ensures
            listener == old(self)@.listeners.len(),
            final(self)@ == old(self)@.subscribe(channel@),
            final(self)@.wf(),
    {
        proof {
            use_type_invariant(&*self);
        }
        let mut listeners: Vec<Listener> = Vec::new();
        core::mem::swap(&mut self.listeners, &mut listeners);
        let ghost before = listener_views(listeners@);
        let listener = listeners.len();
        let entry = Listener { channel: Some(channel.to_owned()), inbox: Vec::new() };
        assert(entry@.inbox =~= Seq::<LeaderboardEventView>::empty());
        listeners.push(entry);
        assert(listener_views(listeners@) =~= before.push(entry@));
        self.listeners = listeners;
        listener
    }

    /// Collects the events that have reached `listener` since it last
    /// collected, oldest first. Nobody is known under a number that
    /// `subscribe` has not returned: for such a number nothing is collected.
    pub fn receive(&mut self, listener: usize) -> (events: Vec<LeaderboardEvent>)
        ensures
            event_views(events@) == if listener < old(self)@.listeners.len() {
                old(self)@.listeners[listener as int].inbox
            } else {
                Seq::empty()
            },
            final(self)@ == old(self)@.collected(listener as int),
            final(self)@.wf(),
    {
        proof {
            use_type_invariant(&*self);
        }
        let mut events: Vec<LeaderboardEvent> = Vec::new();
        if listener >= self.listeners.len() {
            assert(event_views(events@) =~= Seq::<LeaderboardEventView>::empty());
            return events;
        }
        let mut listeners: Vec<Listener> = Vec::new();
        core::mem::swap(&mut self.listeners, &mut listeners);
        let ghost before = listener_views(listeners@);
        core::mem::swap(&mut listeners[listener].inbox, &mut events);
        assert(event_views(listeners@[listener as int].inbox@) =~= Seq::<
            LeaderboardEventView,
        >::empty());
        assert(listener_views(listeners@) =~= old(self)@.collected(listener as int).listeners);
        self.listeners = listeners;
        events
    }

    /// Lets `listener` leave: nothing reaches it any more, and what it had
    /// not collected is dropped.
    pub fn unsubscribe(&mut self, listener: usize)
        ensures
            final(self)@ == old(self)@.unsubscribe(listener as int),
            final(self)@.wf(),
    {
        proof {
            use_type_invariant(&*self);
        }
        if listener >= self.listeners.len() {
            return ;
        }
        let mut listeners: Vec<Listener> = Vec::new();
        core::mem::swap(&mut self.listeners, &mut listeners);
        let gone = Listener { channel: None, inbox: Vec::new() };
        assert(gone@.inbox =~= Seq::<LeaderboardEventView>::empty());
        listeners.set(listener, gone);
        assert(listener_views(listeners@) =~= old(self)@.unsubscribe(listener as int).listeners);
        self.listeners = listeners;
    }

    /// Answers a command that changes nothing in the cache; a command that
    /// would change something gets no answer.
    pub fn answer(&self, command: &Command) -> (reply: Option<Reply>)
        ensures
            match reply {
                Some(answer) => command@.is_read() && answer@ == self@.reply(command@),
                None => !command@.is_read(),
            },
            self@.wf(),
    {
        proof {
            use_type_invariant(self);
        }
        match command {
            Command::Get { key, kind } => match self.get(key.as_str(), *kind) {
                Ok(value) => Some(Reply::Value(value)),
                Err(error) => Some(Reply::Failed(error)),
            },
            Command::Exists { key } => match self.exists_key(key.as_str()) {
                Ok(flag) => Some(Reply::Flag(flag)),
                Err(error) => Some(Reply::Failed(error)),
            },
            Command::ZRevRangeWithScores { key, start, stop } => match self.zrevrange_withscores(
                key.as_str(),
                *start,
                *stop,
            ) {
                Ok(list) => Some(Reply::Ranked(list)),
                Err(error) => Some(Reply::Failed(error)),
            },
            Command::ZRevRank { key, member } => match self.zrevrank(
                key.as_str(),
                member.as_str(),
            ) {
                Ok(rank) => Some(Reply::Rank(rank)),
                Err(error) => Some(Reply::Failed(error)),
            },
            Command::ZScore { key, member } => match self.zscore(key.as_str(), member.as_str()) {
                Ok(score) => Some(Reply::Score(score)),
                Err(error) => Some(Reply::Failed(error)),
            },
            Command::ZCard { key } => match self.zcard(key.as_str()) {
                Ok(count) => Some(Reply::Count(count)),
                Err(error) => Some(Reply::Failed(error)),
            },
            _ => None,
        }
    }

    /// Carries out one command and gives the reply to it.
    pub fn execute(&mut self, command: Command) -> (reply: Reply)
        ensures
            reply@ == old(self)@.reply(command@),
            final(self)@ == old(self)@.after(command@),
            old(self)@.wf(),
            final(self)@.wf(),
    {
        proof {
            use_type_invariant(&*self);
        }
        match command {
            Command::Put { key, value, ttl_secs } => {
                let _ = self.set(key.as_str(), value, ttl_secs);
                Reply::Done
            },
            Command::Delete { key } => {
                let _ = self.delete(key.as_str());
                Reply::Done
            },
            Command::ZAdd { key, score, member } => match self.zadd(
                key.as_str(),
                score,
                member.as_str(),
            ) {
                Ok(_) => Reply::Done,
                Err(error) => Reply::Failed(error),
            },
            Command::Publish { channel, event } => {
                let _ = self.publish(channel.as_str(), event);
                Reply::Done
            },
            read => match self.answer(&read) {
                Some(reply) => reply,
                None => Reply::Failed(CacheError::StoreUnavailable),
            },
        }
    }
}

} // verus!
