//! The ranking set of one competition as the cache in memory keeps it:
//! members ordered by score, highest first. Among equal scores the member
//! whose score was written earlier stands first; another store may order
//! equal scores otherwise.

use vstd::prelude::*;

verus! {

/// A member and its score, as characters and a number.
pub type Standing = (Seq<char>, i64);

/// The standings that a sequence of members and scores stands for.
pub open spec fn standings(members: Seq<(String, i64)>) -> Seq<Standing> {
    Seq::new(members.len(), |i: int| (members[i].0@, members[i].1))
}

/// Scores never increase along the sequence.
pub open spec fn descending(s: Seq<Standing>) -> bool {
    forall|i: int, j: int| 0 <= i < j < s.len() ==> s[i].1 >= s[j].1
}

/// No member stands twice in the sequence.
pub open spec fn distinct_members(s: Seq<Standing>) -> bool {
    forall|i: int, j: int| 0 <= i < j < s.len() ==> s[i].0 != s[j].0
}

/// What holds of every ranking: each member once, highest score first.
pub open spec fn is_ranking(s: Seq<Standing>) -> bool {
    descending(s) && distinct_members(s)
}

/// `member` stands in `s`.
pub open spec fn has_member(s: Seq<Standing>, member: Seq<char>) -> bool {
    exists|i: int| 0 <= i < s.len() && #[trigger] s[i].0 == member
}

/// The position of `member` in `s`, counted from 0, if it stands there.
pub open spec fn position(s: Seq<Standing>, member: Seq<char>) -> Option<int> {
    if has_member(s, member) {
        Some(choose|i: int| 0 <= i < s.len() && #[trigger] s[i].0 == member)
    } else {
        None
    }
}

/// The score of `member` in `s`, if it stands there.
pub open spec fn score_of(s: Seq<Standing>, member: Seq<char>) -> Option<i64> {
    match position(s, member) {
        Some(i) => Some(s[i].1),
        None => None,
    }
}

/// `s` with `member` taken out.
pub open spec fn without(s: Seq<Standing>, member: Seq<char>) -> Seq<Standing> {
    match position(s, member) {
        Some(i) => s.remove(i),
        None => s,
    }
}

/// `p` is where a new score belongs in `s`: behind every score that is at
/// least as high, before every lower one.
pub open spec fn is_slot(s: Seq<Standing>, score: i64, p: int) -> bool {
    &&& 0 <= p <= s.len()
    &&& forall|i: int| 0 <= i < p ==> (#[trigger] s[i]).1 >= score
    &&& forall|i: int| p <= i < s.len() ==> (#[trigger] s[i]).1 < score
}

/// The place of a new score in `s`: the number of members whose score is at
/// least as high.
pub open spec fn slot(s: Seq<Standing>, score: i64) -> int {
    choose|p: int| is_slot(s, score, p)
}

/// `s` after `member` was given `score`: its old standing is gone and the
/// new one stands behind all scores that are at least as high.
pub open spec fn upsert(s: Seq<Standing>, member: Seq<char>, score: i64) -> Seq<Standing> {
    let rest = without(s, member);
    rest.insert(slot(rest, score), (member, score))
}

/// The standings from position `start` to position `stop`, both counted from
/// 0 and both included. A negative position counts from the end (`-1` is the
/// last standing); positions past either end are cut off.
pub open spec fn window(s: Seq<Standing>, start: int, stop: int) -> Seq<Standing> {
    let first = if start < 0 {
        if s.len() + start < 0 {
            0
        } else {
            s.len() + start
        }
    } else {
        start
    };
    let last = if stop < 0 {
        s.len() + stop
    } else if stop >= s.len() {
        s.len() - 1
    } else {
        stop
    };
    if first > last || first >= s.len() {
        Seq::empty()
    } else {
        s.subrange(first, last + 1)
    }
}

/// A member stands at one position only.
pub proof fn lemma_position_unique(s: Seq<Standing>, member: Seq<char>, i: int)
    requires
        distinct_members(s),
        0 <= i < s.len(),
        s[i].0 == member,
    ensures
        position(s, member) == Some(i),
{
    let j = choose|j: int| 0 <= j < s.len() && #[trigger] s[j].0 == member;
    if j < i {
        assert(s[j].0 != s[i].0);
    } else if i < j {
        assert(s[i].0 != s[j].0);
    }
}

/// A new score has one place only.
pub proof fn lemma_slot_unique(s: Seq<Standing>, score: i64, p: int)
    requires
        is_slot(s, score, p),
    ensures
        slot(s, score) == p,
{
    let q = slot(s, score);
    if q < p {
        assert(s[q].1 >= score);
        assert(s[q].1 < score);
    } else if p < q {
        assert(s[p].1 >= score);
        assert(s[p].1 < score);
    }
}

/// Every ranking has a place for every score.
pub proof fn lemma_slot_exists(s: Seq<Standing>, score: i64)
    requires
        descending(s),
    ensures
        is_slot(s, score, slot(s, score)),
    decreases s.len(),
{
    if s.len() == 0 {
        assert(is_slot(s, score, 0));
    } else if s.last().1 >= score {
        assert(is_slot(s, score, s.len() as int));
    } else {
        let front = s.drop_last();
        lemma_slot_exists(front, score);
        let p = slot(front, score);
        assert forall|i: int| 0 <= i < p implies (#[trigger] s[i]).1 >= score by {
            assert(front[i] == s[i]);
        }
        assert forall|i: int| p <= i < s.len() implies (#[trigger] s[i]).1 < score by {
            if i < front.len() {
                assert(front[i] == s[i]);
            }
        }
        assert(is_slot(s, score, p));
    }
}

/// Taking a member out of a ranking leaves a ranking in which it does not
/// stand.
pub proof fn lemma_without(s: Seq<Standing>, member: Seq<char>)
    requires
        is_ranking(s),
    ensures
        is_ranking(without(s, member)),
        !has_member(without(s, member), member),
        without(s, member).len() == if has_member(s, member) {
            s.len() - 1
        } else {
            s.len() as int
        },
{
    let r = without(s, member);
    match position(s, member) {
        Some(i) => {
            assert forall|a: int, b: int| 0 <= a < b < r.len() implies r[a].1 >= r[b].1 && r[a].0
                != r[b].0 by {
                let a0 = if a < i { a } else { a + 1 };
                let b0 = if b < i { b } else { b + 1 };
                assert(r[a] == s[a0]);
                assert(r[b] == s[b0]);
            }
            if has_member(r, member) {
                let k = choose|k: int| 0 <= k < r.len() && #[trigger] r[k].0 == member;
                let k0 = if k < i { k } else { k + 1 };
                assert(r[k] == s[k0]);
                if k0 < i {
                    assert(s[k0].0 != s[i].0);
                } else {
                    assert(s[i].0 != s[k0].0);
                }
            }
        },
        None => {},
    }
}

/// Giving a member a score leaves a ranking in which it stands, with that
/// score, at its slot.
pub proof fn lemma_upsert(s: Seq<Standing>, member: Seq<char>, score: i64)
    requires
        is_ranking(s),
    ensures
        is_ranking(upsert(s, member, score)),
        position(upsert(s, member, score), member) == Some(slot(without(s, member), score)),
        score_of(upsert(s, member, score), member) == Some(score),
        upsert(s, member, score).len() == if has_member(s, member) {
            s.len()
        } else {
            s.len() + 1
        },
{
    lemma_without(s, member);
    let rest = without(s, member);
    lemma_slot_exists(rest, score);
    let p = slot(rest, score);
    let u = upsert(s, member, score);
    assert forall|a: int, b: int| 0 <= a < b < u.len() implies u[a].1 >= u[b].1 && u[a].0
        != u[b].0 by {
        if a == p {
            assert(u[b] == rest[b - 1]);
        } else if b == p {
            assert(u[a] == rest[a]);
        } else {
            let a0 = if a < p { a } else { a - 1 };
            let b0 = if b < p { b } else { b - 1 };
            assert(u[a] == rest[a0]);
            assert(u[b] == rest[b0]);
        }
    }
    assert(u[p].0 == member);
    lemma_position_unique(u, member, p);
}

/// The largest number of members a ranking set holds.
pub const MAX_MEMBERS: usize = 2147483647;

/// A ranking set held in memory.
pub struct RankingSet {
    members: Vec<(String, i64)>,
}

impl View for RankingSet {
    type V = Seq<Standing>;

    closed spec fn view(&self) -> Seq<Standing> {
        standings(self.members@)
    }
}

impl RankingSet {
    #[verifier::type_invariant]
    spec fn well_formed(&self) -> bool {
        is_ranking(standings(self.members@)) && self.members@.len() <= MAX_MEMBERS
    }

    /// A ranking set without members.
    pub fn new() -> (set: RankingSet)
        ensures
            set@ == Seq::<Standing>::empty(),
            is_ranking(set@),
    {
        let set = RankingSet { members: Vec::new() };
        assert(set@ =~= Seq::<Standing>::empty());
        set
    }

    /// The number of members.
    pub fn card(&self) -> (count: usize)
        ensures
            count == self@.len(),
            count <= MAX_MEMBERS,
            is_ranking(self@),
    {
        proof {
            use_type_invariant(self);
        }
        self.members.len()
    }

    fn find(&self, member: &String) -> (found: Option<usize>)
        ensures
            match found {
                Some(i) => i < self@.len() && position(self@, member@) == Some(i as int),
                None => position(self@, member@) is None,
            },
    {
        proof {
            use_type_invariant(self);
        }
        let mut i: usize = 0;
        while i < self.members.len()
            invariant
                i <= self.members@.len(),
                forall|k: int| 0 <= k < i ==> (#[trigger] self@[k]).0 != member@,
                distinct_members(self@),
            decreases self.members@.len() - i,
        {
            if self.members[i].0 == *member {
                proof {
                    lemma_position_unique(self@, member@, i as int);
                }
                return Some(i);
            }
            i += 1;
        }
        None
    }

    /// The position of `member`, counted from 0 at the highest score.
    pub fn rank(&self, member: &String) -> (rank: Option<usize>)
        ensures
            match rank {
                Some(i) => position(self@, member@) == Some(i as int),
                None => position(self@, member@) is None,
            },
    {
        self.find(member)
    }

    /// The score of `member`.
    pub fn score(&self, member: &String) -> (score: Option<i64>)
        ensures
            score == score_of(self@, member@),
    {
        match self.find(member) {
            Some(i) => Some(self.members[i].1),
            None => None,
        }
    }

    /// Gives `member` the score `score`, whatever it had before. A set that
    /// is full takes no new member and says so by returning `false`.
    pub fn add(&mut self, member: String, score: i64) -> (accepted: bool)
        ensures
            accepted <==> has_member(old(self)@, member@) || old(self)@.len() < MAX_MEMBERS,
            accepted ==> final(self)@ == upsert(old(self)@, member@, score),
            !accepted ==> final(self)@ == old(self)@,
            is_ranking(old(self)@),
            is_ranking(final(self)@),
            final(self)@.len() <= MAX_MEMBERS,
    {
        proof {
            use_type_invariant(&*self);
            lemma_without(self@, member@);
        }
        let found = self.find(&member);
        if found.is_none() && self.members.len() >= MAX_MEMBERS {
            return false;
        }
        let mut members: Vec<(String, i64)> = Vec::new();
        core::mem::swap(&mut self.members, &mut members);
        match found {
            Some(i) => {
                members.remove(i);
            },
            None => {},
        }
        let ghost rest = standings(members@);
        assert(rest =~= without(old(self)@, member@));
        let mut p: usize = 0;
        while p < members.len() && members[p].1 >= score
            invariant
                p <= members@.len(),
                rest == standings(members@),
                forall|k: int| 0 <= k < p ==> (#[trigger] rest[k]).1 >= score,
            decreases members@.len() - p,
        {
            p += 1;
        }
        proof {
            assert forall|k: int| p <= k < rest.len() implies (#[trigger] rest[k]).1 < score by {
                if k > p {
                    assert(rest[p as int].1 >= rest[k].1);
                }
            }
            lemma_slot_unique(rest, score, p as int);
            lemma_upsert(old(self)@, member@, score);
        }
        let ghost name = member@;
        members.insert(p, (member, score));
        assert(standings(members@) =~= rest.insert(p as int, (name, score)));
        self.members = members;
        true
    }

    /// The standings from position `start` to position `stop`, as
    /// [`window`] counts them.
    pub fn range(&self, start: isize, stop: isize) -> (found: Vec<(String, i64)>)
        ensures
            standings(found@) == window(self@, start as int, stop as int),
            is_ranking(self@),
    {
        proof {
            use_type_invariant(self);
        }
        let len: isize = self.members.len() as isize;
        let first: isize = if start < 0 {
            if len + start < 0 {
                0
            } else {
                len + start
            }
        } else {
            start
        };
        let last: isize = if stop < 0 {
            len + stop
        } else if stop >= len {
            len - 1
        } else {
            stop
        };
        let mut found: Vec<(String, i64)> = Vec::new();
        if first > last || first >= len {
            assert(standings(found@) =~= window(self@, start as int, stop as int));
            return found;
        }
        let from: usize = first as usize;
        let until: usize = (last + 1) as usize;
        let mut i: usize = from;
        while i < until
            invariant
                from <= i <= until <= self.members@.len(),
                found@.len() == i - from,
                forall|k: int|
                    0 <= k < found@.len() ==> (#[trigger] found@[k]).0@ == self.members@[from + k].0@
                        && found@[k].1 == self.members@[from + k].1,
            decreases until - i,
        {
            found.push((self.members[i].0.clone(), self.members[i].1));
            i += 1;
        }
        assert(standings(found@) =~= window(self@, start as int, stop as int));
        found
    }
}

} // verus!
