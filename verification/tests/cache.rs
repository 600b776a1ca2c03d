use leaderboard_core::cache::CacheService;
use leaderboard_core::fitness::new_totals;
use leaderboard_core::models::LeaderboardEvent;
use leaderboard_core::port::{CacheError, CacheValue, Command, Reply, ValueKind};
use leaderboard_core::ranking::RankingSet;
use leaderboard_core::table::Table;
use leaderboard_core::time::Timestamp;

fn at(secs: i64) -> Timestamp {
    Timestamp { secs, nanos: 0 }
}

fn totals(steps: i64) -> CacheValue {
    let mut data = new_totals("u", "c", "s", at(0));
    data.steps = steps;
    CacheValue::Fitness(data)
}

fn pairs(list: &[(&str, i64)]) -> Vec<(String, i64)> {
    list.iter().map(|(m, s)| (m.to_string(), *s)).collect()
}

#[test]
fn get_of_a_missing_key_is_not_found() {
    let cache = CacheService::new();
    assert_eq!(cache.get("k", ValueKind::Fitness), Err(CacheError::NotFound));
    assert_eq!(cache.exists_key("k"), Ok(false));
}

#[test]
fn set_then_get_returns_the_value() {
    let mut cache = CacheService::new();
    assert_eq!(cache.set("k", totals(1), 10), Ok(()));
    assert_eq!(cache.get("k", ValueKind::Fitness), Ok(totals(1)));
    assert_eq!(cache.exists_key("k"), Ok(true));
    assert_eq!(cache.get("other", ValueKind::Fitness), Err(CacheError::NotFound));
}

#[test]
fn set_replaces_the_value_and_its_expiry() {
    let mut cache = CacheService::new();
    cache.set("k", totals(1), 10).unwrap();
    cache.advance(9);
    cache.set("k", totals(2), 10).unwrap();
    cache.advance(9);
    assert_eq!(cache.get("k", ValueKind::Fitness), Ok(totals(2)));
    cache.advance(1);
    assert_eq!(cache.get("k", ValueKind::Fitness), Err(CacheError::NotFound));
    assert_eq!(cache.exists_key("k"), Ok(false));
}

#[test]
fn get_of_another_shape_is_a_deserialization_error() {
    let mut cache = CacheService::new();
    cache.set("k", totals(1), 10).unwrap();
    assert_eq!(cache.get("k", ValueKind::Entry), Err(CacheError::Deserialization));
    assert_eq!(cache.get("k", ValueKind::Prizes), Err(CacheError::Deserialization));
    assert_eq!(totals(1).kind(), ValueKind::Fitness);
    assert_eq!(CacheValue::Prizes(Vec::new()).kind(), ValueKind::Prizes);
}

#[test]
fn a_value_stored_for_no_time_is_gone_at_once() {
    let mut cache = CacheService::new();
    cache.set("k", totals(1), 0).unwrap();
    assert_eq!(cache.get("k", ValueKind::Fitness), Err(CacheError::NotFound));
}

#[test]
fn an_expiry_past_the_clock_never_comes() {
    let mut cache = CacheService::new();
    cache.advance(5);
    cache.set("k", totals(1), u64::MAX).unwrap();
    cache.advance(u64::MAX);
    assert_eq!(cache.get("k", ValueKind::Fitness), Ok(totals(1)));
}

#[test]
fn delete_removes_the_value() {
    let mut cache = CacheService::new();
    cache.set("a", totals(1), 10).unwrap();
    cache.set("b", totals(2), 10).unwrap();
    assert_eq!(cache.delete("a"), Ok(()));
    assert_eq!(cache.delete("missing"), Ok(()));
    assert_eq!(cache.get("a", ValueKind::Fitness), Err(CacheError::NotFound));
    assert_eq!(cache.get("b", ValueKind::Fitness), Ok(totals(2)));
}

#[test]
fn zadd_orders_by_score_and_replaces() {
    let mut cache = CacheService::new();
    cache.zadd("z", 10, "a").unwrap();
    cache.zadd("z", 30, "b").unwrap();
    cache.zadd("z", 20, "c").unwrap();
    assert_eq!(
        cache.zrevrange_withscores("z", 0, -1),
        Ok(pairs(&[("b", 30), ("c", 20), ("a", 10)]))
    );
    cache.zadd("z", 40, "a").unwrap();
    assert_eq!(
        cache.zrevrange_withscores("z", 0, -1),
        Ok(pairs(&[("a", 40), ("b", 30), ("c", 20)]))
    );
    assert_eq!(cache.zcard("z"), Ok(3));
    assert_eq!(cache.zscore("z", "a"), Ok(Some(40)));
    assert_eq!(cache.zscore("z", "nobody"), Ok(None));
    assert_eq!(cache.zrevrank("z", "a"), Ok(Some(0)));
    assert_eq!(cache.zrevrank("z", "c"), Ok(Some(2)));
    assert_eq!(cache.zrevrank("z", "nobody"), Ok(None));
}

#[test]
fn a_missing_ranking_set_is_empty() {
    let cache = CacheService::new();
    assert_eq!(cache.zcard("z"), Ok(0));
    assert_eq!(cache.zrevrange_withscores("z", 0, 10), Ok(Vec::new()));
    assert_eq!(cache.zrevrank("z", "a"), Ok(None));
    assert_eq!(cache.zscore("z", "a"), Ok(None));
}

#[test]
fn range_counts_from_both_ends() {
    let mut set = RankingSet::new();
    for (member, score) in [("a", 50), ("b", 40), ("c", 30), ("d", 20), ("e", 10)] {
        assert!(set.add(member.to_string(), score));
    }
    assert_eq!(set.card(), 5);
    assert_eq!(set.range(0, 2), pairs(&[("a", 50), ("b", 40), ("c", 30)]));
    assert_eq!(set.range(1, 1), pairs(&[("b", 40)]));
    assert_eq!(set.range(3, 100), pairs(&[("d", 20), ("e", 10)]));
    assert_eq!(set.range(-2, -1), pairs(&[("d", 20), ("e", 10)]));
    assert_eq!(set.range(-100, 0), pairs(&[("a", 50)]));
    assert_eq!(set.range(0, -5), pairs(&[("a", 50)]));
    assert_eq!(set.range(0, -6), Vec::new());
    assert_eq!(set.range(2, 1), Vec::new());
    assert_eq!(set.range(5, 9), Vec::new());
    assert_eq!(set.range(isize::MIN, isize::MAX).len(), 5);
    assert_eq!(set.rank(&"d".to_string()), Some(3));
    assert_eq!(set.score(&"d".to_string()), Some(20));
    assert_eq!(set.rank(&"z".to_string()), None);
}

#[test]
fn negative_scores_rank_below_zero() {
    let mut set = RankingSet::new();
    set.add("minus".to_string(), -5);
    set.add("zero".to_string(), 0);
    set.add("lowest".to_string(), i64::MIN);
    set.add("highest".to_string(), i64::MAX);
    assert_eq!(
        set.range(0, -1),
        pairs(&[("highest", i64::MAX), ("zero", 0), ("minus", -5), ("lowest", i64::MIN)])
    );
}

fn event(score: i64) -> LeaderboardEvent {
    LeaderboardEvent {
        event_type: "score_update".to_string(),
        competition_id: "c".to_string(),
        user_id: "u".to_string(),
        score,
        timestamp: at(score),
    }
}

#[test]
fn publish_reaches_every_listener_of_the_channel() {
    let mut cache = CacheService::new();
    let first = cache.subscribe("leaderboard:c");
    let second = cache.subscribe("leaderboard:c");
    let other = cache.subscribe("leaderboard:d");
    assert_eq!((first, second, other), (0, 1, 2));
    assert_eq!(cache.publish("leaderboard:c", event(1)), Ok(()));
    assert_eq!(cache.publish("leaderboard:d", event(2)), Ok(()));
    assert_eq!(cache.publish("leaderboard:c", event(3)), Ok(()));
    assert_eq!(cache.receive(first), vec![event(1), event(3)]);
    assert_eq!(cache.receive(second), vec![event(1), event(3)]);
    assert_eq!(cache.receive(other), vec![event(2)]);
}

#[test]
fn events_are_delivered_once() {
    let mut cache = CacheService::new();
    let listener = cache.subscribe("ch");
    cache.publish("ch", event(1)).unwrap();
    assert_eq!(cache.receive(listener), vec![event(1)]);
    assert_eq!(cache.receive(listener), Vec::new());
    cache.publish("ch", event(2)).unwrap();
    assert_eq!(cache.receive(listener), vec![event(2)]);
}

#[test]
fn nothing_is_kept_for_those_who_listen_later() {
    let mut cache = CacheService::new();
    cache.publish("ch", event(1)).unwrap();
    let late = cache.subscribe("ch");
    assert_eq!(cache.receive(late), Vec::new());
    cache.publish("ch", event(2)).unwrap();
    assert_eq!(cache.receive(late), vec![event(2)]);
}

#[test]
fn a_listener_that_left_hears_nothing() {
    let mut cache = CacheService::new();
    let leaving = cache.subscribe("ch");
    let staying = cache.subscribe("ch");
    cache.publish("ch", event(1)).unwrap();
    cache.unsubscribe(leaving);
    cache.publish("ch", event(2)).unwrap();
    assert_eq!(cache.receive(leaving), Vec::new());
    assert_eq!(cache.receive(staying), vec![event(1), event(2)]);
    cache.unsubscribe(17);
    assert_eq!(cache.receive(17), Vec::new());
    assert_eq!(cache.subscribe("ch"), 2);
}

#[test]
fn execute_answers_each_command() {
    let mut cache = CacheService::new();
    let key = || "k".to_string();
    assert_eq!(
        cache.execute(Command::Put { key: key(), value: totals(3), ttl_secs: 5 }),
        Reply::Done
    );
    assert_eq!(
        cache.execute(Command::Get { key: key(), kind: ValueKind::Fitness }),
        Reply::Value(totals(3))
    );
    assert_eq!(
        cache.execute(Command::Get { key: key(), kind: ValueKind::Entry }),
        Reply::Failed(CacheError::Deserialization)
    );
    assert_eq!(cache.execute(Command::Exists { key: key() }), Reply::Flag(true));
    assert_eq!(cache.execute(Command::Delete { key: key() }), Reply::Done);
    assert_eq!(cache.execute(Command::Exists { key: key() }), Reply::Flag(false));
    assert_eq!(
        cache.execute(Command::Get { key: key(), kind: ValueKind::Fitness }),
        Reply::Failed(CacheError::NotFound)
    );
    assert_eq!(
        cache.execute(Command::ZAdd { key: key(), score: 7, member: "m".to_string() }),
        Reply::Done
    );
    assert_eq!(
        cache.execute(Command::ZAdd { key: key(), score: 9, member: "n".to_string() }),
        Reply::Done
    );
    assert_eq!(
        cache.execute(Command::ZRevRangeWithScores { key: key(), start: 0, stop: 0 }),
        Reply::Ranked(pairs(&[("n", 9)]))
    );
    assert_eq!(
        cache.execute(Command::ZRevRank { key: key(), member: "m".to_string() }),
        Reply::Rank(Some(1))
    );
    assert_eq!(
        cache.execute(Command::ZScore { key: key(), member: "m".to_string() }),
        Reply::Score(Some(7))
    );
    assert_eq!(cache.execute(Command::ZCard { key: key() }), Reply::Count(2));
    let listener = cache.subscribe("ch");
    assert_eq!(
        cache.execute(Command::Publish { channel: "ch".to_string(), event: event(1) }),
        Reply::Done
    );
    assert_eq!(cache.receive(listener), vec![event(1)]);
}

#[test]
fn answer_reads_without_changing() {
    let mut cache = CacheService::new();
    cache.zadd("z", 5, "m").unwrap();
    cache.set("k", totals(3), 5).unwrap();
    assert_eq!(cache.answer(&Command::ZCard { key: "z".to_string() }), Some(Reply::Count(1)));
    assert_eq!(
        cache.answer(&Command::ZScore { key: "z".to_string(), member: "m".to_string() }),
        Some(Reply::Score(Some(5)))
    );
    assert_eq!(
        cache.answer(&Command::ZRevRank { key: "z".to_string(), member: "m".to_string() }),
        Some(Reply::Rank(Some(0)))
    );
    assert_eq!(
        cache.answer(&Command::ZRevRangeWithScores { key: "z".to_string(), start: 0, stop: 9 }),
        Some(Reply::Ranked(pairs(&[("m", 5)])))
    );
    assert_eq!(
        cache.answer(&Command::Get { key: "k".to_string(), kind: ValueKind::Fitness }),
        Some(Reply::Value(totals(3)))
    );
    assert_eq!(cache.answer(&Command::Exists { key: "k".to_string() }), Some(Reply::Flag(true)));
    assert_eq!(cache.answer(&Command::Exists { key: "z".to_string() }), Some(Reply::Flag(false)));
}

#[test]
fn answer_refuses_what_would_change_the_cache() {
    let mut cache = CacheService::new();
    cache.set("k", totals(3), 5).unwrap();
    assert_eq!(cache.answer(&Command::Delete { key: "k".to_string() }), None);
    assert_eq!(
        cache.answer(&Command::Put { key: "k".to_string(), value: totals(4), ttl_secs: 5 }),
        None
    );
    assert_eq!(
        cache.answer(&Command::ZAdd { key: "z".to_string(), score: 1, member: "m".to_string() }),
        None
    );
    assert_eq!(
        cache.answer(&Command::Publish { channel: "c".to_string(), event: event(1) }),
        None
    );
    assert_eq!(cache.get("k", ValueKind::Fitness), Ok(totals(3)));
    assert_eq!(cache.zcard("z"), Ok(0));
}

#[test]
fn table_holds_one_value_under_each_key() {
    let mut table: Table<u32> = Table::new();
    assert_eq!(table.get(&"a".to_string()), None);
    table.put("a".to_string(), 1);
    table.put("b".to_string(), 2);
    table.put("a".to_string(), 3);
    assert_eq!(table.get(&"a".to_string()), Some(&3));
    assert_eq!(table.get(&"b".to_string()), Some(&2));
    assert_eq!(table.take(&"a".to_string()), Some(3));
    assert_eq!(table.take(&"a".to_string()), None);
    assert_eq!(table.get(&"a".to_string()), None);
    assert_eq!(table.get(&"b".to_string()), Some(&2));
}
