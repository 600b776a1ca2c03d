use leaderboard_core::cache::CacheService;
use leaderboard_core::models::{
    Leaderboard, LeaderboardEntry, LeaderboardEvent, ScoreUpdateRequest,
};
use leaderboard_core::port::{CacheError, CacheValue, ValueKind};
use leaderboard_core::operation::ServiceError;
use leaderboard_core::services::LeaderboardService;
use leaderboard_core::time::Timestamp;

fn at(secs: i64) -> Timestamp {
    Timestamp { secs, nanos: 0 }
}

fn update(user: &str, competition: &str, steps: i64) -> ScoreUpdateRequest {
    ScoreUpdateRequest {
        user_id: user.to_string(),
        competition_id: competition.to_string(),
        steps,
        distance: steps / 2,
        calories: steps / 20,
    }
}

fn service() -> LeaderboardService {
    LeaderboardService::new(CacheService::new())
}

fn board(service: &mut LeaderboardService, competition: &str, limit: isize) -> Leaderboard {
    service.get_leaderboard(competition, limit, at(2_000)).unwrap()
}

fn users(board: &Leaderboard) -> Vec<(String, i64, i32)> {
    board.entries.iter().map(|e| (e.user_id.clone(), e.score, e.rank)).collect()
}

#[test]
fn one_score_then_a_higher_one() {
    let mut service = service();
    service.update_score(&update("u1", "c1", 5000), at(1_000)).unwrap();
    let first = board(&mut service, "c1", 10);
    assert_eq!(users(&first), vec![("u1".to_string(), 5000, 1)]);
    assert_eq!(first.total_count, 1);

    service.update_score(&update("u2", "c1", 7000), at(1_001)).unwrap();
    let second = board(&mut service, "c1", 10);
    assert_eq!(
        users(&second),
        vec![("u2".to_string(), 7000, 1), ("u1".to_string(), 5000, 2)]
    );
    assert_eq!(second.total_count, 2);
}

#[test]
fn empty_leaderboard_is_no_error() {
    let mut service = service();
    let found = board(&mut service, "nobody", 10);
    assert_eq!(found.competition_id, "nobody");
    assert!(found.entries.is_empty());
    assert_eq!(found.total_count, 0);
    assert_eq!(found.updated_at, at(2_000));
}

#[test]
fn entries_are_the_smaller_of_members_and_limit() {
    let mut service = service();
    for i in 0..7 {
        service
            .update_score(&update(&format!("user{}", i), "c1", 100 * (i as i64 + 1)), at(10))
            .unwrap();
    }
    for limit in 0..12isize {
        let found = board(&mut service, "c1", limit);
        let expected = if limit < 7 { limit as usize } else { 7 };
        assert_eq!(found.entries.len(), expected);
        for (i, entry) in found.entries.iter().enumerate() {
            assert_eq!(entry.rank, i as i32 + 1);
            assert_eq!(entry.score, 700 - 100 * i as i64);
            if i > 0 {
                assert!(found.entries[i - 1].score >= entry.score);
            }
        }
    }
}

#[test]
fn total_count_does_not_depend_on_the_limit() {
    let mut service = service();
    for i in 0..5 {
        service.update_score(&update(&format!("user{}", i), "c1", 10 + i as i64), at(10)).unwrap();
    }
    for limit in [0isize, 1, 2, 5, 100] {
        assert_eq!(board(&mut service, "c1", limit).total_count, 5);
    }
}

#[test]
fn a_limit_of_zero_gives_no_entries() {
    let mut service = service();
    assert!(board(&mut service, "c1", 0).entries.is_empty());
    for i in 0..4 {
        service.update_score(&update(&format!("user{}", i), "c1", 10 + i as i64), at(10)).unwrap();
    }
    let found = board(&mut service, "c1", 0);
    assert!(found.entries.is_empty());
    assert_eq!(found.total_count, 4);
    assert_eq!(found.competition_id, "c1");
    assert_eq!(found.updated_at, at(2_000));
}

#[test]
fn a_limit_below_zero_counts_from_the_last_standing() {
    let mut service = service();
    for i in 0..4 {
        service.update_score(&update(&format!("user{}", i), "c1", 10 + i as i64), at(10)).unwrap();
    }
    assert_eq!(board(&mut service, "c1", -1).entries.len(), 3);
    assert_eq!(board(&mut service, "c1", -3).entries.len(), 1);
    assert_eq!(board(&mut service, "c1", -4).entries.len(), 0);
    assert_eq!(board(&mut service, "c1", -4).total_count, 4);
}

#[test]
fn a_new_score_replaces_the_old_one() {
    let mut service = service();
    service.update_score(&update("u1", "c1", 5000), at(1)).unwrap();
    service.update_score(&update("u2", "c1", 6000), at(2)).unwrap();
    service.update_score(&update("u1", "c1", 3000), at(3)).unwrap();
    let found = board(&mut service, "c1", 10);
    assert_eq!(
        users(&found),
        vec![("u2".to_string(), 6000, 1), ("u1".to_string(), 3000, 2)]
    );
    assert_eq!(found.total_count, 2);
    assert_eq!(service.cache.zscore("leaderboard:c1", "u1"), Ok(Some(3000)));
}

#[test]
fn update_shows_at_its_place() {
    let mut service = service();
    for (user, steps) in [("a", 900), ("b", 700), ("c", 500), ("d", 300)] {
        service.update_score(&update(user, "c1", steps), at(1)).unwrap();
    }
    service.update_score(&update("e", "c1", 600), at(2)).unwrap();
    let found = board(&mut service, "c1", 3);
    assert_eq!(
        users(&found),
        vec![("a".to_string(), 900, 1), ("b".to_string(), 700, 2), ("e".to_string(), 600, 3)]
    );
    assert_eq!(found.entries[2].steps, 600);
    assert_eq!(found.entries[2].distance, 300);
    assert_eq!(found.entries[2].calories, 30);
    assert_eq!(found.entries[2].last_synced_at, at(2));
    assert_eq!(found.total_count, 5);
    assert_eq!(service.cache.zrevrank("leaderboard:c1", "e"), Ok(Some(2)));
}

#[test]
fn equal_scores_stand_in_the_order_they_were_written() {
    let mut service = service();
    service.update_score(&update("late", "c1", 100), at(1)).unwrap();
    service.update_score(&update("first", "c1", 500), at(2)).unwrap();
    service.update_score(&update("second", "c1", 500), at(3)).unwrap();
    service.update_score(&update("late", "c1", 500), at(4)).unwrap();
    let found = board(&mut service, "c1", 10);
    assert_eq!(
        users(&found),
        vec![
            ("first".to_string(), 500, 1),
            ("second".to_string(), 500, 2),
            ("late".to_string(), 500, 3)
        ]
    );
}

#[test]
fn competitions_do_not_share_standings() {
    let mut service = service();
    service.update_score(&update("u1", "c1", 5000), at(1)).unwrap();
    service.update_score(&update("u1", "c2", 10), at(1)).unwrap();
    service.update_score(&update("u2", "c2", 20), at(1)).unwrap();
    assert_eq!(board(&mut service, "c1", 10).total_count, 1);
    assert_eq!(
        users(&board(&mut service, "c2", 10)),
        vec![("u2".to_string(), 20, 1), ("u1".to_string(), 10, 2)]
    );
}

#[test]
fn snapshot_is_stored_for_a_day() {
    let mut service = service();
    service.update_score(&update("u1", "c1", 5000), at(77)).unwrap();
    let stored = service.cache.get("user_details:c1:u1", ValueKind::Entry).unwrap();
    assert_eq!(
        stored,
        CacheValue::Entry(LeaderboardEntry {
            user_id: "u1".to_string(),
            user_name: String::new(),
            competition_id: "c1".to_string(),
            score: 5000,
            rank: 0,
            steps: 5000,
            distance: 2500,
            calories: 250,
            last_synced_at: at(77),
            updated_at: at(77),
        })
    );
    service.cache.advance(86_399);
    assert!(service.cache.get("user_details:c1:u1", ValueKind::Entry).is_ok());
    service.cache.advance(1);
    assert_eq!(
        service.cache.get("user_details:c1:u1", ValueKind::Entry),
        Err(CacheError::NotFound)
    );
}

#[test]
fn missing_snapshot_gives_a_placeholder() {
    let mut service = service();
    service.update_score(&update("u1", "c1", 5000), at(1)).unwrap();
    service.cache.advance(86_400);
    let found = board(&mut service, "c1", 10);
    assert_eq!(
        found.entries,
        vec![LeaderboardEntry {
            user_id: "u1".to_string(),
            user_name: "Unknown".to_string(),
            competition_id: "c1".to_string(),
            score: 5000,
            rank: 1,
            steps: 0,
            distance: 0,
            calories: 0,
            last_synced_at: at(2_000),
            updated_at: at(2_000),
        }]
    );
    assert_eq!(found.total_count, 1);
}

#[test]
fn score_and_rank_come_from_the_ranking_set() {
    let mut service = service();
    service.update_score(&update("u1", "c1", 5000), at(1)).unwrap();
    let stale = LeaderboardEntry {
        user_id: "u1".to_string(),
        user_name: "Ada".to_string(),
        competition_id: "c1".to_string(),
        score: 1,
        rank: 99,
        steps: 4000,
        distance: 7,
        calories: 8,
        last_synced_at: at(5),
        updated_at: at(6),
    };
    service.cache.set("user_details:c1:u1", CacheValue::Entry(stale), 100).unwrap();
    let found = board(&mut service, "c1", 10);
    assert_eq!(found.entries.len(), 1);
    let entry = &found.entries[0];
    assert_eq!((entry.score, entry.rank), (5000, 1));
    assert_eq!(entry.user_name, "Ada");
    assert_eq!((entry.steps, entry.distance, entry.calories), (4000, 7, 8));
    assert_eq!((entry.last_synced_at, entry.updated_at), (at(5), at(6)));
}

#[test]
fn a_value_of_another_shape_fails_the_read() {
    let mut service = service();
    service.update_score(&update("u1", "c1", 5000), at(1)).unwrap();
    service.cache.set("user_details:c1:u1", CacheValue::Prizes(Vec::new()), 100).unwrap();
    assert_eq!(
        service.get_leaderboard("c1", 10, at(2)),
        Err(ServiceError::Cache(CacheError::Deserialization))
    );
}

#[test]
fn reading_leaves_the_cache_as_it_is() {
    let mut service = service();
    let listener = service.cache.subscribe("leaderboard:c1");
    service.update_score(&update("u1", "c1", 5000), at(1)).unwrap();
    let first = board(&mut service, "c1", 10);
    let second = board(&mut service, "c1", 10);
    assert_eq!(first, second);
    assert_eq!(service.cache.receive(listener).len(), 1);
    assert_eq!(service.cache.zcard("leaderboard:c1"), Ok(1));
}

#[test]
fn every_update_publishes_one_event() {
    let mut service = service();
    let first = service.cache.subscribe("leaderboard:c1");
    let other = service.cache.subscribe("leaderboard:c9");
    service.update_score(&update("u1", "c1", 5000), at(11)).unwrap();
    service.update_score(&update("u2", "c9", 8), at(12)).unwrap();
    let second = service.cache.subscribe("leaderboard:c1");
    service.update_score(&update("u3", "c1", 70), at(13)).unwrap();

    let heard = service.cache.receive(first);
    assert_eq!(heard.len(), 2);
    assert_eq!(
        heard[0],
        LeaderboardEvent {
            event_type: "score_update".to_string(),
            competition_id: "c1".to_string(),
            user_id: "u1".to_string(),
            score: 5000,
            timestamp: at(11),
        }
    );
    assert_eq!((heard[1].user_id.as_str(), heard[1].score), ("u3", 70));

    let elsewhere = service.cache.receive(other);
    assert_eq!(elsewhere.len(), 1);
    assert_eq!((elsewhere[0].user_id.as_str(), elsewhere[0].score), ("u2", 8));
    assert_eq!(elsewhere[0].competition_id, "c9");

    let late = service.cache.receive(second);
    assert_eq!(late.len(), 1);
    assert_eq!(late[0].user_id, "u3");
}
