use leaderboard_core::cache::CacheService;
use leaderboard_core::models::{Prize, ScoreUpdateRequest};
use leaderboard_core::port::{CacheError, CacheValue, ValueKind};
use leaderboard_core::prizes::{award, share, PrizeDistribution};
use leaderboard_core::operation::ServiceError;
use leaderboard_core::services::LeaderboardService;
use leaderboard_core::time::Timestamp;

fn at(secs: i64) -> Timestamp {
    Timestamp { secs, nanos: 0 }
}

fn with_scores(scores: &[(&str, i64)]) -> LeaderboardService {
    let mut service = LeaderboardService::new(CacheService::new());
    for (user, steps) in scores {
        let request = ScoreUpdateRequest {
            user_id: user.to_string(),
            competition_id: "c1".to_string(),
            steps: *steps,
            distance: 0,
            calories: 0,
        };
        service.update_score(&request, at(1)).unwrap();
    }
    service
}

fn prize(rank: i32, user: &str, amount: u64, now: Timestamp) -> Prize {
    Prize {
        id: format!("prize-c1-{}", rank),
        competition_id: "c1".to_string(),
        user_id: user.to_string(),
        rank,
        amount,
        status: "pending".to_string(),
        distributed_at: None,
        created_at: now,
    }
}

#[test]
fn no_prizes_without_participants() {
    let mut service = with_scores(&[]);
    assert_eq!(service.calculate_prizes("c1", 1000, at(5)), Err(ServiceError::NoParticipants));
    assert_eq!(service.cache.get("prizes:c1", ValueKind::Prizes), Err(CacheError::NotFound));
    assert_eq!(ServiceError::NoParticipants.message(), "No participants in competition");
}

#[test]
fn one_participant_wins_sixty_percent() {
    let mut service = with_scores(&[("u1", 10)]);
    let prizes = service.calculate_prizes("c1", 1000, at(5)).unwrap();
    assert_eq!(prizes, vec![prize(1, "u1", 600, at(5))]);
}

#[test]
fn two_participants_win_sixty_and_thirty_percent() {
    let mut service = with_scores(&[("u1", 10), ("u2", 20)]);
    let prizes = service.calculate_prizes("c1", 1000, at(5)).unwrap();
    assert_eq!(prizes, vec![prize(1, "u2", 600, at(5)), prize(2, "u1", 300, at(5))]);
}

#[test]
fn three_prizes_add_up_to_the_pool() {
    let mut service = with_scores(&[("u1", 10), ("u2", 20), ("u3", 30), ("u4", 40), ("u5", 5)]);
    let prizes = service.calculate_prizes("c1", 1000, at(5)).unwrap();
    assert_eq!(
        prizes,
        vec![
            prize(1, "u4", 600, at(5)),
            prize(2, "u3", 300, at(5)),
            prize(3, "u2", 100, at(5))
        ]
    );
    assert_eq!(prizes.iter().map(|p| p.amount).sum::<u64>(), 1000);
}

#[test]
fn rounding_leaves_at_most_two_units_in_the_pool() {
    for pool in [0u64, 1, 7, 9, 11, 99, 101, 1001, 12_345, u64::MAX] {
        let mut service = with_scores(&[("u1", 10), ("u2", 20), ("u3", 30)]);
        let prizes = service.calculate_prizes("c1", pool, at(5)).unwrap();
        assert_eq!(prizes.len(), 3);
        let total: u128 = prizes.iter().map(|p| p.amount as u128).sum();
        assert!(total <= pool as u128);
        assert!(pool as u128 - total <= 2);
        if pool % 10 == 0 {
            assert_eq!(total, pool as u128);
        }
    }
}

#[test]
fn share_is_the_percentage_rounded_down() {
    assert_eq!(share(1000, 60), 600);
    assert_eq!(share(999, 60), 599);
    assert_eq!(share(999, 30), 299);
    assert_eq!(share(999, 10), 99);
    assert_eq!(share(1, 60), 0);
    assert_eq!(share(u64::MAX, 100), u64::MAX);
    assert_eq!(share(u64::MAX, 60), 11_068_046_444_225_730_969);
    assert_eq!(share(5, 0), 0);
    assert_eq!(share(1000, 255), 2550);
    assert_eq!(share(u64::MAX / 3, 255), 15_679_732_462_653_118_872);
}

#[test]
fn default_distribution_is_sixty_thirty_ten() {
    assert_eq!(
        PrizeDistribution::default(),
        PrizeDistribution { rank_1_percentage: 60, rank_2_percentage: 30, rank_3_percentage: 10 }
    );
}

#[test]
fn award_takes_the_order_of_the_entries() {
    let mut service = with_scores(&[("u1", 10), ("u2", 20)]);
    let board = service.get_leaderboard("c1", 3, at(2)).unwrap();
    assert_eq!(
        award("c1", &board.entries, 50, at(9)),
        vec![prize(1, "u2", 30, at(9)), prize(2, "u1", 15, at(9))]
    );
    assert_eq!(award("c1", &Vec::new(), 50, at(9)), Vec::new());
}

#[test]
fn prizes_are_stored_for_seven_days_and_replaced() {
    let mut service = with_scores(&[("u1", 10)]);
    service.calculate_prizes("c1", 1000, at(5)).unwrap();
    assert_eq!(
        service.cache.get("prizes:c1", ValueKind::Prizes),
        Ok(CacheValue::Prizes(vec![prize(1, "u1", 600, at(5))]))
    );
    service.calculate_prizes("c1", 500, at(6)).unwrap();
    assert_eq!(
        service.cache.get("prizes:c1", ValueKind::Prizes),
        Ok(CacheValue::Prizes(vec![prize(1, "u1", 300, at(6))]))
    );
    service.cache.advance(604_799);
    assert!(service.cache.get("prizes:c1", ValueKind::Prizes).is_ok());
    service.cache.advance(1);
    assert_eq!(service.cache.get("prizes:c1", ValueKind::Prizes), Err(CacheError::NotFound));
}

#[test]
fn prizes_fail_where_the_standings_cannot_be_read() {
    let mut service = with_scores(&[("u1", 10)]);
    service.cache.set("user_details:c1:u1", CacheValue::Prizes(Vec::new()), 100).unwrap();
    assert_eq!(
        service.calculate_prizes("c1", 1000, at(5)),
        Err(ServiceError::Cache(CacheError::Deserialization))
    );
    assert_eq!(service.cache.get("prizes:c1", ValueKind::Prizes), Err(CacheError::NotFound));
}
