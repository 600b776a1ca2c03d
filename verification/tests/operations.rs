use leaderboard_core::cache::CacheService;
use leaderboard_core::fitness::{FitnessSync, StatsRead};
use leaderboard_core::leaderboard::{default_limit, listed_entry, LeaderboardRead, ReadStage};
use leaderboard_core::models::{
    FitnessData, FitnessSyncRequest, LeaderboardEntry, LeaderboardEvent, ScoreUpdateRequest,
};
use leaderboard_core::port::{CacheError, CacheValue, Command, Reply, ValueKind};
use leaderboard_core::prizes::PrizeCalculation;
use leaderboard_core::scoring::ScoreUpdate;
use leaderboard_core::services::{FitnessService, LeaderboardService};
use leaderboard_core::operation::{ServiceError, Step};
use leaderboard_core::time::Timestamp;

fn at(secs: i64) -> Timestamp {
    Timestamp { secs, nanos: 0 }
}

fn ranked(list: &[(&str, i64)]) -> Reply {
    Reply::Ranked(list.iter().map(|(m, s)| (m.to_string(), *s)).collect())
}

fn snapshot(user: &str, steps: i64) -> LeaderboardEntry {
    LeaderboardEntry {
        user_id: user.to_string(),
        user_name: String::new(),
        competition_id: "c1".to_string(),
        score: steps,
        rank: 0,
        steps,
        distance: 1,
        calories: 2,
        last_synced_at: at(3),
        updated_at: at(3),
    }
}

fn ask<M, T>(step: Step<M, T>) -> (M, Command) {
    match step {
        Step::Ask(machine, command) => (machine, command),
        Step::Finished(_) => panic!("the operation goes on"),
    }
}

fn finished<M, T>(step: Step<M, T>) -> Result<T, ServiceError> {
    match step {
        Step::Finished(outcome) => outcome,
        Step::Ask(_, _) => panic!("the operation has ended"),
    }
}

#[test]
fn default_limit_is_one_hundred() {
    assert_eq!(default_limit(), 100);
}

#[test]
fn read_asks_for_the_top_then_each_snapshot_then_the_count() {
    let (read, command) = LeaderboardRead::start("c1", 10, at(9));
    assert_eq!(
        command,
        Command::ZRevRangeWithScores { key: "leaderboard:c1".to_string(), start: 0, stop: 9 }
    );
    assert_eq!(read.stage, ReadStage::Ranking);

    let (read, command) = ask(read.step(ranked(&[("u2", 7000), ("u1", 5000)])));
    assert_eq!(
        command,
        Command::Get { key: "user_details:c1:u2".to_string(), kind: ValueKind::Entry }
    );
    assert_eq!(read.stage, ReadStage::Details);

    let (read, command) =
        ask(read.step(Reply::Value(CacheValue::Entry(snapshot("u2", 6999)))));
    assert_eq!(
        command,
        Command::Get { key: "user_details:c1:u1".to_string(), kind: ValueKind::Entry }
    );

    let (read, command) = ask(read.step(Reply::Failed(CacheError::NotFound)));
    assert_eq!(command, Command::ZCard { key: "leaderboard:c1".to_string() });
    assert_eq!(read.stage, ReadStage::Count);

    let board = finished(read.step(Reply::Count(42))).unwrap();
    assert_eq!(board.competition_id, "c1");
    assert_eq!(board.total_count, 42);
    assert_eq!(board.updated_at, at(9));
    assert_eq!(
        board.entries,
        vec![
            LeaderboardEntry { score: 7000, rank: 1, ..snapshot("u2", 6999) },
            LeaderboardEntry {
                user_id: "u1".to_string(),
                user_name: "Unknown".to_string(),
                competition_id: "c1".to_string(),
                score: 5000,
                rank: 2,
                steps: 0,
                distance: 0,
                calories: 0,
                last_synced_at: at(9),
                updated_at: at(9),
            }
        ]
    );
}

#[test]
fn read_of_an_empty_set_asks_for_the_count_at_once() {
    let (read, _) = LeaderboardRead::start("c1", 100, at(9));
    let (read, command) = ask(read.step(ranked(&[])));
    assert_eq!(command, Command::ZCard { key: "leaderboard:c1".to_string() });
    let board = finished(read.step(Reply::Count(0))).unwrap();
    assert!(board.entries.is_empty());
    assert_eq!(board.total_count, 0);
}

#[test]
fn read_of_the_top_zero_asks_for_the_count_alone() {
    let (read, command) = LeaderboardRead::start("c1", 0, at(9));
    assert_eq!(command, Command::ZCard { key: "leaderboard:c1".to_string() });
    assert_eq!(read.stage, ReadStage::Count);
    let board = finished(read.step(Reply::Count(12))).unwrap();
    assert!(board.entries.is_empty());
    assert_eq!(board.total_count, 12);
    assert_eq!(board.updated_at, at(9));

    let (read, _) = LeaderboardRead::start("c1", 0, at(9));
    assert_eq!(
        finished(read.step(Reply::Failed(CacheError::StoreUnavailable))),
        Err(ServiceError::Cache(CacheError::StoreUnavailable))
    );
    let (_, command) = LeaderboardRead::start("c1", -1, at(9));
    assert_eq!(
        command,
        Command::ZRevRangeWithScores { key: "leaderboard:c1".to_string(), start: 0, stop: -2 }
    );
    let (_, command) = LeaderboardRead::start("c1", 1, at(9));
    assert_eq!(
        command,
        Command::ZRevRangeWithScores { key: "leaderboard:c1".to_string(), start: 0, stop: 0 }
    );
}

#[test]
fn read_ends_with_the_failure_of_a_command() {
    let (read, _) = LeaderboardRead::start("c1", 10, at(9));
    assert_eq!(
        finished(read.step(Reply::Failed(CacheError::StoreUnavailable))),
        Err(ServiceError::Cache(CacheError::StoreUnavailable))
    );
    let (read, _) = LeaderboardRead::start("c1", 10, at(9));
    assert_eq!(
        finished(read.step(Reply::Failed(CacheError::NotFound))),
        Err(ServiceError::Cache(CacheError::NotFound))
    );

    let (read, _) = LeaderboardRead::start("c1", 10, at(9));
    let (read, _) = ask(read.step(ranked(&[("u1", 1)])));
    assert_eq!(
        finished(read.step(Reply::Failed(CacheError::Deserialization))),
        Err(ServiceError::Cache(CacheError::Deserialization))
    );

    let (read, _) = LeaderboardRead::start("c1", 10, at(9));
    let (read, _) = ask(read.step(ranked(&[("u1", 1)])));
    assert_eq!(
        finished(read.step(Reply::Failed(CacheError::StoreUnavailable))),
        Err(ServiceError::Cache(CacheError::StoreUnavailable))
    );

    let (read, _) = LeaderboardRead::start("c1", 10, at(9));
    let (read, _) = ask(read.step(ranked(&[])));
    assert_eq!(
        finished(read.step(Reply::Failed(CacheError::Serialization))),
        Err(ServiceError::Cache(CacheError::Serialization))
    );
}

#[test]
fn read_refuses_a_reply_of_another_kind() {
    let (read, _) = LeaderboardRead::start("c1", 10, at(9));
    assert_eq!(finished(read.step(Reply::Done)), Err(ServiceError::UnexpectedReply));

    let (read, _) = LeaderboardRead::start("c1", 10, at(9));
    let (read, _) = ask(read.step(ranked(&[("u1", 1)])));
    assert_eq!(finished(read.step(Reply::Count(1))), Err(ServiceError::UnexpectedReply));

    let (read, _) = LeaderboardRead::start("c1", 10, at(9));
    let (read, _) = ask(read.step(ranked(&[("u1", 1)])));
    assert_eq!(
        finished(read.step(Reply::Value(CacheValue::Prizes(Vec::new())))),
        Err(ServiceError::UnexpectedReply)
    );

    let (read, _) = LeaderboardRead::start("c1", 10, at(9));
    let (read, _) = ask(read.step(ranked(&[])));
    assert_eq!(finished(read.step(ranked(&[]))), Err(ServiceError::UnexpectedReply));

    let stray = LeaderboardRead {
        competition_id: "c1".to_string(),
        now: at(1),
        stage: ReadStage::Details,
        ranked: Vec::new(),
        entries: Vec::new(),
    };
    assert_eq!(
        finished(stray.step(Reply::Failed(CacheError::NotFound))),
        Err(ServiceError::UnexpectedReply)
    );
}

#[test]
fn listed_entry_keeps_the_snapshot_but_for_score_and_rank() {
    assert_eq!(
        listed_entry(Some(snapshot("u1", 10)), "other", "member", 77, 4, at(100)),
        LeaderboardEntry { score: 77, rank: 4, ..snapshot("u1", 10) }
    );
    assert_eq!(
        listed_entry(None, "c7", "member", 77, 4, at(100)),
        LeaderboardEntry {
            user_id: "member".to_string(),
            user_name: "Unknown".to_string(),
            competition_id: "c7".to_string(),
            score: 77,
            rank: 4,
            steps: 0,
            distance: 0,
            calories: 0,
            last_synced_at: at(100),
            updated_at: at(100),
        }
    );
}

fn score_request() -> ScoreUpdateRequest {
    ScoreUpdateRequest {
        user_id: "u1".to_string(),
        competition_id: "c1".to_string(),
        steps: 5000,
        distance: 3800,
        calories: 240,
    }
}

#[test]
fn update_writes_the_score_then_the_snapshot_then_publishes() {
    let (update, command) = ScoreUpdate::start(&score_request(), at(50));
    assert_eq!(
        command,
        Command::ZAdd { key: "leaderboard:c1".to_string(), score: 5000, member: "u1".to_string() }
    );
    let (update, command) = ask(update.step(Reply::Done));
    assert_eq!(
        command,
        Command::Put {
            key: "user_details:c1:u1".to_string(),
            value: CacheValue::Entry(LeaderboardEntry {
                user_id: "u1".to_string(),
                user_name: String::new(),
                competition_id: "c1".to_string(),
                score: 5000,
                rank: 0,
                steps: 5000,
                distance: 3800,
                calories: 240,
                last_synced_at: at(50),
                updated_at: at(50),
            }),
            ttl_secs: 86_400,
        }
    );
    let (update, command) = ask(update.step(Reply::Done));
    assert_eq!(
        command,
        Command::Publish {
            channel: "leaderboard:c1".to_string(),
            event: LeaderboardEvent {
                event_type: "score_update".to_string(),
                competition_id: "c1".to_string(),
                user_id: "u1".to_string(),
                score: 5000,
                timestamp: at(50),
            },
        }
    );
    assert_eq!(update, ScoreUpdate::Publishing);
    assert_eq!(finished(update.step(Reply::Done)), Ok(()));
}

#[test]
fn update_ends_with_the_first_failure() {
    let (update, _) = ScoreUpdate::start(&score_request(), at(50));
    assert_eq!(
        finished(update.step(Reply::Failed(CacheError::StoreUnavailable))),
        Err(ServiceError::Cache(CacheError::StoreUnavailable))
    );
    let (update, _) = ScoreUpdate::start(&score_request(), at(50));
    let (update, _) = ask(update.step(Reply::Done));
    assert_eq!(
        finished(update.step(Reply::Failed(CacheError::Serialization))),
        Err(ServiceError::Cache(CacheError::Serialization))
    );
    let (update, _) = ScoreUpdate::start(&score_request(), at(50));
    let (update, _) = ask(update.step(Reply::Done));
    let (update, _) = ask(update.step(Reply::Done));
    assert_eq!(
        finished(update.step(Reply::Failed(CacheError::StoreUnavailable))),
        Err(ServiceError::Cache(CacheError::StoreUnavailable))
    );
    let (update, _) = ScoreUpdate::start(&score_request(), at(50));
    assert_eq!(finished(update.step(Reply::Count(1))), Err(ServiceError::UnexpectedReply));
}

fn sync_request() -> FitnessSyncRequest {
    FitnessSyncRequest {
        user_id: "u1".to_string(),
        competition_id: "c1".to_string(),
        steps: 5000,
        distance: 4200,
        calories: 310,
        active_minutes: 45,
        source: "garmin".to_string(),
        date: at(951_825_600),
    }
}

fn sample(now: Timestamp) -> FitnessData {
    FitnessData {
        id: "u1-c1-951825600".to_string(),
        user_id: "u1".to_string(),
        competition_id: "c1".to_string(),
        steps: 5000,
        distance: 4200,
        calories: 310,
        active_minutes: 45,
        source: "garmin".to_string(),
        date: at(951_825_600),
        synced_at: now,
        created_at: now,
    }
}

#[test]
fn sync_stores_the_sample_then_reads_and_writes_the_totals() {
    let (sync, command) = ask(FitnessSync::start(&sync_request(), at(70)));
    assert_eq!(
        command,
        Command::Put {
            key: "fitness:u1:c1:2000-02-29".to_string(),
            value: CacheValue::Fitness(sample(at(70))),
            ttl_secs: 2_592_000,
        }
    );
    let (sync, command) = ask(sync.step(Reply::Done));
    assert_eq!(
        command,
        Command::Get { key: "fitness_stats:u1:c1".to_string(), kind: ValueKind::Fitness }
    );
    let stored = FitnessData {
        id: "kept".to_string(),
        user_id: "u1".to_string(),
        competition_id: "c1".to_string(),
        steps: 100,
        distance: 200,
        calories: 300,
        active_minutes: 400,
        source: "older".to_string(),
        date: at(1),
        synced_at: at(2),
        created_at: at(3),
    };
    let (sync, command) = ask(sync.step(Reply::Value(CacheValue::Fitness(stored))));
    assert_eq!(
        command,
        Command::Put {
            key: "fitness_stats:u1:c1".to_string(),
            value: CacheValue::Fitness(FitnessData {
                id: "kept".to_string(),
                user_id: "u1".to_string(),
                competition_id: "c1".to_string(),
                steps: 5100,
                distance: 4400,
                calories: 610,
                active_minutes: 445,
                source: "garmin".to_string(),
                date: at(1),
                synced_at: at(70),
                created_at: at(3),
            }),
            ttl_secs: 2_592_000,
        }
    );
    assert_eq!(sync, FitnessSync::Writing);
    assert_eq!(finished(sync.step(Reply::Done)), Ok(()));
}

#[test]
fn sync_counts_missing_totals_as_zero() {
    let (sync, _) = ask(FitnessSync::start(&sync_request(), at(70)));
    let (sync, _) = ask(sync.step(Reply::Done));
    let (_, command) = ask(sync.step(Reply::Failed(CacheError::NotFound)));
    assert_eq!(
        command,
        Command::Put {
            key: "fitness_stats:u1:c1".to_string(),
            value: CacheValue::Fitness(FitnessData {
                id: String::new(),
                date: at(70),
                ..sample(at(70))
            }),
            ttl_secs: 2_592_000,
        }
    );
}

#[test]
fn sync_ends_with_every_other_failure() {
    let (sync, _) = ask(FitnessSync::start(&sync_request(), at(70)));
    assert_eq!(
        finished(sync.step(Reply::Failed(CacheError::StoreUnavailable))),
        Err(ServiceError::Cache(CacheError::StoreUnavailable))
    );
    let (sync, _) = ask(FitnessSync::start(&sync_request(), at(70)));
    let (sync, _) = ask(sync.step(Reply::Done));
    assert_eq!(
        finished(sync.step(Reply::Failed(CacheError::Deserialization))),
        Err(ServiceError::Cache(CacheError::Deserialization))
    );
    let (sync, _) = ask(FitnessSync::start(&sync_request(), at(70)));
    let (sync, _) = ask(sync.step(Reply::Done));
    assert_eq!(
        finished(sync.step(Reply::Failed(CacheError::StoreUnavailable))),
        Err(ServiceError::Cache(CacheError::StoreUnavailable))
    );
    let (sync, _) = ask(FitnessSync::start(&sync_request(), at(70)));
    let (sync, _) = ask(sync.step(Reply::Done));
    assert_eq!(finished(sync.step(Reply::Done)), Err(ServiceError::UnexpectedReply));
    let (sync, _) = ask(FitnessSync::start(&sync_request(), at(70)));
    let (sync, _) = ask(sync.step(Reply::Done));
    let (sync, _) = ask(sync.step(Reply::Failed(CacheError::NotFound)));
    assert_eq!(
        finished(sync.step(Reply::Failed(CacheError::Serialization))),
        Err(ServiceError::Cache(CacheError::Serialization))
    );
    assert_eq!(
        finished(FitnessSync::begin(&sync_request(), None, at(70))),
        Err(ServiceError::InvalidDate)
    );
}

#[test]
fn stats_read_returns_what_is_stored_or_zero() {
    let (read, command) = StatsRead::start("u1", "c1", at(8));
    assert_eq!(
        command,
        Command::Get { key: "fitness_stats:u1:c1".to_string(), kind: ValueKind::Fitness }
    );
    assert_eq!(read.finish(Reply::Value(CacheValue::Fitness(sample(at(1))))), Ok(sample(at(1))));

    let (read, _) = StatsRead::start("u1", "c1", at(8));
    let zero = read.finish(Reply::Failed(CacheError::NotFound)).unwrap();
    assert_eq!((zero.steps, zero.distance, zero.calories, zero.active_minutes), (0, 0, 0, 0));
    assert_eq!((zero.user_id.as_str(), zero.competition_id.as_str()), ("u1", "c1"));
    assert_eq!((zero.id.as_str(), zero.source.as_str()), ("", ""));
    assert_eq!((zero.date, zero.synced_at, zero.created_at), (at(8), at(8), at(8)));

    let (read, _) = StatsRead::start("u1", "c1", at(8));
    assert_eq!(
        read.finish(Reply::Failed(CacheError::StoreUnavailable)),
        Err(ServiceError::Cache(CacheError::StoreUnavailable))
    );
    let (read, _) = StatsRead::start("u1", "c1", at(8));
    assert_eq!(read.finish(Reply::Flag(true)), Err(ServiceError::UnexpectedReply));
}

#[test]
fn calculation_reads_three_then_stores_the_prizes() {
    let (calculation, command) = PrizeCalculation::start("c1", 2000, at(6));
    assert_eq!(
        command,
        Command::ZRevRangeWithScores { key: "leaderboard:c1".to_string(), start: 0, stop: 2 }
    );
    let (calculation, _) = ask(calculation.step(ranked(&[("u2", 9), ("u1", 4)])));
    let (calculation, _) = ask(calculation.step(Reply::Failed(CacheError::NotFound)));
    let (calculation, command) = ask(calculation.step(Reply::Failed(CacheError::NotFound)));
    assert_eq!(command, Command::ZCard { key: "leaderboard:c1".to_string() });
    let (calculation, command) = ask(calculation.step(Reply::Count(2)));
    match &command {
        Command::Put { key, value: CacheValue::Prizes(prizes), ttl_secs } => {
            assert_eq!(key, "prizes:c1");
            assert_eq!(*ttl_secs, 604_800);
            assert_eq!(prizes.len(), 2);
            assert_eq!((prizes[0].id.as_str(), prizes[0].amount), ("prize-c1-1", 1200));
            assert_eq!((prizes[1].id.as_str(), prizes[1].amount), ("prize-c1-2", 600));
            assert_eq!(prizes[0].user_id, "u2");
            assert_eq!(prizes[1].user_id, "u1");
            assert_eq!(prizes[0].status, "pending");
            assert_eq!(prizes[0].distributed_at, None);
            assert_eq!(prizes[0].created_at, at(6));
        }
        _ => panic!("the prizes are stored"),
    }
    let prizes = finished(calculation.step(Reply::Done)).unwrap();
    assert_eq!(prizes.len(), 2);
    assert_eq!(prizes[1].rank, 2);
}

#[test]
fn calculation_fails_without_entrants_and_with_the_cache() {
    let (calculation, _) = PrizeCalculation::start("c1", 2000, at(6));
    let (calculation, _) = ask(calculation.step(ranked(&[])));
    assert_eq!(finished(calculation.step(Reply::Count(0))), Err(ServiceError::NoParticipants));

    let (calculation, _) = PrizeCalculation::start("c1", 2000, at(6));
    assert_eq!(
        finished(calculation.step(Reply::Failed(CacheError::StoreUnavailable))),
        Err(ServiceError::Cache(CacheError::StoreUnavailable))
    );

    let (calculation, _) = PrizeCalculation::start("c1", 2000, at(6));
    let (calculation, _) = ask(calculation.step(ranked(&[("u1", 1)])));
    let (calculation, _) = ask(calculation.step(Reply::Failed(CacheError::NotFound)));
    let (calculation, _) = ask(calculation.step(Reply::Count(1)));
    assert_eq!(
        finished(calculation.step(Reply::Failed(CacheError::Serialization))),
        Err(ServiceError::Cache(CacheError::Serialization))
    );
}

#[test]
fn calculation_awards_no_more_than_three() {
    let (calculation, _) = PrizeCalculation::start("c1", 100, at(6));
    let (mut calculation, _) =
        ask(calculation.step(ranked(&[("a", 9), ("b", 8), ("c", 7), ("d", 6)])));
    for _ in 0..3 {
        calculation = ask(calculation.step(Reply::Failed(CacheError::NotFound))).0;
    }
    let (calculation, _) = ask(calculation.step(Reply::Failed(CacheError::NotFound)));
    let (calculation, _) = ask(calculation.step(Reply::Count(4)));
    let prizes = finished(calculation.step(Reply::Done)).unwrap();
    assert_eq!(
        prizes.iter().map(|p| (p.user_id.as_str(), p.rank, p.amount)).collect::<Vec<_>>(),
        vec![("a", 1, 60), ("b", 2, 30), ("c", 3, 10)]
    );
}

#[test]
fn interleaved_submissions_lose_the_first() {
    let mut cache = CacheService::new();
    let mut morning = sync_request();
    morning.steps = 1000;
    let mut evening = sync_request();
    evening.steps = 30;
    evening.date = at(951_825_600 + 86_400);

    let (one, store) = ask(FitnessSync::start(&morning, at(70)));
    let (one, read) = ask(one.step(cache.execute(store)));
    let (other, store) = ask(FitnessSync::start(&evening, at(71)));
    let (other, reread) = ask(other.step(cache.execute(store)));

    let (one, write) = ask(one.step(cache.execute(read)));
    let (other, rewrite) = ask(other.step(cache.execute(reread)));
    assert_eq!(finished(one.step(cache.execute(write))), Ok(()));
    assert_eq!(finished(other.step(cache.execute(rewrite))), Ok(()));

    let service = FitnessService::new(cache);
    assert_eq!(service.get_user_stats("u1", "c1", at(99)).unwrap().steps, 30);
    assert!(service.cache.get("fitness:u1:c1:2000-02-29", ValueKind::Fitness).is_ok());
    assert!(service.cache.get("fitness:u1:c1:2000-03-01", ValueKind::Fitness).is_ok());
}

#[test]
fn operations_run_to_the_same_end_step_by_step() {
    let mut cache = CacheService::new();
    let (update, command) = ScoreUpdate::start(&score_request(), at(50));
    let (update, command) = ask(update.step(cache.execute(command)));
    let (update, command) = ask(update.step(cache.execute(command)));
    assert_eq!(finished(update.step(cache.execute(command))), Ok(()));

    let mut service = LeaderboardService::new(CacheService::new());
    service.update_score(&score_request(), at(50)).unwrap();
    let stepped = LeaderboardService::new(cache);
    assert_eq!(
        stepped.get_leaderboard("c1", 10, at(60)),
        service.get_leaderboard("c1", 10, at(60))
    );
    assert_eq!(stepped.get_leaderboard("c1", 10, at(60)).unwrap().entries.len(), 1);
}
