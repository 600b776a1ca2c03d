//! The records that the service stores, returns and publishes.
//!
//! Distances are whole metres, energy is whole calories and money is counted
//! in the smallest unit of the currency, so every sum in the crate is exact.

use vstd::prelude::*;
use crate::time::Timestamp;

verus! {

/// One row of a leaderboard; also the snapshot of a user's latest activity
/// that is cached per competition.
#[derive(Debug, PartialEq, Eq)]
pub struct LeaderboardEntry {
    pub user_id: String,
    pub user_name: String,
    pub competition_id: String,
    pub score: i64,
    pub rank: i32,
    pub steps: i64,
    pub distance: i64,
    pub calories: i64,
    pub last_synced_at: Timestamp,
    pub updated_at: Timestamp,
}

pub struct LeaderboardEntryView {
    pub user_id: Seq<char>,
    pub user_name: Seq<char>,
    pub competition_id: Seq<char>,
    pub score: i64,
    pub rank: i32,
    pub steps: i64,
    pub distance: i64,
    pub calories: i64,
    pub last_synced_at: Timestamp,
    pub updated_at: Timestamp,
}

impl View for LeaderboardEntry {
    type V = LeaderboardEntryView;

    open spec fn view(&self) -> LeaderboardEntryView {
        LeaderboardEntryView {
            user_id: self.user_id@,
            user_name: self.user_name@,
            competition_id: self.competition_id@,
            score: self.score,
            rank: self.rank,
            steps: self.steps,
            distance: self.distance,
            calories: self.calories,
            last_synced_at: self.last_synced_at,
            updated_at: self.updated_at,
        }
    }
}

impl Clone for LeaderboardEntry {
    fn clone(&self) -> (copy: Self)
        ensures
            copy == *self,
    {
        LeaderboardEntry {
            user_id: self.user_id.clone(),
            user_name: self.user_name.clone(),
            competition_id: self.competition_id.clone(),
            score: self.score,
            rank: self.rank,
            steps: self.steps,
            distance: self.distance,
            calories: self.calories,
            last_synced_at: self.last_synced_at,
            updated_at: self.updated_at,
        }
    }
}

/// The views of a sequence of entries, in order.
pub open spec fn entry_views(entries: Seq<LeaderboardEntry>) -> Seq<LeaderboardEntryView> {
    Seq::new(entries.len(), |i: int| entries[i]@)
}

/// The standings of one competition at one moment.
#[derive(Debug, PartialEq, Eq)]
pub struct Leaderboard {
    pub competition_id: String,
    pub entries: Vec<LeaderboardEntry>,
    pub total_count: i32,
    pub updated_at: Timestamp,
}

pub struct LeaderboardView {
    pub competition_id: Seq<char>,
    pub entries: Seq<LeaderboardEntryView>,
    pub total_count: i32,
    pub updated_at: Timestamp,
}

impl View for Leaderboard {
    type V = LeaderboardView;

    open spec fn view(&self) -> LeaderboardView {
        LeaderboardView {
            competition_id: self.competition_id@,
            entries: entry_views(self.entries@),
            total_count: self.total_count,
            updated_at: self.updated_at,
        }
    }
}

/// One day's activity of a user in a competition, or the running totals of
/// all the days that were submitted.
#[derive(Debug, PartialEq, Eq)]
pub struct FitnessData {
    pub id: String,
    pub user_id: String,
    pub competition_id: String,
    pub steps: i64,
    pub distance: i64,
    pub calories: i64,
    pub active_minutes: i32,
    pub source: String,
    pub date: Timestamp,
    pub synced_at: Timestamp,
    pub created_at: Timestamp,
}

pub struct FitnessDataView {
    pub id: Seq<char>,
    pub user_id: Seq<char>,
    pub competition_id: Seq<char>,
    pub steps: i64,
    pub distance: i64,
    pub calories: i64,
    pub active_minutes: i32,
    pub source: Seq<char>,
    pub date: Timestamp,
    pub synced_at: Timestamp,
    pub created_at: Timestamp,
}

impl View for FitnessData {
    type V = FitnessDataView;

    open spec fn view(&self) -> FitnessDataView {
        FitnessDataView {
            id: self.id@,
            user_id: self.user_id@,
            competition_id: self.competition_id@,
            steps: self.steps,
            distance: self.distance,
            calories: self.calories,
            active_minutes: self.active_minutes,
            source: self.source@,
            date: self.date,
            synced_at: self.synced_at,
            created_at: self.created_at,
        }
    }
}

impl Clone for FitnessData {
    fn clone(&self) -> (copy: Self)
        ensures
            copy == *self,
    {
        FitnessData {
            id: self.id.clone(),
            user_id: self.user_id.clone(),
            competition_id: self.competition_id.clone(),
            steps: self.steps,
            distance: self.distance,
            calories: self.calories,
            active_minutes: self.active_minutes,
            source: self.source.clone(),
            date: self.date,
            synced_at: self.synced_at,
            created_at: self.created_at,
        }
    }
}

/// A submission of one day's activity.
#[derive(Debug, PartialEq, Eq)]
pub struct FitnessSyncRequest {
    pub user_id: String,
    pub competition_id: String,
    pub steps: i64,
    pub distance: i64,
    pub calories: i64,
    pub active_minutes: i32,
    pub source: String,
    pub date: Timestamp,
}

impl Clone for FitnessSyncRequest {
    fn clone(&self) -> (copy: Self)
        ensures
            copy == *self,
    {
        FitnessSyncRequest {
            user_id: self.user_id.clone(),
            competition_id: self.competition_id.clone(),
            steps: self.steps,
            distance: self.distance,
            calories: self.calories,
            active_minutes: self.active_minutes,
            source: self.source.clone(),
            date: self.date,
        }
    }
}

/// The source tag of a submission that names none.
pub fn default_source() -> (source: String)
    ensures
        source@ == "google_fit"@,
{
    "google_fit".to_owned()
}

/// A new score for one user in one competition.
#[derive(Debug, PartialEq, Eq)]
pub struct ScoreUpdateRequest {
    pub user_id: String,
    pub competition_id: String,
    pub steps: i64,
    pub distance: i64,
    pub calories: i64,
}

impl Clone for ScoreUpdateRequest {
    fn clone(&self) -> (copy: Self)
        ensures
            copy == *self,
    {
        ScoreUpdateRequest {
            user_id: self.user_id.clone(),
            competition_id: self.competition_id.clone(),
            steps: self.steps,
            distance: self.distance,
            calories: self.calories,
        }
    }
}

/// The prize of one rank of one competition.
#[derive(Debug, PartialEq, Eq)]
pub struct Prize {
    pub id: String,
    pub competition_id: String,
    pub user_id: String,
    pub rank: i32,
    pub amount: u64,
    pub status: String,
    pub distributed_at: Option<Timestamp>,
    pub created_at: Timestamp,
}

pub struct PrizeView {
    pub id: Seq<char>,
    pub competition_id: Seq<char>,
    pub user_id: Seq<char>,
    pub rank: i32,
    pub amount: u64,
    pub status: Seq<char>,
    pub distributed_at: Option<Timestamp>,
    pub created_at: Timestamp,
}

impl View for Prize {
    type V = PrizeView;

    open spec fn view(&self) -> PrizeView {
        PrizeView {
            id: self.id@,
            competition_id: self.competition_id@,
            user_id: self.user_id@,
            rank: self.rank,
            amount: self.amount,
            status: self.status@,
            distributed_at: self.distributed_at,
            created_at: self.created_at,
        }
    }
}

impl Clone for Prize {
    fn clone(&self) -> (copy: Self)
        ensures
            copy == *self,
    {
        Prize {
            id: self.id.clone(),
            competition_id: self.competition_id.clone(),
            user_id: self.user_id.clone(),
            rank: self.rank,
            amount: self.amount,
            status: self.status.clone(),
            distributed_at: self.distributed_at,
            created_at: self.created_at,
        }
    }
}

/// The views of a sequence of prizes, in order.
pub open spec fn prize_views(prizes: Seq<Prize>) -> Seq<PrizeView> {
    Seq::new(prizes.len(), |i: int| prizes[i]@)
}

/// What is published when a score changes.
#[derive(Debug, PartialEq, Eq)]
pub struct LeaderboardEvent {
    pub event_type: String,
    pub competition_id: String,
    pub user_id: String,
    pub score: i64,
    pub timestamp: Timestamp,
}

pub struct LeaderboardEventView {
    pub event_type: Seq<char>,
    pub competition_id: Seq<char>,
    pub user_id: Seq<char>,
    pub score: i64,
    pub timestamp: Timestamp,
}

impl View for LeaderboardEvent {
    type V = LeaderboardEventView;

    open spec fn view(&self) -> LeaderboardEventView {
        LeaderboardEventView {
            event_type: self.event_type@,
            competition_id: self.competition_id@,
            user_id: self.user_id@,
            score: self.score,
            timestamp: self.timestamp,
        }
    }
}

impl Clone for LeaderboardEvent {
    fn clone(&self) -> (copy: Self)
        ensures
            copy == *self,
    {
        LeaderboardEvent {
            event_type: self.event_type.clone(),
            competition_id: self.competition_id.clone(),
            user_id: self.user_id.clone(),
            score: self.score,
            timestamp: self.timestamp,
        }
    }
}

/// A user of the service.
#[derive(Debug, PartialEq, Eq)]
pub struct User {
    pub id: String,
    pub email: String,
    pub name: String,
    pub created_at: Timestamp,
}

/// A competition.
#[derive(Debug, PartialEq, Eq)]
pub struct Competition {
    pub id: String,
    pub name: String,
    pub description: String,
    pub entry_fee: u64,
    pub prize_pool: u64,
    pub start_date: Timestamp,
    pub end_date: Timestamp,
    pub status: String,
    pub competition_type: String,
    pub created_at: Timestamp,
}

/// A message to a connection that relays score changes; `data` is its
/// payload as JSON text.
#[derive(Debug, PartialEq, Eq)]
pub struct WebSocketMessage {
    pub message_type: String,
    pub data: String,
    pub timestamp: Timestamp,
}

/// The body of a request for a calculation of prizes.
#[derive(Clone, Copy, Debug, PartialEq, Eq, Structural)]
pub struct CalculatePrizesRequest {
    pub prize_pool: u64,
}

/// The answer to a request that failed.
#[derive(Debug, PartialEq, Eq)]
pub struct ErrorResponse {
    pub error: String,
    pub message: String,
    pub code: u16,
}

/// The answer to a request that succeeded.
#[derive(Debug, PartialEq, Eq)]
pub struct SuccessResponse<T> {
    pub success: bool,
    pub data: Option<T>,
    pub message: Option<String>,
}

impl<T> SuccessResponse<T> {
    /// A success that carries `data` and no message.
    pub fn new(data: T) -> (response: Self)
        ensures
            response.success,
            response.data == Some(data),
            response.message is None,
    {
        Self { success: true, data: Some(data), message: None }
    }

    /// A success that carries `data` and `message`.
    pub fn with_message(data: T, message: String) -> (response: Self)
        ensures
            response.success,
            response.data == Some(data),
            response.message == Some(message),
    {
        Self { success: true, data: Some(data), message: Some(message) }
    }
}

} // verus!
