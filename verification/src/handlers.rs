//! What the service answers once an operation has ended: the response that
//! wraps its result, or the status and the text of its failure.

use vstd::prelude::*;
use vstd::string::*;
use crate::models::{FitnessData, Leaderboard, Prize, SuccessResponse};
use crate::operation::ServiceError;

verus! {

/// The parameters of a request for a user's totals.
#[derive(Debug, PartialEq, Eq)]
pub struct FitnessQuery {
    pub competition_id: String,
}

/// The parameters of a request for the standings.
#[derive(Clone, Copy, Debug, PartialEq, Eq, Structural)]
pub struct LeaderboardQuery {
    pub limit: isize,
}

/// The parameters of a request for a connection that relays score changes.
#[derive(Debug, PartialEq, Eq)]
pub struct WsQuery {
    pub token: String,
}

/// The status of an answer to a request that was served.
pub const STATUS_OK: u16 = 200;

/// The status of an answer to a request whose operation failed.
pub const STATUS_INTERNAL_SERVER_ERROR: u16 = 500;

/// What is said of the service's health.
#[derive(Debug, PartialEq, Eq)]
pub struct HealthReport {
    pub status: String,
    pub service: String,
}

/// The text of the answer to a prize distribution for `competition`.
pub open spec fn distribution_text(competition: Seq<char>) -> Seq<char> {
    "Prizes distribution initiated for "@ + competition
}

/// `answer` is the success that carries `data` and no message, or the
/// failure of `outcome` with the status 500 and the text of its error.
pub open spec fn answers<T>(
    answer: Result<SuccessResponse<T>, (u16, String)>,
    outcome: Result<T, ServiceError>,
) -> bool {
    match (answer, outcome) {
        (Ok(response), Ok(data)) => response.success && response.data == Some(data)
            && response.message is None,
        (Err(failure), Err(error)) => failure.0 == STATUS_INTERNAL_SERVER_ERROR && failure.1@
            == error.message_text(),
        _ => false,
    }
}

/// `answer` is the success that carries the text `data` and the message
/// `Success`, or the failure of `outcome` with the status 500 and the text
/// of its error.
pub open spec fn acknowledges(
    answer: Result<SuccessResponse<String>, (u16, String)>,
    outcome: Result<(), ServiceError>,
    data: Seq<char>,
) -> bool {
    match (answer, outcome) {
        (Ok(response), Ok(_)) => response.success && (response.data matches Some(text) && text@
            == data) && (response.message matches Some(message) && message@ == "Success"@),
        (Err(failure), Err(error)) => failure.0 == STATUS_INTERNAL_SERVER_ERROR && failure.1@
            == error.message_text(),
        _ => false,
    }
}

fn respond<T>(outcome: Result<T, ServiceError>) -> (answer: Result<SuccessResponse<T>, (u16, String)>)
    ensures
        answers(answer, outcome),
{
    match outcome {
        Ok(data) => Ok(SuccessResponse::new(data)),
        Err(error) => Err((STATUS_INTERNAL_SERVER_ERROR, error.message())),
    }
}

fn acknowledge(outcome: Result<(), ServiceError>, data: &str) -> (answer: Result<
    SuccessResponse<String>,
    (u16, String),
>)
    ensures
        acknowledges(answer, outcome, data@),
{
    match outcome {
        Ok(_) => Ok(SuccessResponse::with_message(data.to_owned(), "Success".to_owned())),
        Err(error) => Err((STATUS_INTERNAL_SERVER_ERROR, error.message())),
    }
}

/// The answer to a submission of activity.
pub fn sync_fitness_data(outcome: Result<(), ServiceError>) -> (answer: Result<
    SuccessResponse<String>,
    (u16, String),
>)
    ensures
        acknowledges(answer, outcome, "Fitness data synced successfully"@),
{
    acknowledge(outcome, "Fitness data synced successfully")
}

/// The answer to a request for a user's totals.
pub fn get_user_stats(outcome: Result<FitnessData, ServiceError>) -> (answer: Result<
    SuccessResponse<FitnessData>,
    (u16, String),
>)
    ensures
        answers(answer, outcome),
{
    respond(outcome)
}

/// The answer to a request for the standings.
pub fn get_leaderboard(outcome: Result<Leaderboard, ServiceError>) -> (answer: Result<
    SuccessResponse<Leaderboard>,
    (u16, String),
>)
    ensures
        answers(answer, outcome),
{
    respond(outcome)
}

/// The answer to a new score.
pub fn update_score(outcome: Result<(), ServiceError>) -> (answer: Result<
    SuccessResponse<String>,
    (u16, String),
>)
    ensures
        acknowledges(answer, outcome, "Score updated successfully"@),
{
    acknowledge(outcome, "Score updated successfully")
}

/// The answer to a calculation of prizes.
pub fn calculate_prizes(outcome: Result<Vec<Prize>, ServiceError>) -> (answer: Result<
    SuccessResponse<Vec<Prize>>,
    (u16, String),
>)
    ensures
        answers(answer, outcome),
{
    respond(outcome)
}

/// The answer to a request to distribute the prizes of `competition_id`:
/// the distribution itself is not a matter of this service.
pub fn distribute_prizes(competition_id: &str) -> (response: SuccessResponse<String>)
    ensures
        response.success,
        response.data matches Some(text) && text@ == distribution_text(competition_id@),
        response.message matches Some(message) && message@ == "Success"@,
{
    let mut text = "Prizes distribution initiated for ".to_owned();
    text.append(competition_id);
    SuccessResponse::with_message(text, "Success".to_owned())
}

/// The answer to a question after the service's health.
pub fn health_check() -> (answer: (u16, HealthReport))
    ensures
        answer.0 == STATUS_OK,
        answer.1.status@ == "healthy"@,
        answer.1.service@ == "rust-backend"@,
{
    (STATUS_OK, HealthReport { status: "healthy".to_owned(), service: "rust-backend".to_owned() })
}

} // verus!
