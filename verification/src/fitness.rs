//! Taking in a day's activity and keeping the running totals of a user.
//!
//! A sample is stored under the user, the competition and the calendar day,
//! so a second submission for the same day replaces the first. The totals
//! are read, raised by the sample and written back: they count every
//! submission, also one that replaced an earlier sample.

use vstd::prelude::*;
use crate::keys::{
    fitness_key, fitness_key_text, fitness_stats_key, fitness_stats_key_text, sample_id,
    sample_id_text,
};
use crate::models::{FitnessData, FitnessDataView, FitnessSyncRequest};
use crate::port::{
    CacheError, CacheValue, CacheValueView, Command, CommandView, Reply, ReplyView, ValueKind,
};
use crate::operation::{Expected, ServiceError, Step};
use crate::time::Timestamp;

verus! {

/// The seconds for which samples and totals are kept: thirty days.
pub const FITNESS_TTL_SECS: u64 = 2592000;

/// The sample that a submission stands for, taken in at `now`.
pub open spec fn sample_of(
    user: Seq<char>,
    competition: Seq<char>,
    steps: i64,
    distance: i64,
    calories: i64,
    active_minutes: i32,
    source: Seq<char>,
    date: Timestamp,
    now: Timestamp,
) -> FitnessDataView {
    FitnessDataView {
        id: sample_id_text(user, competition, date.secs),
        user_id: user,
        competition_id: competition,
        steps,
        distance,
        calories,
        active_minutes,
        source,
        date,
        synced_at: now,
        created_at: now,
    }
}

/// The totals of a user of whom nothing has been counted yet.
pub open spec fn zero_totals(
    user: Seq<char>,
    competition: Seq<char>,
    source: Seq<char>,
    now: Timestamp,
) -> FitnessDataView {
    FitnessDataView {
        id: Seq::empty(),
        user_id: user,
        competition_id: competition,
        steps: 0,
        distance: 0,
        calories: 0,
        active_minutes: 0,
        source,
        date: now,
        synced_at: now,
        created_at: now,
    }
}

/// Raising `totals` by `sample` leaves every sum within its number type.
pub open spec fn totals_fit(totals: FitnessDataView, sample: FitnessDataView) -> bool {
    &&& i64::MIN <= totals.steps + sample.steps <= i64::MAX
    &&& i64::MIN <= totals.distance + sample.distance <= i64::MAX
    &&& i64::MIN <= totals.calories + sample.calories <= i64::MAX
    &&& i32::MIN <= totals.active_minutes + sample.active_minutes <= i32::MAX
}

/// `totals` raised by `sample` at `now`: the four sums, the sample's source
/// and the moment; all else stays.
pub open spec fn raised(totals: FitnessDataView, sample: FitnessDataView, now: Timestamp)
    -> FitnessDataView {
    FitnessDataView {
        steps: (totals.steps + sample.steps) as i64,
        distance: (totals.distance + sample.distance) as i64,
        calories: (totals.calories + sample.calories) as i64,
        active_minutes: (totals.active_minutes + sample.active_minutes) as i32,
        source: sample.source,
        synced_at: now,
        ..totals
    }
}

/// The totals of a user of whom nothing has been counted yet.
pub fn new_totals(user: &str, competition: &str, source: &str, now: Timestamp) -> (totals:
    FitnessData)
    ensures
        totals@ == zero_totals(user@, competition@, source@, now),
{
    FitnessData {
        id: String::new(),
        user_id: user.to_owned(),
        competition_id: competition.to_owned(),
        steps: 0,
        distance: 0,
        calories: 0,
        active_minutes: 0,
        source: source.to_owned(),
        date: now,
        synced_at: now,
        created_at: now,
    }
}

/// Raises `totals` by `sample` at `now`, unless a sum would leave its number
/// type.
pub fn raise(totals: FitnessData, sample: &FitnessData, now: Timestamp) -> (sum: Option<
    FitnessData,
>)
    ensures
        match sum {
            Some(data) => totals_fit(totals@, sample@) && data@ == raised(totals@, sample@, now),
            None => !totals_fit(totals@, sample@),
        },
{
    let steps = totals.steps.checked_add(sample.steps);
    let distance = totals.distance.checked_add(sample.distance);
    let calories = totals.calories.checked_add(sample.calories);
    let active_minutes = totals.active_minutes.checked_add(sample.active_minutes);
    match (steps, distance, calories, active_minutes) {
        (Some(steps), Some(distance), Some(calories), Some(active_minutes)) => Some(
            FitnessData {
                id: totals.id,
                user_id: totals.user_id,
                competition_id: totals.competition_id,
                steps,
                distance,
                calories,
                active_minutes,
                source: sample.source.clone(),
                date: totals.date,
                synced_at: now,
                created_at: totals.created_at,
            },
        ),
        _ => None,
    }
}

/// The taking in of a submission that is under way.
#[derive(Debug, PartialEq, Eq)]
pub enum FitnessSync {
    /// The sample is being stored.
    Sample { sample: FitnessData, now: Timestamp },
    /// The totals are being read.
    Totals { sample: FitnessData, now: Timestamp },
    /// The raised totals are being stored.
    Writing,
}

pub enum FitnessSyncView {
    Sample { sample: FitnessDataView, now: Timestamp },
    Totals { sample: FitnessDataView, now: Timestamp },
    Writing,
}

impl View for FitnessSync {
    type V = FitnessSyncView;

    open spec fn view(&self) -> FitnessSyncView {
        match self {
            FitnessSync::Sample { sample, now } => FitnessSyncView::Sample {
                sample: sample@,
                now: *now,
            },
            FitnessSync::Totals { sample, now } => FitnessSyncView::Totals {
                sample: sample@,
                now: *now,
            },
            FitnessSync::Writing => FitnessSyncView::Writing,
        }
    }
}

impl FitnessSyncView {
    /// The command that stores `data` as the totals of its user.
    pub open spec fn totals_command(data: FitnessDataView) -> CommandView {
        CommandView::Put {
            key: fitness_stats_key_text(data.user_id, data.competition_id),
            value: CacheValueView::Fitness(data),
            ttl_secs: FITNESS_TTL_SECS,
        }
    }

    /// How taking in `sample` begins, where `day` is the calendar day of its
    /// date: without a day it fails, else the sample is stored under it.
    pub open spec fn begin(sample: FitnessDataView, day: Option<Seq<char>>, now: Timestamp)
        -> Expected<FitnessSyncView, ()> {
        match day {
            Some(text) => Expected::Ask(
                FitnessSyncView::Sample { sample, now },
                CommandView::Put {
                    key: fitness_key_text(sample.user_id, sample.competition_id, text),
                    value: CacheValueView::Fitness(sample),
                    ttl_secs: FITNESS_TTL_SECS,
                },
            ),
            None => Expected::Finished(Err(ServiceError::InvalidDate)),
        }
    }

    /// What comes after the totals `totals` were read: they are raised by
    /// `sample` and stored, unless a sum leaves its number type.
    pub open spec fn add(totals: FitnessDataView, sample: FitnessDataView, now: Timestamp)
        -> Expected<FitnessSyncView, ()> {
        if totals_fit(totals, sample) {
            Expected::Ask(
                FitnessSyncView::Writing,
                CommandView::Put {
                    key: fitness_stats_key_text(sample.user_id, sample.competition_id),
                    value: CacheValueView::Fitness(raised(totals, sample, now)),
                    ttl_secs: FITNESS_TTL_SECS,
                },
            )
        } else {
            Expected::Finished(Err(ServiceError::TotalsOutOfRange))
        }
    }

    /// What the taking in does with `reply`.
    ///
    /// Totals that are not found count as zero; every other failure ends the
    /// operation.
    pub open spec fn step(self, reply: ReplyView) -> Expected<FitnessSyncView, ()> {
        match self {
            FitnessSyncView::Sample { sample, now } => match reply {
                ReplyView::Done => Expected::Ask(
                    FitnessSyncView::Totals { sample, now },
                    CommandView::Get {
                        key: fitness_stats_key_text(sample.user_id, sample.competition_id),
                        kind: ValueKind::Fitness,
                    },
                ),
                ReplyView::Failed(error) => Expected::Finished(Err(ServiceError::Cache(error))),
                _ => Expected::Finished(Err(ServiceError::UnexpectedReply)),
            },
            FitnessSyncView::Totals { sample, now } => match reply {
                ReplyView::Value(CacheValueView::Fitness(totals)) => Self::add(totals, sample, now),
                ReplyView::Failed(CacheError::NotFound) => Self::add(
                    zero_totals(sample.user_id, sample.competition_id, sample.source, now),
                    sample,
                    now,
                ),
                ReplyView::Failed(error) => Expected::Finished(Err(ServiceError::Cache(error))),
                _ => Expected::Finished(Err(ServiceError::UnexpectedReply)),
            },
            FitnessSyncView::Writing => match reply {
                ReplyView::Done => Expected::Finished(Ok(())),
                ReplyView::Failed(error) => Expected::Finished(Err(ServiceError::Cache(error))),
                _ => Expected::Finished(Err(ServiceError::UnexpectedReply)),
            },
        }
    }
}

/// `step` is what `expected` says, view for view.
pub open spec fn sync_agrees(step: Step<FitnessSync, ()>, expected: Expected<FitnessSyncView, ()>)
    -> bool {
    match (step, expected) {
        (Step::Ask(sync, command), Expected::Ask(sync_view, command_view)) => sync@ == sync_view
            && command@ == command_view,
        (Step::Finished(Ok(_)), Expected::Finished(Ok(_))) => true,
        (Step::Finished(Err(error)), Expected::Finished(Err(expected_error))) => error
            == expected_error,
        _ => false,
    }
}

/// The sample that `request` stands for, taken in at `now`.
pub open spec fn request_sample(request: FitnessSyncRequest, now: Timestamp) -> FitnessDataView {
    sample_of(
        request.user_id@,
        request.competition_id@,
        request.steps,
        request.distance,
        request.calories,
        request.active_minutes,
        request.source@,
        request.date,
        now,
    )
}

impl FitnessSync {
    /// Begins taking in `request` at `now`, where `day` is the calendar day
    /// of the request's date, if it has one.
    pub fn begin(request: &FitnessSyncRequest, day: Option<String>, now: Timestamp) -> (step: Step<
        FitnessSync,
        (),
    >)
        ensures
            sync_agrees(
                step,
                FitnessSyncView::begin(
                    request_sample(*request, now),
                    match day {
                        Some(text) => Some(text@),
                        None => None,
                    },
                    now,
                ),
            ),
    {
        match day {
            Some(text) => {
                let sample = FitnessData {
                    id: sample_id(
                        request.user_id.as_str(),
                        request.competition_id.as_str(),
                        request.date.secs,
                    ),
                    user_id: request.user_id.clone(),
                    competition_id: request.competition_id.clone(),
                    steps: request.steps,
                    distance: request.distance,
                    calories: request.calories,
                    active_minutes: request.active_minutes,
                    source: request.source.clone(),
                    date: request.date,
                    synced_at: now,
                    created_at: now,
                };
                let key = fitness_key(
                    request.user_id.as_str(),
                    request.competition_id.as_str(),
                    text.as_str(),
                );
                let stored = sample.clone();
                Step::Ask(
                    FitnessSync::Sample { sample, now },
                    Command::Put {
                        key,
                        value: CacheValue::Fitness(stored),
                        ttl_secs: FITNESS_TTL_SECS,
                    },
                )
            },
            None => Step::Finished(Err(ServiceError::InvalidDate)),
        }
    }

    /// Begins taking in `request` at `now`. The calendar day under which the
    /// sample is stored is the UTC day of the request's date.
    pub fn start(request: &FitnessSyncRequest, now: Timestamp) -> (step: Step<FitnessSync, ()>)
        ensures
            sync_agrees(
                step,
                FitnessSyncView::begin(request_sample(*request, now), request.date.day_text(), now),
            ),
    {
        let day = request.date.calendar_day();
        Self::begin(request, day, now)
    }

    fn add(totals: FitnessData, sample: &FitnessData, now: Timestamp) -> (step: Step<
        FitnessSync,
        (),
    >)
        ensures
            sync_agrees(step, FitnessSyncView::add(totals@, sample@, now)),
    {
        let key = fitness_stats_key(sample.user_id.as_str(), sample.competition_id.as_str());
        match raise(totals, sample, now) {
            Some(sum) => Step::Ask(
                FitnessSync::Writing,
                Command::Put { key, value: CacheValue::Fitness(sum), ttl_secs: FITNESS_TTL_SECS },
            ),
            None => Step::Finished(Err(ServiceError::TotalsOutOfRange)),
        }
    }

    /// Takes the reply to the command that this operation asked last, and
    /// says what comes next.
    pub fn step(self, reply: Reply) -> (step: Step<FitnessSync, ()>)
        ensures
            sync_agrees(step, self@.step(reply@)),
    {
        match self {
            FitnessSync::Sample { sample, now } => match reply {
                Reply::Done => {
                    let key = fitness_stats_key(
                        sample.user_id.as_str(),
                        sample.competition_id.as_str(),
                    );
                    Step::Ask(
                        FitnessSync::Totals { sample, now },
                        Command::Get { key, kind: ValueKind::Fitness },
                    )
                },
                Reply::Failed(error) => Step::Finished(Err(ServiceError::Cache(error))),
                _ => Step::Finished(Err(ServiceError::UnexpectedReply)),
            },
            FitnessSync::Totals { sample, now } => match reply {
                Reply::Value(CacheValue::Fitness(totals)) => Self::add(totals, &sample, now),
                Reply::Failed(CacheError::NotFound) => {
                    let totals = new_totals(
                        sample.user_id.as_str(),
                        sample.competition_id.as_str(),
                        sample.source.as_str(),
                        now,
                    );
                    Self::add(totals, &sample, now)
                },
                Reply::Failed(error) => Step::Finished(Err(ServiceError::Cache(error))),
                _ => Step::Finished(Err(ServiceError::UnexpectedReply)),
            },
            FitnessSync::Writing => match reply {
                Reply::Done => Step::Finished(Ok(())),
                Reply::Failed(error) => Step::Finished(Err(ServiceError::Cache(error))),
                _ => Step::Finished(Err(ServiceError::UnexpectedReply)),
            },
        }
    }
}

/// A read of a user's totals that is under way.
#[derive(Debug, PartialEq, Eq)]
pub struct StatsRead {
    pub user_id: String,
    pub competition_id: String,
    pub now: Timestamp,
}

pub struct StatsReadView {
    pub user_id: Seq<char>,
    pub competition_id: Seq<char>,
    pub now: Timestamp,
}

impl View for StatsRead {
    type V = StatsReadView;

    open spec fn view(&self) -> StatsReadView {
        StatsReadView {
            user_id: self.user_id@,
            competition_id: self.competition_id@,
            now: self.now,
        }
    }
}

impl StatsReadView {
    /// The one command of the read.
    pub open spec fn first_command(user: Seq<char>, competition: Seq<char>) -> CommandView {
        CommandView::Get {
            key: fitness_stats_key_text(user, competition),
            kind: ValueKind::Fitness,
        }
    }

    /// What the read returns for `reply`: the totals that were found, zero
    /// totals where none were found, and the failure of the command else.
    pub open spec fn outcome(self, reply: ReplyView) -> Result<FitnessDataView, ServiceError> {
        match reply {
            ReplyView::Value(CacheValueView::Fitness(totals)) => Ok(totals),
            ReplyView::Failed(CacheError::NotFound) => Ok(
                zero_totals(self.user_id, self.competition_id, Seq::empty(), self.now),
            ),
            ReplyView::Failed(error) => Err(ServiceError::Cache(error)),
            _ => Err(ServiceError::UnexpectedReply),
        }
    }
}

/// `found` is what `expected` says, view for view.
pub open spec fn stats_agree(
    found: Result<FitnessData, ServiceError>,
    expected: Result<FitnessDataView, ServiceError>,
) -> bool {
    match (found, expected) {
        (Ok(data), Ok(view)) => data@ == view,
        (Err(error), Err(expected_error)) => error == expected_error,
        _ => false,
    }
}

impl StatsRead {
    /// Begins a read of the totals of a user in a competition, stamped
    /// `now`.
    pub fn start(user_id: &str, competition_id: &str, now: Timestamp) -> (begun: (
        StatsRead,
        Command,
    ))
        ensures
            begun.0@ == (StatsReadView { user_id: user_id@, competition_id: competition_id@, now }),
            begun.1@ == StatsReadView::first_command(user_id@, competition_id@),
    {
        let read = StatsRead {
            user_id: user_id.to_owned(),
            competition_id: competition_id.to_owned(),
            now,
        };
        let command = Command::Get {
            key: fitness_stats_key(user_id, competition_id),
            kind: ValueKind::Fitness,
        };
        (read, command)
    }

    /// Takes the reply to the read's command and gives the totals.
    pub fn finish(self, reply: Reply) -> (found: Result<FitnessData, ServiceError>)
        ensures
            stats_agree(found, self@.outcome(reply@)),
    {
        match reply {
            Reply::Value(CacheValue::Fitness(totals)) => Ok(totals),
            Reply::Failed(CacheError::NotFound) => {
                let mut totals = new_totals(
                    self.user_id.as_str(),
                    self.competition_id.as_str(),
                    "",
                    self.now,
                );
                totals.source = String::new();
                Ok(totals)
            },
            Reply::Failed(error) => Err(ServiceError::Cache(error)),
            _ => Err(ServiceError::UnexpectedReply),
        }
    }
}

} // verus!
