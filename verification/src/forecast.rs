//! Which of a location's times counts: the forecast types and the choice
//! they make between the estimated and the actual time.

use crate::fields::{optional, optional_text, optional_timestamp, text_of, timestamp_of};
use crate::parsable::{Failure, ParsingError};
use crate::text::{same_text, text_view};
use crate::time::Timestamp;
use crate::traversable::Traversable;
use crate::tree::{first_named, Tree};
use vstd::prelude::*;

verus! {

/// How far a time of arrival or departure can be relied on.
#[derive(Clone, Copy, Debug, PartialEq, Eq, Structural)]
pub enum ForecastType {
    /// The time is an estimate.
    Estimated,
    /// The time is the time at which the train did arrive or depart.
    Actual,
    /// The train is known to have passed, but no report of it came in.
    NoLog,
    /// It is not known whether the train has passed.
    NoReport,
    /// The train is delayed by an unknown amount: estimates are uncertain.
    Delayed,
}

impl ForecastType {
    /// The forecast type that the feed writes as `text`.
    pub open spec fn named(text: Seq<char>) -> Option<ForecastType> {
        if text == "Forecast"@ {
            Some(ForecastType::Estimated)
        } else if text == "Actual"@ {
            Some(ForecastType::Actual)
        } else if text == "NoLog"@ {
            Some(ForecastType::NoLog)
        } else if text == "NoReport"@ {
            Some(ForecastType::NoReport)
        } else if text == "Delayed"@ {
            Some(ForecastType::Delayed)
        } else {
            None
        }
    }

    /// The forecast type that the feed writes as `text`.
    pub fn from_name(text: &str) -> (r: Option<ForecastType>)
        ensures
            r == ForecastType::named(text@),
    {
        if same_text(text, "Forecast") {
            Some(ForecastType::Estimated)
        } else if same_text(text, "Actual") {
            Some(ForecastType::Actual)
        } else if same_text(text, "NoLog") {
            Some(ForecastType::NoLog)
        } else if same_text(text, "NoReport") {
            Some(ForecastType::NoReport)
        } else if same_text(text, "Delayed") {
            Some(ForecastType::Delayed)
        } else {
            None
        }
    }
}

/// The tags under which a location holds its times for one direction.
#[derive(Clone, Copy, Debug, PartialEq, Eq)]
pub struct TimeTags<'a> {
    /// The tag of the scheduled time.
    pub scheduled: &'a str,
    /// The tag of the forecast type.
    pub forecast_type: &'a str,
    /// The tag of the estimated time.
    pub estimated: &'a str,
    /// The tag of the actual time.
    pub actual: &'a str,
    /// The tag of the source of the times.
    pub source: &'a str,
}

/// [`TimeTags`] as sequences of characters.
pub struct TagNames {
    pub scheduled: Seq<char>,
    pub forecast_type: Seq<char>,
    pub estimated: Seq<char>,
    pub actual: Seq<char>,
    pub source: Seq<char>,
}

impl<'a> View for TimeTags<'a> {
    type V = TagNames;

    open spec fn view(&self) -> TagNames {
        TagNames {
            scheduled: self.scheduled@,
            forecast_type: self.forecast_type@,
            estimated: self.estimated@,
            actual: self.actual@,
            source: self.source@,
        }
    }
}

/// The tags of a location's times of arrival.
pub open spec fn arrival_names() -> TagNames {
    TagNames {
        scheduled: "sta"@,
        forecast_type: "arrivalType"@,
        estimated: "eta"@,
        actual: "ata"@,
        source: "arrivalSource"@,
    }
}

/// The tags of a location's times of departure.
pub open spec fn departure_names() -> TagNames {
    TagNames {
        scheduled: "std"@,
        forecast_type: "departureType"@,
        estimated: "etd"@,
        actual: "atd"@,
        source: "departureSource"@,
    }
}

/// The tags of a location's times of arrival.
pub fn arrival_tags() -> (r: TimeTags<'static>)
    ensures
        r@ == arrival_names(),
{
    TimeTags {
        scheduled: "sta",
        forecast_type: "arrivalType",
        estimated: "eta",
        actual: "ata",
        source: "arrivalSource",
    }
}

/// The tags of a location's times of departure.
pub fn departure_tags() -> (r: TimeTags<'static>)
    ensures
        r@ == departure_names(),
{
    TimeTags {
        scheduled: "std",
        forecast_type: "departureType",
        estimated: "etd",
        actual: "atd",
        source: "departureSource",
    }
}

/// A train's arrival at a location, or its departure from it.
#[derive(Clone, Debug, PartialEq, Eq)]
pub struct Timing {
    /// The time that the schedule gives.
    pub scheduled: Timestamp,
    /// The time that counts now: the estimate or the actual time, as the
    /// forecast type chooses; absent where it chooses none or the chosen one
    /// is not there.
    pub resolved: Option<Timestamp>,
    /// How far `resolved` can be relied on.
    pub forecast_type: Option<ForecastType>,
    /// Where the times come from.
    pub source: Option<String>,
}

/// A [`Timing`] with its source taken as a sequence of characters.
pub struct TimingView {
    pub scheduled: Timestamp,
    pub resolved: Option<Timestamp>,
    pub forecast_type: Option<ForecastType>,
    pub source: Option<Seq<char>>,
}

impl View for Timing {
    type V = TimingView;

    open spec fn view(&self) -> TimingView {
        TimingView {
            scheduled: self.scheduled,
            resolved: self.resolved,
            forecast_type: self.forecast_type,
            source: text_view(self.source),
        }
    }
}

/// The forecast type under the tag `name`: none where the tag is absent, a
/// failure where its text is outside the closed set.
pub open spec fn forecast_of(t: Tree, name: Seq<char>) -> Result<Option<ForecastType>, Failure> {
    match first_named(t.kids, name) {
        None => Ok(None),
        Some(c) => match ForecastType::named(c.text) {
            Some(f) => Ok(Some(f)),
            None => Err(Failure::InvalidForecast(c.text)),
        },
    }
}

/// The time that counts under a forecast type: the estimate for an estimated
/// or a delayed train, the actual time for one that has been reported, none
/// otherwise. A time that is absent or unreadable counts as none.
pub open spec fn resolved_of(t: Tree, names: TagNames, forecast: Option<ForecastType>) -> Option<
    Timestamp,
> {
    match forecast {
        Some(ForecastType::Estimated) | Some(ForecastType::Delayed) => optional(
            timestamp_of(t, names.estimated),
        ),
        Some(ForecastType::Actual) => optional(timestamp_of(t, names.actual)),
        _ => None,
    }
}

/// What a location says of one direction. An unknown forecast type is the
/// only failure, and it fails whether a scheduled time is there or not. A
/// location without a readable scheduled time has no record for the
/// direction at all, whatever times and source it holds.
pub open spec fn timing_of(t: Tree, names: TagNames) -> Result<Option<TimingView>, Failure> {
    match forecast_of(t, names.forecast_type) {
        Err(e) => Err(e),
        Ok(forecast) => match optional(timestamp_of(t, names.scheduled)) {
            None => Ok(None),
            Some(scheduled) => Ok(
                Some(
                    TimingView {
                        scheduled,
                        resolved: resolved_of(t, names, forecast),
                        forecast_type: forecast,
                        source: optional(text_of(t, names.source)),
                    },
                ),
            ),
        },
    }
}

/// A location without a scheduled time has no record for the direction,
/// whatever estimate, actual time or source it holds: unless its forecast
/// type is unknown, which fails, resolving gives nothing.
pub proof fn lemma_no_schedule_no_record(t: Tree, names: TagNames)
    requires
        first_named(t.kids, names.scheduled) is None,
    ensures
        timing_of(t, names) is Ok ==> timing_of(t, names) == Ok::<Option<TimingView>, Failure>(
            None,
        ),
{
}

/// Under the forecast type `Forecast` the estimate counts: with a scheduled
/// time and an estimate that can be read, the resolved time is the estimate,
/// whether an actual time is there or not.
pub proof fn lemma_forecast_resolves_to_estimate(
    t: Tree,
    names: TagNames,
    kind: Tree,
    scheduled: Timestamp,
    estimate: Timestamp,
)
    requires
        first_named(t.kids, names.forecast_type) == Some(kind),
        kind.text == "Forecast"@,
        timestamp_of(t, names.scheduled) == Ok::<Timestamp, Failure>(scheduled),
        timestamp_of(t, names.estimated) == Ok::<Timestamp, Failure>(estimate),
    ensures
        timing_of(t, names) matches Ok(Some(timing)) && timing.scheduled == scheduled
            && timing.resolved == Some(estimate) && timing.forecast_type == Some(
            ForecastType::Estimated,
        ),
{
}

/// Under the forecast type `Actual` only the actual time counts: without one
/// the resolved time is absent, though the scheduled time is there and
/// whether an estimate is there or not.
pub proof fn lemma_actual_without_time_is_unresolved(
    t: Tree,
    names: TagNames,
    kind: Tree,
    scheduled: Timestamp,
)
    requires
        first_named(t.kids, names.forecast_type) == Some(kind),
        kind.text == "Actual"@,
        timestamp_of(t, names.scheduled) == Ok::<Timestamp, Failure>(scheduled),
        first_named(t.kids, names.actual) is None,
    ensures
        timing_of(t, names) matches Ok(Some(timing)) && timing.scheduled == scheduled
            && timing.resolved is None && timing.forecast_type == Some(ForecastType::Actual),
{
    reveal_strlit("Forecast");
    reveal_strlit("Actual");
    assert("Actual"@.len() != "Forecast"@.len());
}

/// Whether a result of resolving is the given outcome.
pub open spec fn gives_timing(
    r: Result<Option<Timing>, ParsingError>,
    outcome: Result<Option<TimingView>, Failure>,
) -> bool {
    match r {
        Ok(Some(v)) => outcome == Ok::<Option<TimingView>, Failure>(Some(v@)),
        Ok(None) => outcome == Ok::<Option<TimingView>, Failure>(None),
        Err(e) => outcome == Err::<Option<TimingView>, Failure>(e@),
    }
}

/// Reads the forecast type under the tag `name`.
pub fn read_forecast<T: Traversable>(node: &T, name: &str) -> (r: Result<
    Option<ForecastType>,
    ParsingError,
>)
    ensures
        match r {
            Ok(f) => forecast_of(node.tree(), name@) == Ok::<Option<ForecastType>, Failure>(f),
            Err(e) => forecast_of(node.tree(), name@) == Err::<Option<ForecastType>, Failure>(
                e@,
            ),
        },
{
    match node.child(name) {
        Err(_) => Ok(None),
        Ok(c) => {
            let text = c.get_text();
            match ForecastType::from_name(text.as_str()) {
                Some(f) => Ok(Some(f)),
                None => Err(ParsingError::InvalidForecast(text)),
            }
        },
    }
}

/// Resolves a location's times for the direction whose tags are `tags`.
pub fn resolve<T: Traversable>(node: &T, tags: TimeTags) -> (r: Result<
    Option<Timing>,
    ParsingError,
>)
    ensures
        gives_timing(r, timing_of(node.tree(), tags@)),
{
    let forecast_type = match read_forecast(node, tags.forecast_type) {
        Ok(f) => f,
        Err(e) => {
            return Err(e);
        },
    };
    let scheduled = match optional_timestamp(node, tags.scheduled) {
        Some(v) => v,
        None => {
            return Ok(None);
        },
    };
    let resolved = match forecast_type {
        Some(ForecastType::Estimated) | Some(ForecastType::Delayed) => optional_timestamp(
            node,
            tags.estimated,
        ),
        Some(ForecastType::Actual) => optional_timestamp(node, tags.actual),
        _ => None,
    };
    let source = optional_text(node, tags.source);
    Ok(Some(Timing { scheduled, resolved, forecast_type, source }))
}

} // verus!
