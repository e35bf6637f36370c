//! The schedule of one train service and its reading from a document.

use crate::activity::{
    activities_in, code_at, decode_activities, first_unknown_at, known_at, Activity,
};
use crate::associations::{invalid_tag, tag_failure, Association, Link};
use crate::fields::{
    date_of, failure_of, flag_of, optional, optional_bool, optional_text, require_date,
    require_text, require_timestamp, require_u16, require_u8, text_of, timestamp_of, u16_of,
    u8_of,
};
use crate::forecast::{
    arrival_names, arrival_tags, departure_names, departure_tags,
    lemma_actual_without_time_is_unresolved, lemma_forecast_resolves_to_estimate,
    lemma_no_schedule_no_record, resolve, timing_of, Timing, TimingView,
};
use crate::location::{
    optional_place_without_crs, place_view, place_without_crs, Location, Place,
};
use crate::parsable::{
    each, first_failure, lemma_each_fails_early, lemma_each_passes, lemma_failing_check_fails,
    lemma_first_failure_at, lemma_no_failure, parse_each, reads, trees, views, Failure,
    Parsable, ParsingError,
};
use crate::text::{decimal, digits_value, same_text, text_view, unsigned_digits};
use crate::time::{Date, Timestamp};
use crate::traversable::{child_of, find_tagged, Traversable};
use crate::tree::{first_named, first_tagged, Tree};
use crate::xml::{document_root, parse_document, parsed_document};
use vstd::prelude::*;

verus! {

/// When a train is at a location.
#[derive(Clone, Debug, PartialEq, Eq)]
pub struct ServiceTime {
    /// Its arrival; absent where the schedule gives no time of arrival, as at
    /// the origin.
    pub arrival: Option<Timing>,
    /// Its departure; absent where the schedule gives no time of departure,
    /// as at the destination.
    pub departure: Option<Timing>,
}

/// A [`ServiceTime`] by the views of its two records.
pub struct Times {
    pub arrival: Option<TimingView>,
    pub departure: Option<TimingView>,
}

/// An optional timing by its view.
pub open spec fn timing_view(timing: Option<Timing>) -> Option<TimingView> {
    match timing {
        Some(t) => Some(t@),
        None => None,
    }
}

impl View for ServiceTime {
    type V = Times;

    open spec fn view(&self) -> Times {
        Times { arrival: timing_view(self.arrival), departure: timing_view(self.departure) }
    }
}

/// A location in a service's schedule. Not every location is stopped at.
#[derive(Clone, Debug, PartialEq, Eq)]
pub struct ServiceLocation {
    /// The place.
    pub location: Location,
    /// The links to other services that take effect here.
    pub associations: Option<Vec<Association>>,
    /// Free-text alerts about this location.
    pub adhoc_alerts: Option<Vec<String>>,
    /// What the train does here.
    pub activities: Option<Vec<Activity>>,
    /// The train's length here, in units; absent where it is unknown.
    pub length: Option<u16>,
    /// Whether the front of the train is detached here.
    pub detach_front: bool,
    /// Whether this is an operational call: its times are working times.
    pub operational: bool,
    /// Whether the train passes here without stopping.
    pub pass: bool,
    /// Whether the service is cancelled here.
    pub cancelled: bool,
    /// A destination to show here in place of the real one.
    pub false_destination: Option<Location>,
    /// The platform, where it is known.
    pub platform: Option<u8>,
    /// Whether the platform is to be kept from the public.
    pub platform_hidden: bool,
    /// Whether the service is not to be shown at this location.
    pub suppressed: bool,
    /// When the train is here.
    pub time: ServiceTime,
    /// The lateness as the feed words it. Derive the lateness from the
    /// scheduled and the resolved times; this text is not fit to be read.
    pub lateness: Option<String>,
}

/// A [`ServiceLocation`] with its strings taken as sequences of characters.
pub struct Stop {
    pub location: Place,
    pub associations: Option<Seq<Link>>,
    pub adhoc_alerts: Option<Seq<Seq<char>>>,
    pub activities: Option<Seq<Activity>>,
    pub length: Option<u16>,
    pub detach_front: bool,
    pub operational: bool,
    pub pass: bool,
    pub cancelled: bool,
    pub false_destination: Option<Place>,
    pub platform: Option<u8>,
    pub platform_hidden: bool,
    pub suppressed: bool,
    pub time: Times,
    pub lateness: Option<Seq<char>>,
}

/// The characters of each of a list of strings.
pub open spec fn texts(list: Seq<String>) -> Seq<Seq<char>> {
    Seq::new(list.len(), |i: int| list[i]@)
}

impl View for ServiceLocation {
    type V = Stop;

    open spec fn view(&self) -> Stop {
        Stop {
            location: self.location@,
            associations: match self.associations {
                Some(list) => Some(views(list@)),
                None => None,
            },
            adhoc_alerts: match self.adhoc_alerts {
                Some(list) => Some(texts(list@)),
                None => None,
            },
            activities: match self.activities {
                Some(list) => Some(list@),
                None => None,
            },
            length: self.length,
            detach_front: self.detach_front,
            operational: self.operational,
            pass: self.pass,
            cancelled: self.cancelled,
            false_destination: place_view(self.false_destination),
            platform: self.platform,
            platform_hidden: self.platform_hidden,
            suppressed: self.suppressed,
            time: self.time@,
            lateness: text_view(self.lateness),
        }
    }
}

/// The links that a location holds: none where it has no `associations`
/// child, else one for each child of that child, the first failure among them
/// being the failure of all.
pub open spec fn associations_of(t: Tree) -> Result<Option<Seq<Link>>, Failure> {
    match first_named(t.kids, "associations"@) {
        None => Ok(None),
        Some(c) => match each(c.kids, |k: Tree| Association::reading(k)) {
            Ok(list) => Ok(Some(list)),
            Err(e) => Err(e),
        },
    }
}

/// The alerts that a location holds: none where it has no `adhocAlerts`
/// child, else the text of each child of that child.
pub open spec fn alerts_of(t: Tree) -> Option<Seq<Seq<char>>> {
    match first_named(t.kids, "adhocAlerts"@) {
        None => None,
        Some(c) => Some(Seq::new(c.kids.len(), |i: int| c.kids[i].text)),
    }
}

/// The activities that a location holds under `activities`.
pub open spec fn activities_of(t: Tree) -> Result<Option<Seq<Activity>>, Failure> {
    match text_of(t, "activities"@) {
        Err(e) => Err(e),
        Ok(text) => activities_in(text),
    }
}

/// The length that a location gives. A length that is absent, unreadable or
/// zero is no length.
pub open spec fn length_of(t: Tree) -> Option<u16> {
    match optional(u16_of(t, "length"@)) {
        Some(v) => if v == 0 {
            None
        } else {
            Some(v)
        },
        None => None,
    }
}

/// The checks that a location has to pass, in the order in which they are
/// made.
pub open spec fn location_checks(t: Tree) -> Seq<Option<Failure>> {
    seq![
        tag_failure(t, "location"@),
        failure_of(text_of(t, "locationName"@)),
        failure_of(associations_of(t)),
        failure_of(activities_of(t)),
        failure_of(flag_of(t, "detachFront"@, false)),
        failure_of(flag_of(t, "isOperational"@, false)),
        failure_of(flag_of(t, "isPass"@, false)),
        failure_of(flag_of(t, "isCancelled"@, false)),
        failure_of(flag_of(t, "platformIsHidden"@, false)),
        failure_of(flag_of(t, "serviceIsSupressed"@, false)),
        failure_of(timing_of(t, arrival_names())),
        failure_of(timing_of(t, departure_names())),
    ]
}

/// What a location that passes every check holds.
pub open spec fn location_record(t: Tree) -> Stop {
    Stop {
        location: Place {
            name: text_of(t, "locationName"@)->Ok_0,
            crs: optional(text_of(t, "crs"@)),
            tiploc: optional(text_of(t, "tiploc"@)),
        },
        associations: associations_of(t)->Ok_0,
        adhoc_alerts: alerts_of(t),
        activities: activities_of(t)->Ok_0,
        length: length_of(t),
        detach_front: flag_of(t, "detachFront"@, false)->Ok_0,
        operational: flag_of(t, "isOperational"@, false)->Ok_0,
        pass: flag_of(t, "isPass"@, false)->Ok_0,
        cancelled: flag_of(t, "isCancelled"@, false)->Ok_0,
        false_destination: place_without_crs(t, "falseDest"@, "fdTiploc"@),
        platform: optional(u8_of(t, "platform"@)),
        platform_hidden: flag_of(t, "platformIsHidden"@, false)->Ok_0,
        suppressed: flag_of(t, "serviceIsSupressed"@, false)->Ok_0,
        time: Times {
            arrival: timing_of(t, arrival_names())->Ok_0,
            departure: timing_of(t, departure_names())->Ok_0,
        },
        lateness: optional(text_of(t, "lateness"@)),
    }
}

/// A location whose activities field is empty has no list of activities.
pub proof fn lemma_empty_activities_are_absent(t: Tree)
    requires
        text_of(t, "activities"@) == Ok::<Seq<char>, Failure>(Seq::empty()),
    ensures
        activities_of(t) == Ok::<Option<Seq<Activity>>, Failure>(None),
        location_record(t).activities is None,
{
}

/// A location without `sta` has no record of arrival, whatever else it holds.
pub proof fn lemma_location_without_sta_has_no_arrival(t: Tree)
    requires
        first_named(t.kids, "sta"@) is None,
    ensures
        ServiceLocation::reading(t) matches Ok(stop) ==> stop.time.arrival is None,
{
    let checks = location_checks(t);
    if first_failure(checks) is None {
        if checks[10] is Some {
            lemma_failing_check_fails(checks, 10);
        }
        lemma_no_schedule_no_record(t, arrival_names());
    }
}

/// A location that says `Forecast` of its arrival and gives `sta` and `eta`
/// is read with the `eta` as its resolved time of arrival, whether it gives
/// an `ata` or not.
pub proof fn lemma_forecast_arrival_is_the_estimate(
    t: Tree,
    kind: Tree,
    scheduled: Timestamp,
    estimate: Timestamp,
)
    requires
        first_named(t.kids, "arrivalType"@) == Some(kind),
        kind.text == "Forecast"@,
        timestamp_of(t, "sta"@) == Ok::<Timestamp, Failure>(scheduled),
        timestamp_of(t, "eta"@) == Ok::<Timestamp, Failure>(estimate),
    ensures
        ServiceLocation::reading(t) matches Ok(stop) ==> stop.time.arrival matches Some(arrival)
            && arrival.scheduled == scheduled && arrival.resolved == Some(estimate),
{
    lemma_forecast_resolves_to_estimate(t, arrival_names(), kind, scheduled, estimate);
}

/// A location that says `Actual` of its arrival and gives `sta` but no `ata`
/// is read with its scheduled time of arrival and without a resolved one.
pub proof fn lemma_actual_arrival_without_ata_is_unresolved(
    t: Tree,
    kind: Tree,
    scheduled: Timestamp,
)
    requires
        first_named(t.kids, "arrivalType"@) == Some(kind),
        kind.text == "Actual"@,
        timestamp_of(t, "sta"@) == Ok::<Timestamp, Failure>(scheduled),
        first_named(t.kids, "ata"@) is None,
    ensures
        ServiceLocation::reading(t) matches Ok(stop) ==> stop.time.arrival matches Some(arrival)
            && arrival.scheduled == scheduled && arrival.resolved is None,
{
    lemma_actual_without_time_is_unresolved(t, arrival_names(), kind, scheduled);
}

/// A length written as `0` is no length.
pub proof fn lemma_zero_length_is_absent(t: Tree)
    requires
        text_of(t, "length"@) == Ok::<Seq<char>, Failure>("0"@),
    ensures
        length_of(t) is None,
        location_record(t).length is None,
{
    reveal_strlit("0");
    reveal_with_fuel(digits_value, 2);
    let c = child_of(t, "length"@)->Ok_0;
}

/// A location whose activities hold a code that stands for nothing fails
/// with that code, where nothing before the activities fails.
pub proof fn lemma_unknown_activity_fails_location(t: Tree, text: Seq<char>, k: int)
    requires
        forall|i: int| 0 <= i < 3 ==> location_checks(t)[i] is None,
        text_of(t, "activities"@) == Ok::<Seq<char>, Failure>(text),
        first_unknown_at(text, k),
    ensures
        ServiceLocation::reading(t) == Err::<Stop, Failure>(
            Failure::InvalidActivity(code_at(text, k)),
        ),
{
    let chosen = choose|j: int| first_unknown_at(text, j);
    if chosen < k {
        assert(known_at(text, chosen));
    }
    if k < chosen {
        assert(known_at(text, k));
    }
    lemma_first_failure_at(location_checks(t), 3);
}

/// Reads the links that a location holds.
fn read_associations<T: Traversable>(node: &T) -> (r: Result<
    Option<Vec<Association>>,
    ParsingError,
>)
    ensures
        match r {
            Ok(Some(list)) => associations_of(node.tree()) == Ok::<Option<Seq<Link>>, Failure>(
                Some(views(list@)),
            ),
            Ok(None) => associations_of(node.tree()) == Ok::<Option<Seq<Link>>, Failure>(None),
            Err(e) => associations_of(node.tree()) == Err::<Option<Seq<Link>>, Failure>(e@),
        },
{
    match node.child("associations") {
        Err(_) => Ok(None),
        Ok(c) => {
            let kids = c.children();
            assert(trees(kids@) =~= c.tree().kids);
            match parse_each::<Association, T>(&kids) {
                Ok(list) => Ok(Some(list)),
                Err(e) => Err(e),
            }
        },
    }
}

/// Reads the alerts that a location holds.
fn read_alerts<T: Traversable>(node: &T) -> (r: Option<Vec<String>>)
    ensures
        match r {
            Some(list) => alerts_of(node.tree()) == Some(texts(list@)),
            None => alerts_of(node.tree()) is None,
        },
{
    match node.child("adhocAlerts") {
        Err(_) => None,
        Ok(c) => {
            let kids = c.children();
            let mut out: Vec<String> = Vec::new();
            let mut i: usize = 0;
            while i < kids.len()
                invariant
                    i <= kids@.len(),
                    kids@.len() == c.tree().kids.len(),
                    forall|j: int|
                        0 <= j < kids@.len() ==> (#[trigger] kids@[j]).tree() == c.tree().kids[j],
                    out@.len() == i,
                    forall|j: int| 0 <= j < i ==> (#[trigger] out@[j])@ == c.tree().kids[j].text,
                decreases kids.len() - i,
            {
                let text = kids[i].get_text();
                out.push(text);
                i += 1;
            }
            Some(out)
        },
    }
}

/// Reads the activities that a location holds.
fn read_activities<T: Traversable>(node: &T) -> (r: Result<Option<Vec<Activity>>, ParsingError>)
    ensures
        match r {
            Ok(Some(list)) => activities_of(node.tree()) == Ok::<Option<Seq<Activity>>, Failure>(
                Some(list@),
            ),
            Ok(None) => activities_of(node.tree()) == Ok::<Option<Seq<Activity>>, Failure>(None),
            Err(e) => activities_of(node.tree()) == Err::<Option<Seq<Activity>>, Failure>(e@),
        },
{
    match require_text(node, "activities") {
        Err(e) => Err(e),
        Ok(text) => decode_activities(text.as_str()),
    }
}

/// Reads the length that a location gives.
fn read_length<T: Traversable>(node: &T) -> (r: Option<u16>)
    ensures
        r == length_of(node.tree()),
{
    match require_u16(node, "length") {
        Ok(v) => if v == 0 {
            None
        } else {
            Some(v)
        },
        Err(_) => None,
    }
}

/// Reads the platform that a location gives.
fn read_platform<T: Traversable>(node: &T) -> (r: Option<u8>)
    ensures
        r == optional(u8_of(node.tree(), "platform"@)),
{
    match require_u8(node, "platform") {
        Ok(v) => Some(v),
        Err(_) => None,
    }
}

impl Parsable for ServiceLocation {
    open spec fn reading(tree: Tree) -> Result<Stop, Failure> {
        match first_failure(location_checks(tree)) {
            Some(e) => Err(e),
            None => Ok(location_record(tree)),
        }
    }

    fn parse<T: Traversable>(from: &T) -> (r: Result<Self, ParsingError>) {
        let ghost checks = location_checks(from.tree());
        let tag = from.tag_name();
        if !same_text(tag.as_str(), "location") {
            proof {
                lemma_first_failure_at(checks, 0);
            }
            return Err(invalid_tag("location", tag));
        }
        let name = match require_text(from, "locationName") {
            Ok(v) => v,
            Err(e) => {
                proof {
                    lemma_first_failure_at(checks, 1);
                }
                return Err(e);
            },
        };
        let location = Location {
            name,
            crs: optional_text(from, "crs"),
            tiploc: optional_text(from, "tiploc"),
        };
        let associations = match read_associations(from) {
            Ok(v) => v,
            Err(e) => {
                proof {
                    lemma_first_failure_at(checks, 2);
                }
                return Err(e);
            },
        };
        let adhoc_alerts = read_alerts(from);
        let activities = match read_activities(from) {
            Ok(v) => v,
            Err(e) => {
                proof {
                    lemma_first_failure_at(checks, 3);
                }
                return Err(e);
            },
        };
        let length = read_length(from);
        let detach_front = match optional_bool(from, "detachFront", false) {
            Ok(v) => v,
            Err(e) => {
                proof {
                    lemma_first_failure_at(checks, 4);
                }
                return Err(e);
            },
        };
        let operational = match optional_bool(from, "isOperational", false) {
            Ok(v) => v,
            Err(e) => {
                proof {
                    lemma_first_failure_at(checks, 5);
                }
                return Err(e);
            },
        };
        let pass = match optional_bool(from, "isPass", false) {
            Ok(v) => v,
            Err(e) => {
                proof {
                    lemma_first_failure_at(checks, 6);
                }
                return Err(e);
            },
        };
        let cancelled = match optional_bool(from, "isCancelled", false) {
            Ok(v) => v,
            Err(e) => {
                proof {
                    lemma_first_failure_at(checks, 7);
                }
                return Err(e);
            },
        };
        let false_destination = optional_place_without_crs(from, "falseDest", "fdTiploc");
        let platform = read_platform(from);
        let platform_hidden = match optional_bool(from, "platformIsHidden", false) {
            Ok(v) => v,
            Err(e) => {
                proof {
                    lemma_first_failure_at(checks, 8);
                }
                return Err(e);
            },
        };
        let suppressed = match optional_bool(from, "serviceIsSupressed", false) {
            Ok(v) => v,
            Err(e) => {
                proof {
                    lemma_first_failure_at(checks, 9);
                }
                return Err(e);
            },
        };
        let arrival = match resolve(from, arrival_tags()) {
            Ok(v) => v,
            Err(e) => {
                proof {
                    lemma_first_failure_at(checks, 10);
                }
                return Err(e);
            },
        };
        let departure = match resolve(from, departure_tags()) {
            Ok(v) => v,
            Err(e) => {
                proof {
                    lemma_first_failure_at(checks, 11);
                }
                return Err(e);
            },
        };
        let lateness = optional_text(from, "lateness");
        proof {
            lemma_no_failure(checks);
        }
        Ok(
            ServiceLocation {
                location,
                associations,
                adhoc_alerts,
                activities,
                length,
                detach_front,
                operational,
                pass,
                cancelled,
                false_destination,
                platform,
                platform_hidden,
                suppressed,
                time: ServiceTime { arrival, departure },
                lateness,
            },
        )
    }
}

/// The schedule of one train service.
#[derive(Clone, Debug, PartialEq, Eq)]
pub struct ServiceDetails {
    /// When these details were generated.
    pub generated_at: Timestamp,
    /// The service's RTTI identifier.
    pub rid: String,
    /// The service's timetable identifier.
    pub uid: String,
    /// The service's retail identifier, if known.
    pub rsid: Option<String>,
    /// The service's headcode.
    pub trainid: String,
    /// The day on which the service is scheduled to depart.
    pub sdd: Date,
    /// Whether the service carries passengers. One that does not is not to be
    /// published.
    pub passenger_service: bool,
    /// Whether the service is a charter.
    pub charter: bool,
    /// The service's category code.
    pub category: String,
    /// The name of the operator.
    pub operator: String,
    /// The code of the operator.
    pub operator_code: String,
    /// Why the service is cancelled, where a reason is given.
    pub cancel_reason: Option<String>,
    /// Why the service is delayed, where a reason is given.
    pub delay_reason: Option<String>,
    /// Whether the train runs in the reverse of its usual formation.
    pub reverse_formation: bool,
    /// The locations of the schedule, in the order of the schedule.
    pub locations: Vec<ServiceLocation>,
}

/// A [`ServiceDetails`] with its strings taken as sequences of characters.
pub struct Schedule {
    pub generated_at: Timestamp,
    pub rid: Seq<char>,
    pub uid: Seq<char>,
    pub rsid: Option<Seq<char>>,
    pub trainid: Seq<char>,
    pub sdd: Date,
    pub passenger_service: bool,
    pub charter: bool,
    pub category: Seq<char>,
    pub operator: Seq<char>,
    pub operator_code: Seq<char>,
    pub cancel_reason: Option<Seq<char>>,
    pub delay_reason: Option<Seq<char>>,
    pub reverse_formation: bool,
    pub locations: Seq<Stop>,
}

impl View for ServiceDetails {
    type V = Schedule;

    open spec fn view(&self) -> Schedule {
        Schedule {
            generated_at: self.generated_at,
            rid: self.rid@,
            uid: self.uid@,
            rsid: text_view(self.rsid),
            trainid: self.trainid@,
            sdd: self.sdd,
            passenger_service: self.passenger_service,
            charter: self.charter,
            category: self.category@,
            operator: self.operator@,
            operator_code: self.operator_code@,
            cancel_reason: text_view(self.cancel_reason),
            delay_reason: text_view(self.delay_reason),
            reverse_formation: self.reverse_formation,
            locations: views(self.locations@),
        }
    }
}

/// The tag of the element that holds a service's details.
pub open spec fn result_tag() -> Seq<char> {
    "GetServiceDetailsResult"@
}

/// The failure of a service whose type is missing or is not `train`.
pub open spec fn service_type_failure(t: Tree) -> Option<Failure> {
    match text_of(t, "serviceType"@) {
        Err(e) => Some(e),
        Ok(text) => if text == "train"@ {
            None
        } else {
            Some(Failure::UnsupportedServiceType(text))
        },
    }
}

/// The locations of a service: one for each child of its `locations` child,
/// the first failure among them being the failure of all.
pub open spec fn locations_of(t: Tree) -> Result<Seq<Stop>, Failure> {
    match child_of(t, "locations"@) {
        Err(e) => Err(e),
        Ok(c) => each(c.kids, |k: Tree| ServiceLocation::reading(k)),
    }
}

/// The checks that a service has to pass, in the order in which they are
/// made.
pub open spec fn service_checks(t: Tree) -> Seq<Option<Failure>> {
    seq![
        tag_failure(t, result_tag()),
        service_type_failure(t),
        failure_of(timestamp_of(t, "generatedAt"@)),
        failure_of(text_of(t, "rid"@)),
        failure_of(text_of(t, "uid"@)),
        failure_of(text_of(t, "trainid"@)),
        failure_of(date_of(t, "sdd"@)),
        failure_of(flag_of(t, "isPassengerService"@, true)),
        failure_of(flag_of(t, "isCharter"@, false)),
        failure_of(text_of(t, "category"@)),
        failure_of(text_of(t, "operator"@)),
        failure_of(text_of(t, "operatorCode"@)),
        failure_of(flag_of(t, "isReverseFormation"@, false)),
        failure_of(locations_of(t)),
    ]
}

/// What a service that passes every check holds.
pub open spec fn service_record(t: Tree) -> Schedule {
    Schedule {
        generated_at: timestamp_of(t, "generatedAt"@)->Ok_0,
        rid: text_of(t, "rid"@)->Ok_0,
        uid: text_of(t, "uid"@)->Ok_0,
        rsid: optional(text_of(t, "rsid"@)),
        trainid: text_of(t, "trainid"@)->Ok_0,
        sdd: date_of(t, "sdd"@)->Ok_0,
        passenger_service: flag_of(t, "isPassengerService"@, true)->Ok_0,
        charter: flag_of(t, "isCharter"@, false)->Ok_0,
        category: text_of(t, "category"@)->Ok_0,
        operator: text_of(t, "operator"@)->Ok_0,
        operator_code: text_of(t, "operatorCode"@)->Ok_0,
        cancel_reason: optional(text_of(t, "cancelReason"@)),
        delay_reason: optional(text_of(t, "delayReason"@)),
        reverse_formation: flag_of(t, "isReverseFormation"@, false)->Ok_0,
        locations: locations_of(t)->Ok_0,
    }
}

/// Checks that a service is a train.
fn check_service_type<T: Traversable>(node: &T) -> (r: Result<(), ParsingError>)
    ensures
        match r {
            Ok(_) => service_type_failure(node.tree()) is None,
            Err(e) => service_type_failure(node.tree()) == Some(e@),
        },
{
    match require_text(node, "serviceType") {
        Err(e) => Err(e),
        Ok(text) => if same_text(text.as_str(), "train") {
            Ok(())
        } else {
            Err(ParsingError::UnsupportedServiceType(text))
        },
    }
}

/// Reads the locations of a service.
fn read_locations<T: Traversable>(node: &T) -> (r: Result<Vec<ServiceLocation>, ParsingError>)
    ensures
        match r {
            Ok(list) => locations_of(node.tree()) == Ok::<Seq<Stop>, Failure>(views(list@)),
            Err(e) => locations_of(node.tree()) == Err::<Seq<Stop>, Failure>(e@),
        },
{
    match node.child("locations") {
        Err(e) => Err(e),
        Ok(c) => {
            let kids = c.children();
            assert(trees(kids@) =~= c.tree().kids);
            parse_each::<ServiceLocation, T>(&kids)
        },
    }
}

impl Parsable for ServiceDetails {
    open spec fn reading(tree: Tree) -> Result<Schedule, Failure> {
        match first_failure(service_checks(tree)) {
            Some(e) => Err(e),
            None => Ok(service_record(tree)),
        }
    }

    fn parse<T: Traversable>(from: &T) -> (r: Result<Self, ParsingError>) {
        let ghost checks = service_checks(from.tree());
        let tag = from.tag_name();
        if !same_text(tag.as_str(), "GetServiceDetailsResult") {
            proof {
                lemma_first_failure_at(checks, 0);
            }
            return Err(invalid_tag("GetServiceDetailsResult", tag));
        }
        match check_service_type(from) {
            Ok(_) => {},
            Err(e) => {
                proof {
                    lemma_first_failure_at(checks, 1);
                }
                return Err(e);
            },
        }
        let generated_at = match require_timestamp(from, "generatedAt") {
            Ok(v) => v,
            Err(e) => {
                proof {
                    lemma_first_failure_at(checks, 2);
                }
                return Err(e);
            },
        };
        let rid = match require_text(from, "rid") {
            Ok(v) => v,
            Err(e) => {
                proof {
                    lemma_first_failure_at(checks, 3);
                }
                return Err(e);
            },
        };
        let uid = match require_text(from, "uid") {
            Ok(v) => v,
            Err(e) => {
                proof {
                    lemma_first_failure_at(checks, 4);
                }
                return Err(e);
            },
        };
        let rsid = optional_text(from, "rsid");
        let trainid = match require_text(from, "trainid") {
            Ok(v) => v,
            Err(e) => {
                proof {
                    lemma_first_failure_at(checks, 5);
                }
                return Err(e);
            },
        };
        let sdd = match require_date(from, "sdd") {
            Ok(v) => v,
            Err(e) => {
                proof {
                    lemma_first_failure_at(checks, 6);
                }
                return Err(e);
            },
        };
        let passenger_service = match optional_bool(from, "isPassengerService", true) {
            Ok(v) => v,
            Err(e) => {
                proof {
                    lemma_first_failure_at(checks, 7);
                }
                return Err(e);
            },
        };
        let charter = match optional_bool(from, "isCharter", false) {
            Ok(v) => v,
            Err(e) => {
                proof {
                    lemma_first_failure_at(checks, 8);
                }
                return Err(e);
            },
        };
        let category = match require_text(from, "category") {
            Ok(v) => v,
            Err(e) => {
                proof {
                    lemma_first_failure_at(checks, 9);
                }
                return Err(e);
            },
        };
        let operator = match require_text(from, "operator") {
            Ok(v) => v,
            Err(e) => {
                proof {
                    lemma_first_failure_at(checks, 10);
                }
                return Err(e);
            },
        };
        let operator_code = match require_text(from, "operatorCode") {
            Ok(v) => v,
            Err(e) => {
                proof {
                    lemma_first_failure_at(checks, 11);
                }
                return Err(e);
            },
        };
        let cancel_reason = optional_text(from, "cancelReason");
        let delay_reason = optional_text(from, "delayReason");
        let reverse_formation = match optional_bool(from, "isReverseFormation", false) {
            Ok(v) => v,
            Err(e) => {
                proof {
                    lemma_first_failure_at(checks, 12);
                }
                return Err(e);
            },
        };
        let locations = match read_locations(from) {
            Ok(v) => v,
            Err(e) => {
                proof {
                    lemma_first_failure_at(checks, 13);
                }
                return Err(e);
            },
        };
        proof {
            lemma_no_failure(checks);
        }
        Ok(
            ServiceDetails {
                generated_at,
                rid,
                uid,
                rsid,
                trainid,
                sdd,
                passenger_service,
                charter,
                category,
                operator,
                operator_code,
                cancel_reason,
                delay_reason,
                reverse_formation,
                locations,
            },
        )
    }
}

/// A service whose type is anything but `train` is refused with the type that
/// was found, and nothing of it is read.
pub proof fn lemma_other_service_types_are_refused(t: Tree, found: Seq<char>)
    requires
        t.tag == result_tag(),
        text_of(t, "serviceType"@) == Ok::<Seq<char>, Failure>(found),
        found != "train"@,
    ensures
        ServiceDetails::reading(t) == Err::<Schedule, Failure>(
            Failure::UnsupportedServiceType(found),
        ),
{
    lemma_first_failure_at(service_checks(t), 1);
}

/// A service without `rid`, its tag, type and time of generation being in
/// order, fails with `MissingField("rid")`, whatever its locations hold.
pub proof fn lemma_missing_rid_is_reported(t: Tree)
    requires
        forall|i: int| 0 <= i < 3 ==> service_checks(t)[i] is None,
        first_named(t.kids, "rid"@) is None,
    ensures
        ServiceDetails::reading(t) == Err::<Schedule, Failure>(Failure::MissingField("rid"@)),
{
    lemma_first_failure_at(service_checks(t), 3);
}

/// A service without `locations`, all else being in order, fails with
/// `MissingField("locations")`.
pub proof fn lemma_missing_locations_are_reported(t: Tree)
    requires
        forall|i: int| 0 <= i < 13 ==> service_checks(t)[i] is None,
        first_named(t.kids, "locations"@) is None,
    ensures
        ServiceDetails::reading(t) == Err::<Schedule, Failure>(
            Failure::MissingField("locations"@),
        ),
{
    lemma_first_failure_at(service_checks(t), 13);
}

/// The first location that fails makes the whole service fail with its
/// failure, all else being in order: no part of a service is ever read.
pub proof fn lemma_failing_location_fails_service(t: Tree, list: Tree, i: int)
    requires
        forall|j: int| 0 <= j < 13 ==> service_checks(t)[j] is None,
        first_named(t.kids, "locations"@) == Some(list),
        0 <= i < list.kids.len(),
        ServiceLocation::reading(list.kids[i]) is Err,
        forall|j: int| 0 <= j < i ==> ServiceLocation::reading(list.kids[j]) is Ok,
    ensures
        ServiceDetails::reading(t) == Err::<Schedule, Failure>(
            ServiceLocation::reading(list.kids[i])->Err_0,
        ),
{
    let read = |k: Tree| ServiceLocation::reading(k);
    lemma_each_passes(list.kids, read, i);
    assert(list.kids.take(i + 1).drop_last() =~= list.kids.take(i));
    lemma_each_fails_early(list.kids, read, i + 1);
    lemma_first_failure_at(service_checks(t), 13);
}

/// Reading is a function of the text: whatever two readings of one document
/// give, they agree in every field.
pub proof fn lemma_reading_is_deterministic(
    text: Seq<char>,
    first: Result<ServiceDetails, ParsingError>,
    second: Result<ServiceDetails, ParsingError>,
)
    requires
        reads(first, service_in(text)),
        reads(second, service_in(text)),
    ensures
        first is Ok <==> second is Ok,
        first is Ok ==> first->Ok_0@ == second->Ok_0@,
        first is Err ==> first->Err_0@ == second->Err_0@,
{
}

/// What the tree of a document holds: the details of the first element that
/// carries [`result_tag`], in document order.
pub open spec fn service_under(root: Tree) -> Result<Schedule, Failure> {
    match first_tagged(root, result_tag()) {
        None => Err(Failure::MissingField(result_tag())),
        Some(t) => ServiceDetails::reading(t),
    }
}

/// What the text of a document holds.
pub open spec fn service_in(text: Seq<char>) -> Result<Schedule, Failure> {
    match parsed_document(text) {
        None => Err(Failure::MalformedDocument),
        Some(root) => service_under(root),
    }
}

impl ServiceDetails {
    /// Reads the service that the document under `root` holds.
    pub fn locate<T: Traversable>(root: T) -> (r: Result<ServiceDetails, ParsingError>)
        ensures
            reads(r, service_under(root.tree())),
    {
        match find_tagged(root, "GetServiceDetailsResult") {
            None => Err(ParsingError::MissingField("GetServiceDetailsResult".to_owned())),
            Some(node) => ServiceDetails::parse(&node),
        }
    }

    /// Reads the service that the text of a document holds.
    pub fn from_document(text: &str) -> (r: Result<ServiceDetails, ParsingError>)
        ensures
            reads(r, service_in(text@)),
    {
        match parse_document(text) {
            Err(_) => Err(ParsingError::MalformedDocument),
            Ok(doc) => ServiceDetails::locate(document_root(&doc)),
        }
    }
}

impl TryFrom<&str> for ServiceDetails {
    type Error = ParsingError;

    /// Reads the service that the text of a document holds.
    fn try_from(text: &str) -> (r: Result<ServiceDetails, ParsingError>)
        ensures
            reads(r, service_in(text@)),
    {
        ServiceDetails::from_document(text)
    }
}

impl vstd::std_specs::convert::TryFromSpecImpl<&str> for ServiceDetails {
    /// The contract of `try_from` fixes the view of what comes out, not the
    /// strings themselves.
    open spec fn obeys_try_from_spec() -> bool {
        false
    }

    /// Some result whose view is what the text holds.
    open spec fn try_from_spec(text: &str) -> Result<ServiceDetails, ParsingError> {
        choose|r: Result<ServiceDetails, ParsingError>| reads(r, service_in(text@))
    }
}

} // verus!
