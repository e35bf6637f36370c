use openldbsvws::activity::Activity;
use openldbsvws::element::Element;
use openldbsvws::fields::{
    optional_bool, optional_text, optional_timestamp, require_date, require_text,
    require_timestamp, require_u16, require_u8,
};
use openldbsvws::forecast::{arrival_tags, departure_tags, read_forecast, resolve, ForecastType};
use openldbsvws::location::{optional_place, optional_place_without_crs, Location};
use openldbsvws::parsable::{parse_each, Parsable, ParsingError};
use openldbsvws::services::{ServiceDetails, ServiceLocation};
use openldbsvws::time::{Date, Timestamp};
use openldbsvws::traversable::{find_below, find_tagged, Traversable};

fn sample() -> Element {
    Element::branch(
        "record",
        vec![
            Element::leaf("name", "York"),
            Element::leaf("when", "2022-05-06T09:00:00+01:00"),
            Element::leaf("day", "2022-05-06"),
            Element::leaf("flag", "true"),
            Element::leaf("count", "300"),
            Element::leaf("name", "Leeds"),
            Element::branch("group", vec![Element::leaf("inner", "deep")]),
        ],
    )
}

fn invalid(field: &str, expected: &str, found: &str) -> ParsingError {
    ParsingError::InvalidField {
        field: field.to_string(),
        expected: expected.to_string(),
        found: found.to_string(),
    }
}

fn missing(name: &str) -> ParsingError {
    ParsingError::MissingField(name.to_string())
}

#[test]
fn builders_fill_the_fields() {
    let leaf = Element::leaf("a", "b");
    assert_eq!(leaf, Element { tag: "a".to_string(), text: "b".to_string(), children: vec![] });
    let branch = Element::branch("c", vec![Element::leaf("a", "b")]);
    assert_eq!(branch.tag, "c");
    assert_eq!(branch.text, "");
    assert_eq!(branch.children, vec![leaf]);
}

#[test]
fn element_answers_for_itself() {
    let tree = sample();
    let node = &tree;
    assert_eq!(node.tag_name(), "record");
    assert_eq!(node.get_text(), "");
    let kids = node.children();
    assert_eq!(kids.len(), 7);
    let tags: Vec<String> = kids.iter().map(|k| k.tag_name()).collect();
    assert_eq!(tags, ["name", "when", "day", "flag", "count", "name", "group"]);
    assert_eq!(kids[0].get_text(), "York");
    assert!(kids[0].children().is_empty());
}

#[test]
fn child_is_the_first_of_its_tag() {
    let tree = sample();
    let node = &tree;
    assert_eq!(node.child("name").unwrap().get_text(), "York");
    assert_eq!(node.child("group").unwrap().child("inner").unwrap().get_text(), "deep");
    assert_eq!(node.child("inner").err(), Some(missing("inner")));
    assert_eq!(node.child("Name").err(), Some(missing("Name")));
    assert_eq!(node.child("").err(), Some(missing("")));
}

#[test]
fn node_text_is_converted() {
    let tree = sample();
    let node = &tree;
    assert_eq!(
        node.child("when").unwrap().get_time(),
        Ok(Timestamp { seconds: 1651824000, nanos: 0, offset: 3600 })
    );
    assert_eq!(
        node.child("day").unwrap().get_date(),
        Ok(Date { year: 2022, month: 5, day: 6 })
    );
    assert_eq!(node.child("flag").unwrap().get_bool(), Ok(true));
    assert_eq!(node.child("count").unwrap().get_u16(), Ok(300));
    assert_eq!(node.child("count").unwrap().get_u8(), Err(invalid("count", "u8", "300")));
    assert_eq!(node.child("name").unwrap().get_u16(), Err(invalid("name", "u16", "York")));
    assert_eq!(
        node.child("name").unwrap().get_time(),
        Err(invalid("name", "timestamp", "York"))
    );
    assert_eq!(node.child("when").unwrap().get_date().is_err(), true);
    assert_eq!(node.child("day").unwrap().get_time().is_err(), true);
    assert_eq!(node.child("name").unwrap().get_date(), Err(invalid("name", "date", "York")));
    assert_eq!(node.child("name").unwrap().get_bool(), Err(invalid("name", "bool", "York")));
}

#[test]
fn truth_values_are_exactly_true_and_false() {
    for (found, expected) in [("true", Some(true)), ("false", Some(false))] {
        assert_eq!((&Element::leaf("f", found)).get_bool().ok(), expected);
    }
    for found in ["True", "FALSE", "1", "0", "", " true", "true ", "yes"] {
        assert_eq!((&Element::leaf("f", found)).get_bool(), Err(invalid("f", "bool", found)));
    }
}

#[test]
fn required_fields_are_read_by_name() {
    let tree = sample();
    let node = &tree;
    assert_eq!(require_text(&node, "name"), Ok("York".to_string()));
    assert_eq!(require_text(&node, "group"), Ok(String::new()));
    assert_eq!(require_text(&node, "nothing"), Err(missing("nothing")));
    assert_eq!(
        require_timestamp(&node, "when"),
        Ok(Timestamp { seconds: 1651824000, nanos: 0, offset: 3600 })
    );
    assert_eq!(require_timestamp(&node, "day"), Err(invalid("day", "timestamp", "2022-05-06")));
    assert_eq!(require_timestamp(&node, "nothing"), Err(missing("nothing")));
    assert_eq!(require_date(&node, "day"), Ok(Date { year: 2022, month: 5, day: 6 }));
    assert_eq!(require_date(&node, "name"), Err(invalid("name", "date", "York")));
    assert_eq!(require_date(&node, "nothing"), Err(missing("nothing")));
    assert_eq!(require_u16(&node, "count"), Ok(300));
    assert_eq!(require_u16(&node, "flag"), Err(invalid("flag", "u16", "true")));
    assert_eq!(require_u16(&node, "nothing"), Err(missing("nothing")));
    assert_eq!(require_u8(&node, "count"), Err(invalid("count", "u8", "300")));
    assert_eq!(require_u8(&node, "nothing"), Err(missing("nothing")));
}

#[test]
fn optional_fields_are_read_by_name() {
    let tree = sample();
    let node = &tree;
    assert_eq!(optional_text(&node, "name"), Some("York".to_string()));
    assert_eq!(optional_text(&node, "nothing"), None);
    assert_eq!(
        optional_timestamp(&node, "when"),
        Some(Timestamp { seconds: 1651824000, nanos: 0, offset: 3600 })
    );
    assert_eq!(optional_timestamp(&node, "name"), None);
    assert_eq!(optional_timestamp(&node, "nothing"), None);
    assert_eq!(optional_bool(&node, "flag", false), Ok(true));
    assert_eq!(optional_bool(&node, "nothing", false), Ok(false));
    assert_eq!(optional_bool(&node, "nothing", true), Ok(true));
    assert_eq!(optional_bool(&node, "name", true), Err(invalid("name", "bool", "York")));
}

#[test]
fn places_are_read_by_name() {
    let tree = Element::branch(
        "a",
        vec![
            Element::leaf("origin", "Leeds"),
            Element::leaf("originCRS", "LDS"),
            Element::leaf("fdTiploc", "LEEDS"),
        ],
    );
    let node = &tree;
    assert_eq!(
        optional_place(&node, "origin", "originCRS", "originTiploc"),
        Some(Location { name: "Leeds".to_string(), crs: Some("LDS".to_string()), tiploc: None })
    );
    assert_eq!(optional_place(&node, "destination", "originCRS", "originTiploc"), None);
    assert_eq!(
        optional_place_without_crs(&node, "origin", "fdTiploc"),
        Some(Location { name: "Leeds".to_string(), crs: None, tiploc: Some("LEEDS".to_string()) })
    );
    assert_eq!(optional_place_without_crs(&node, "falseDest", "fdTiploc"), None);
}

#[test]
fn search_goes_in_document_order() {
    let tree = Element::branch(
        "root",
        vec![
            Element::branch(
                "a",
                vec![Element::branch("b", vec![Element::leaf("x", "first")]), Element::leaf("x", "second")],
            ),
            Element::leaf("x", "third"),
        ],
    );
    assert_eq!(find_tagged(&tree, "x").unwrap().get_text(), "first");
    assert_eq!(find_tagged(&tree, "root").unwrap().tag_name(), "root");
    assert_eq!(find_tagged(&tree, "a").unwrap().children().len(), 2);
    assert!(find_tagged(&tree, "y").is_none());
    assert!(find_below(&&tree, "root").is_none());
    assert_eq!(find_below(&&tree, "x").unwrap().get_text(), "first");
    let shallow = Element::branch(
        "root",
        vec![Element::leaf("x", "own"), Element::branch("a", vec![Element::leaf("x", "deeper")])],
    );
    assert_eq!(find_tagged(&shallow, "x").unwrap().get_text(), "own");
    let nested = Element::branch("x", vec![Element::leaf("x", "inner")]);
    assert_eq!(find_tagged(&nested, "x").unwrap().children().len(), 1);
    assert_eq!(find_below(&&nested, "x").unwrap().get_text(), "inner");
}

#[test]
fn forecast_types_are_read_by_name() {
    let tree = Element::branch(
        "location",
        vec![Element::leaf("arrivalType", "Delayed"), Element::leaf("departureType", "late")],
    );
    let node = &tree;
    assert_eq!(read_forecast(&node, "arrivalType"), Ok(Some(ForecastType::Delayed)));
    assert_eq!(read_forecast(&node, "nothing"), Ok(None));
    assert_eq!(
        read_forecast(&node, "departureType"),
        Err(ParsingError::InvalidForecast("late".to_string()))
    );
    for (name, forecast) in [
        ("Forecast", ForecastType::Estimated),
        ("Actual", ForecastType::Actual),
        ("NoLog", ForecastType::NoLog),
        ("NoReport", ForecastType::NoReport),
        ("Delayed", ForecastType::Delayed),
    ] {
        assert_eq!(ForecastType::from_name(name), Some(forecast));
    }
    for name in ["forecast", "Estimated", "", "No Log"] {
        assert_eq!(ForecastType::from_name(name), None);
    }
}

#[test]
fn directions_have_their_own_tags() {
    let tree = Element::branch(
        "location",
        vec![
            Element::leaf("sta", "2022-05-06T09:00:00+01:00"),
            Element::leaf("arrivalType", "Forecast"),
            Element::leaf("eta", "2022-05-06T09:01:00+01:00"),
            Element::leaf("atd", "2022-05-06T09:03:00+01:00"),
            Element::leaf("departureSource", "TD"),
        ],
    );
    let node = &tree;
    let arrival = resolve(&node, arrival_tags()).unwrap().unwrap();
    assert_eq!(arrival.scheduled.seconds, 1651824000);
    assert_eq!(arrival.resolved.unwrap().seconds, 1651824060);
    assert_eq!(arrival.forecast_type, Some(ForecastType::Estimated));
    assert_eq!(arrival.source, None);
    assert_eq!(resolve(&node, departure_tags()), Ok(None));
    assert_eq!(arrival_tags().scheduled, "sta");
    assert_eq!(arrival_tags().forecast_type, "arrivalType");
    assert_eq!(arrival_tags().estimated, "eta");
    assert_eq!(arrival_tags().actual, "ata");
    assert_eq!(arrival_tags().source, "arrivalSource");
    assert_eq!(departure_tags().scheduled, "std");
    assert_eq!(departure_tags().forecast_type, "departureType");
    assert_eq!(departure_tags().estimated, "etd");
    assert_eq!(departure_tags().actual, "atd");
    assert_eq!(departure_tags().source, "departureSource");
}

fn stop(name: &str, activities: &str) -> Element {
    Element::branch(
        "location",
        vec![Element::leaf("locationName", name), Element::leaf("activities", activities)],
    )
}

fn details(locations: Vec<Element>) -> Element {
    Element::branch(
        "GetServiceDetailsResult",
        vec![
            Element::leaf("serviceType", "train"),
            Element::leaf("generatedAt", "2022-05-06T12:34:56+01:00"),
            Element::leaf("rid", "1"),
            Element::leaf("uid", "2"),
            Element::leaf("trainid", "3"),
            Element::leaf("sdd", "2022-05-06"),
            Element::leaf("category", "OO"),
            Element::leaf("operator", "Northern"),
            Element::leaf("operatorCode", "NT"),
            Element::branch("locations", locations),
        ],
    )
}

#[test]
fn service_is_read_from_a_tree_built_by_hand() {
    let tree = details(vec![stop("Leeds", "TB"), stop("York", "TF")]);
    let read = ServiceDetails::parse(&&tree).unwrap();
    assert_eq!(read.operator, "Northern");
    assert_eq!(read.locations.len(), 2);
    assert_eq!(read.locations[0].location.name, "Leeds");
    assert_eq!(read.locations[0].activities, Some(vec![Activity::TrainBegins]));
    assert_eq!(read.locations[1].location.name, "York");
    assert_eq!(read.locations[1].activities, Some(vec![Activity::TrainFinishes]));
}

#[test]
fn service_is_located_below_the_root() {
    let tree = Element::branch(
        "Envelope",
        vec![Element::branch("Body", vec![details(vec![stop("Leeds", "TB")])])],
    );
    assert_eq!(ServiceDetails::locate(&tree).unwrap().locations.len(), 1);
    let empty = Element::branch("Envelope", vec![Element::branch("Body", vec![])]);
    assert_eq!(ServiceDetails::locate(&empty), Err(missing("GetServiceDetailsResult")));
}

#[test]
fn tree_and_text_of_one_document_read_alike() {
    let tree = details(vec![stop("Leeds", "TB"), stop("York", "TF")]);
    let xml = "<GetServiceDetailsResult><serviceType>train</serviceType>\
               <generatedAt>2022-05-06T12:34:56+01:00</generatedAt><rid>1</rid><uid>2</uid>\
               <trainid>3</trainid><sdd>2022-05-06</sdd><category>OO</category>\
               <operator>Northern</operator><operatorCode>NT</operatorCode><locations>\
               <location><locationName>Leeds</locationName><activities>TB</activities></location>\
               <location><locationName>York</locationName><activities>TF</activities></location>\
               </locations></GetServiceDetailsResult>";
    assert_eq!(ServiceDetails::locate(&tree), ServiceDetails::from_document(xml));
}

#[test]
fn records_are_read_from_each_node_in_order() {
    let nodes = vec![stop("A", "TB"), stop("B", ""), stop("C", "TF")];
    let handles: Vec<&Element> = nodes.iter().collect();
    let read: Vec<ServiceLocation> = parse_each(&handles).unwrap();
    let names: Vec<&str> = read.iter().map(|l| l.location.name.as_str()).collect();
    assert_eq!(names, ["A", "B", "C"]);
    let nodes = vec![stop("A", "TB"), stop("B", "??"), stop("C", "!!")];
    let handles: Vec<&Element> = nodes.iter().collect();
    assert_eq!(
        parse_each::<ServiceLocation, &Element>(&handles),
        Err(ParsingError::InvalidActivity("??".to_string()))
    );
    let none: Vec<&Element> = vec![];
    assert_eq!(parse_each::<ServiceLocation, &Element>(&none), Ok(vec![]));
}
