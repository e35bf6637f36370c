use openldbsvws::activity::Activity::{NoActivity, StopDetach, TrainBegins};
use openldbsvws::activity::{collapse, decode_activities, Activity};
use openldbsvws::parsable::ParsingError;

#[test]
fn empty_text_gives_no_list() {
    assert_eq!(decode_activities(""), Ok(None));
}

#[test]
fn begins_and_finishes_in_order() {
    assert_eq!(
        decode_activities("TBTF"),
        Ok(Some(vec![Activity::TrainBegins, Activity::TrainFinishes]))
    );
}

#[test]
fn unknown_code_is_refused() {
    assert_eq!(decode_activities("ZZ"), Err(ParsingError::InvalidActivity("ZZ".to_string())));
    assert_eq!(decode_activities("TBZZTF"), Err(ParsingError::InvalidActivity("ZZ".to_string())));
}

#[test]
fn first_unknown_code_is_the_one_reported() {
    assert_eq!(decode_activities("T QQZZ"), Err(ParsingError::InvalidActivity("QQ".to_string())));
    assert_eq!(decode_activities("T  Q"), Err(ParsingError::InvalidActivity("Q".to_string())));
}

#[test]
fn unknown_code_is_reported_without_padding() {
    assert_eq!(decode_activities("Z "), Err(ParsingError::InvalidActivity("Z".to_string())));
    assert_eq!(decode_activities(" Z"), Err(ParsingError::InvalidActivity("Z".to_string())));
}

#[test]
fn padded_codes_are_trimmed() {
    assert_eq!(
        decode_activities("T "),
        Ok(Some(vec![Activity::StopsToTakeUpAndSetDownPassengers]))
    );
    assert_eq!(
        decode_activities(" T"),
        Ok(Some(vec![Activity::StopsToTakeUpAndSetDownPassengers]))
    );
    assert_eq!(
        decode_activities("T -D"),
        Ok(Some(vec![Activity::StopsToTakeUpAndSetDownPassengers, Activity::StopDetach]))
    );
    assert_eq!(
        decode_activities("U\tD\u{a0}"),
        Ok(Some(vec![Activity::StopsToTakeUpPassengers, Activity::StopsToSetDownPassengers]))
    );
}

#[test]
fn last_chunk_may_be_short() {
    assert_eq!(
        decode_activities("TBT"),
        Ok(Some(vec![Activity::TrainBegins, Activity::StopsToTakeUpAndSetDownPassengers]))
    );
    assert_eq!(decode_activities("X"), Ok(Some(vec![Activity::PassesAnotherTrain])));
    assert_eq!(decode_activities("TBZ"), Err(ParsingError::InvalidActivity("Z".to_string())));
}

#[test]
fn chunks_are_of_two_characters_not_aligned_to_codes() {
    // "T" and "TB" written without padding fall into "TT" and "B".
    assert_eq!(decode_activities("TTB"), Err(ParsingError::InvalidActivity("TT".to_string())));
}

#[test]
fn blank_chunk_is_the_marker() {
    assert_eq!(decode_activities("  "), Ok(Some(vec![Activity::NoActivity])));
    assert_eq!(decode_activities(" "), Ok(Some(vec![Activity::NoActivity])));
    assert_eq!(
        decode_activities("TB  TF"),
        Ok(Some(vec![Activity::TrainBegins, Activity::NoActivity, Activity::TrainFinishes]))
    );
}

#[test]
fn adjacent_markers_collapse_to_one() {
    assert_eq!(decode_activities("      "), Ok(Some(vec![Activity::NoActivity])));
    assert_eq!(
        decode_activities("TB    TF"),
        Ok(Some(vec![Activity::TrainBegins, Activity::NoActivity, Activity::TrainFinishes]))
    );
    assert_eq!(
        decode_activities("    T     "),
        Ok(Some(vec![
            Activity::NoActivity,
            Activity::StopsToTakeUpAndSetDownPassengers,
            Activity::NoActivity,
        ]))
    );
}

#[test]
fn markers_apart_are_kept() {
    assert_eq!(
        decode_activities("  T   "),
        Ok(Some(vec![
            Activity::NoActivity,
            Activity::StopsToTakeUpAndSetDownPassengers,
            Activity::NoActivity,
        ]))
    );
    assert_eq!(
        decode_activities("T   "),
        Ok(Some(vec![Activity::StopsToTakeUpAndSetDownPassengers, Activity::NoActivity]))
    );
}

#[test]
fn collapse_touches_markers_only() {
    assert_eq!(collapse(vec![]), vec![]);
    assert_eq!(collapse(vec![NoActivity]), vec![NoActivity]);
    assert_eq!(collapse(vec![NoActivity, NoActivity]), vec![NoActivity]);
    assert_eq!(collapse(vec![TrainBegins, TrainBegins]), vec![TrainBegins, TrainBegins]);
    assert_eq!(
        collapse(vec![NoActivity, NoActivity, TrainBegins, NoActivity, NoActivity, NoActivity]),
        vec![NoActivity, TrainBegins, NoActivity]
    );
    assert_eq!(
        collapse(vec![TrainBegins, NoActivity, TrainBegins, NoActivity]),
        vec![TrainBegins, NoActivity, TrainBegins, NoActivity]
    );
}

#[test]
fn collapse_twice_is_collapse_once() {
    let list = vec![NoActivity, NoActivity, NoActivity, StopDetach, NoActivity, NoActivity];
    assert_eq!(collapse(collapse(list.clone())), collapse(list));
}

#[test]
fn every_code_of_the_table_is_decoded() {
    let table = [
        ("-D", Activity::StopDetach),
        ("-T", Activity::StopAttachDetach),
        ("-U", Activity::StopAttach),
        ("A", Activity::StopOrShuntForPass),
        ("AE", Activity::AttachOrDetachAssistingLocomotive),
        ("AX", Activity::ShowsAsXOnArrival),
        ("BL", Activity::StopsForBankingLocomotive),
        ("C", Activity::StopsToChangeCrew),
        ("D", Activity::StopsToSetDownPassengers),
        ("E", Activity::StopsForExamination),
        ("G", Activity::GBPRTTDataToAdd),
        ("H", Activity::Notional),
        ("HH", Activity::NotionalActivityThirdColumn),
        ("K", Activity::PassengerCountPoint),
        ("KC", Activity::TicketCollectionAndExaminationPoint),
        ("KE", Activity::TicketExaminationPoint),
        ("KF", Activity::TicketExaminationPointFirstClass),
        ("KS", Activity::SelectiveTicketExaminationPoint),
        ("L", Activity::StopsToChangeLocomotive),
        ("N", Activity::StopNotAdvertised),
        ("OP", Activity::StopsForOtherReasons),
        ("OR", Activity::TrainLocomotiveOnRear),
        ("PR", Activity::PropellingBetweenPointsShown),
        ("R", Activity::StopsWhenRequired),
        ("RM", Activity::StopsForReversingMove),
        ("RR", Activity::StopsForLocomotiveToRunRoundTrain),
        ("S", Activity::StopsForRailwayPersonnel),
        ("T", Activity::StopsToTakeUpAndSetDownPassengers),
        ("TB", Activity::TrainBegins),
        ("TF", Activity::TrainFinishes),
        ("TS", Activity::RequestedForTOPS),
        ("TW", Activity::StopsOrPassesForTabletOrStaffOrToken),
        ("U", Activity::StopsToTakeUpPassengers),
        ("W", Activity::StopsForWateringOfCoaches),
        ("X", Activity::PassesAnotherTrain),
        ("", Activity::NoActivity),
    ];
    for (code, activity) in table {
        assert_eq!(Activity::from_code(code), Some(activity), "{:?}", code);
        if !code.is_empty() {
            let padded = format!("{:<2}", code);
            assert_eq!(decode_activities(&padded), Ok(Some(vec![activity])), "{:?}", padded);
        }
    }
}

#[test]
fn codes_outside_the_table_stand_for_nothing() {
    for code in ["Z", "ZZ", "t", "tb", "T ", " T", "TBT", "-", "-X", "HHH", "B", "O", "P", "é"] {
        assert_eq!(Activity::from_code(code), None, "{:?}", code);
    }
}

#[test]
fn characters_count_not_bytes() {
    // Two characters of several bytes each make one chunk.
    assert_eq!(decode_activities("éé"), Err(ParsingError::InvalidActivity("éé".to_string())));
    assert_eq!(
        decode_activities("éTB"),
        Err(ParsingError::InvalidActivity("éT".to_string()))
    );
}
