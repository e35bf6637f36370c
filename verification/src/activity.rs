//! What happens at a calling point: the activity codes and their decoding.

use crate::parsable::{Failure, ParsingError};
use crate::text::{chars_of, trim_bounds, trimmed};
use vstd::prelude::*;

verus! {

/// What a train does at a location of its schedule.
#[derive(Clone, Copy, Debug, PartialEq, Eq, Structural)]
pub enum Activity {
    /// Stops to detach vehicles. (-D)
    StopDetach,
    /// Stops to attach and detach vehicles. (-T)
    StopAttachDetach,
    /// Stops to attach vehicles. (-U)
    StopAttach,
    /// Stops or shunts for other trains to pass. (A)
    StopOrShuntForPass,
    /// Attaches or detaches an assisting locomotive. (AE)
    AttachOrDetachAssistingLocomotive,
    /// Shows as 'X' on arrival. (AX)
    ShowsAsXOnArrival,
    /// Stops for banking locomotive. (BL)
    StopsForBankingLocomotive,
    /// Stops to change train crew. (C)
    StopsToChangeCrew,
    /// Stops to set down passengers, who may not board here. (D)
    StopsToSetDownPassengers,
    /// Stops for examination. (E)
    StopsForExamination,
    /// Data to add. (G)
    GBPRTTDataToAdd,
    /// Notional activity to prevent timetable columns merging. (H)
    Notional,
    /// Notional activity to prevent timetable columns merging, third column. (HH)
    NotionalActivityThirdColumn,
    /// Passenger count point. (K)
    PassengerCountPoint,
    /// Ticket collection and examination point. (KC)
    TicketCollectionAndExaminationPoint,
    /// Ticket examination point. (KE)
    TicketExaminationPoint,
    /// Ticket examination point for first class only. (KF)
    TicketExaminationPointFirstClass,
    /// Selective ticket examination point. (KS)
    SelectiveTicketExaminationPoint,
    /// Stops to change locomotive. (L)
    StopsToChangeLocomotive,
    /// Stop not advertised. (N)
    StopNotAdvertised,
    /// Stops for other operating reasons. (OP)
    StopsForOtherReasons,
    /// Train locomotive on rear. (OR)
    TrainLocomotiveOnRear,
    /// Propelling between points shown. (PR)
    PropellingBetweenPointsShown,
    /// Stops when required. (R)
    StopsWhenRequired,
    /// Stops for reversing move or when the driver changes ends. (RM)
    StopsForReversingMove,
    /// Stops for locomotive to run round train. (RR)
    StopsForLocomotiveToRunRoundTrain,
    /// Stops for railway personnel only. (S)
    StopsForRailwayPersonnel,
    /// Stops to take up and set down passengers. (T)
    StopsToTakeUpAndSetDownPassengers,
    /// Train begins. (TB)
    TrainBegins,
    /// Train finishes. (TF)
    TrainFinishes,
    /// Activity requested for TOPS reporting purposes. (TS)
    RequestedForTOPS,
    /// Stops or passes for tablet, staff or token. (TW)
    StopsOrPassesForTabletOrStaffOrToken,
    /// Stops to take up passengers, who may not leave the train here. (U)
    StopsToTakeUpPassengers,
    /// Stops for watering of coaches. (W)
    StopsForWateringOfCoaches,
    /// Passes another train at a crossing point on a single line. (X)
    PassesAnotherTrain,
    /// No activity: a code of blanks.
    NoActivity,
}

impl Activity {
    /// The letters of the activity's code: how many there are, two at most, and
    /// which; a blank stands where the code has no letter.
    pub open spec fn letters(self) -> (usize, char, char) {
        match self {
            Activity::StopDetach => (2, '-', 'D'),
            Activity::StopAttachDetach => (2, '-', 'T'),
            Activity::StopAttach => (2, '-', 'U'),
            Activity::StopOrShuntForPass => (1, 'A', ' '),
            Activity::AttachOrDetachAssistingLocomotive => (2, 'A', 'E'),
            Activity::ShowsAsXOnArrival => (2, 'A', 'X'),
            Activity::StopsForBankingLocomotive => (2, 'B', 'L'),
            Activity::StopsToChangeCrew => (1, 'C', ' '),
            Activity::StopsToSetDownPassengers => (1, 'D', ' '),
            Activity::StopsForExamination => (1, 'E', ' '),
            Activity::GBPRTTDataToAdd => (1, 'G', ' '),
            Activity::Notional => (1, 'H', ' '),
            Activity::NotionalActivityThirdColumn => (2, 'H', 'H'),
            Activity::PassengerCountPoint => (1, 'K', ' '),
            Activity::TicketCollectionAndExaminationPoint => (2, 'K', 'C'),
            Activity::TicketExaminationPoint => (2, 'K', 'E'),
            Activity::TicketExaminationPointFirstClass => (2, 'K', 'F'),
            Activity::SelectiveTicketExaminationPoint => (2, 'K', 'S'),
            Activity::StopsToChangeLocomotive => (1, 'L', ' '),
            Activity::StopNotAdvertised => (1, 'N', ' '),
            Activity::StopsForOtherReasons => (2, 'O', 'P'),
            Activity::TrainLocomotiveOnRear => (2, 'O', 'R'),
            Activity::PropellingBetweenPointsShown => (2, 'P', 'R'),
            Activity::StopsWhenRequired => (1, 'R', ' '),
            Activity::StopsForReversingMove => (2, 'R', 'M'),
            Activity::StopsForLocomotiveToRunRoundTrain => (2, 'R', 'R'),
            Activity::StopsForRailwayPersonnel => (1, 'S', ' '),
            Activity::StopsToTakeUpAndSetDownPassengers => (1, 'T', ' '),
            Activity::TrainBegins => (2, 'T', 'B'),
            Activity::TrainFinishes => (2, 'T', 'F'),
            Activity::RequestedForTOPS => (2, 'T', 'S'),
            Activity::StopsOrPassesForTabletOrStaffOrToken => (2, 'T', 'W'),
            Activity::StopsToTakeUpPassengers => (1, 'U', ' '),
            Activity::StopsForWateringOfCoaches => (1, 'W', ' '),
            Activity::PassesAnotherTrain => (1, 'X', ' '),
            Activity::NoActivity => (0, ' ', ' '),
        }
    }

    /// The code that stands for the activity, without padding.
    pub open spec fn code(self) -> Seq<char> {
        code_of_letters(self.letters().0, self.letters().1, self.letters().2)
    }

    /// The activity that `code` stands for, if it stands for one.
    pub open spec fn with_code(code: Seq<char>) -> Option<Activity> {
        if exists|a: Activity| a.code() == code {
            Some(choose|a: Activity| a.code() == code)
        } else {
            None
        }
    }

    /// No two activities share a code.
    pub proof fn lemma_codes_differ(a: Activity, b: Activity)
        requires
            a.code() == b.code(),
        ensures
            a == b,
    {
        let (n, first, second) = a.letters();
        let (m, other_first, other_second) = b.letters();
        lemma_letters_of_code(n, first, second);
        lemma_letters_of_code(m, other_first, other_second);
    }

    /// The activity whose code has the `len` characters `first` and `second`.
    fn lookup(len: usize, first: char, second: char) -> (r: Option<Activity>)
        requires
            len <= 2,
        ensures
            r == Activity::with_code(code_of_letters(len, first, second)),
    {
        let r = if len == 0 {
            Some(Activity::NoActivity)
        } else if len == 1 {
            match first {
                'A' => Some(Activity::StopOrShuntForPass),
                'C' => Some(Activity::StopsToChangeCrew),
                'D' => Some(Activity::StopsToSetDownPassengers),
                'E' => Some(Activity::StopsForExamination),
                'G' => Some(Activity::GBPRTTDataToAdd),
                'H' => Some(Activity::Notional),
                'K' => Some(Activity::PassengerCountPoint),
                'L' => Some(Activity::StopsToChangeLocomotive),
                'N' => Some(Activity::StopNotAdvertised),
                'R' => Some(Activity::StopsWhenRequired),
                'S' => Some(Activity::StopsForRailwayPersonnel),
                'T' => Some(Activity::StopsToTakeUpAndSetDownPassengers),
                'U' => Some(Activity::StopsToTakeUpPassengers),
                'W' => Some(Activity::StopsForWateringOfCoaches),
                'X' => Some(Activity::PassesAnotherTrain),
                _ => None,
            }
        } else {
            match (first, second) {
                ('-', 'D') => Some(Activity::StopDetach),
                ('-', 'T') => Some(Activity::StopAttachDetach),
                ('-', 'U') => Some(Activity::StopAttach),
                ('A', 'E') => Some(Activity::AttachOrDetachAssistingLocomotive),
                ('A', 'X') => Some(Activity::ShowsAsXOnArrival),
                ('B', 'L') => Some(Activity::StopsForBankingLocomotive),
                ('H', 'H') => Some(Activity::NotionalActivityThirdColumn),
                ('K', 'C') => Some(Activity::TicketCollectionAndExaminationPoint),
                ('K', 'E') => Some(Activity::TicketExaminationPoint),
                ('K', 'F') => Some(Activity::TicketExaminationPointFirstClass),
                ('K', 'S') => Some(Activity::SelectiveTicketExaminationPoint),
                ('O', 'P') => Some(Activity::StopsForOtherReasons),
                ('O', 'R') => Some(Activity::TrainLocomotiveOnRear),
                ('P', 'R') => Some(Activity::PropellingBetweenPointsShown),
                ('R', 'M') => Some(Activity::StopsForReversingMove),
                ('R', 'R') => Some(Activity::StopsForLocomotiveToRunRoundTrain),
                ('T', 'B') => Some(Activity::TrainBegins),
                ('T', 'F') => Some(Activity::TrainFinishes),
                ('T', 'S') => Some(Activity::RequestedForTOPS),
                ('T', 'W') => Some(Activity::StopsOrPassesForTabletOrStaffOrToken),
                _ => None,
            }
        };
        proof {
            let code = code_of_letters(len, first, second);
            match r {
                Some(a) => {
                    assert(a.code() =~= code);
                    Activity::lemma_codes_differ(a, choose|b: Activity| b.code() == code);
                },
                None => {
                    assert forall|a: Activity| a.code() != code by {
                        lemma_letters_of_code(len, first, second);
                        lemma_letters_of_code(a.letters().0, a.letters().1, a.letters().2);
                    }
                },
            }
        }
        r
    }

    /// The activity that the code `code` stands for. The code is taken as it
    /// is: padding is the caller's to remove.
    pub fn from_code(code: &str) -> (r: Option<Activity>)
        ensures
            r == Activity::with_code(code@),
    {
        let chars = chars_of(code);
        assert(chars@.subrange(0, chars@.len() as int) =~= chars@);
        Activity::at(&chars, 0, chars.len())
    }

    /// The activity that the part of `chars` from `from` up to `to` stands for.
    fn at(chars: &Vec<char>, from: usize, to: usize) -> (r: Option<Activity>)
        requires
            from <= to <= chars@.len(),
        ensures
            r == Activity::with_code(chars@.subrange(from as int, to as int)),
    {
        let ghost code = chars@.subrange(from as int, to as int);
        let len = to - from;
        if len > 2 {
            proof {
                assert forall|a: Activity| a.code() != code by {
                    lemma_letters_of_code(a.letters().0, a.letters().1, a.letters().2);
                }
            }
            return None;
        }
        let first = if len >= 1 {
            chars[from]
        } else {
            ' '
        };
        let second = if len == 2 {
            chars[from + 1]
        } else {
            ' '
        };
        assert(code_of_letters(len, first, second) =~= code);
        Activity::lookup(len, first, second)
    }
}

/// How many chunks `text` falls into: two characters each, the last one
/// shorter where the length is odd.
pub open spec fn chunk_count(text: Seq<char>) -> nat {
    (text.len() + 1) / 2
}

/// Where chunk `k` of `text` ends.
pub open spec fn chunk_end(text: Seq<char>, k: int) -> int {
    if 2 * k + 2 <= text.len() {
        2 * k + 2
    } else {
        text.len() as int
    }
}

/// Chunk `k` of `text`.
pub open spec fn chunk(text: Seq<char>, k: int) -> Seq<char> {
    text.subrange(2 * k, chunk_end(text, k))
}

/// The code in chunk `k` of `text`: the chunk without its padding.
pub open spec fn code_at(text: Seq<char>, k: int) -> Seq<char> {
    trimmed(chunk(text, k))
}

/// Whether the code in chunk `k` of `text` stands for an activity.
pub open spec fn known_at(text: Seq<char>, k: int) -> bool {
    Activity::with_code(code_at(text, k)) is Some
}

/// Whether chunk `k` of `text` is the first whose code stands for nothing.
pub open spec fn first_unknown_at(text: Seq<char>, k: int) -> bool {
    &&& 0 <= k < chunk_count(text)
    &&& !known_at(text, k)
    &&& forall|j: int| 0 <= j < k ==> known_at(text, j)
}

/// The activities that the chunks of `text` stand for, one for each chunk.
pub open spec fn decoded(text: Seq<char>) -> Seq<Activity> {
    Seq::new(chunk_count(text), |k: int| Activity::with_code(code_at(text, k)).unwrap())
}

/// `list` with every run of `NoActivity` markers cut down to its first: a
/// marker that follows a marker is left out, and nothing else is.
pub open spec fn collapsed(list: Seq<Activity>) -> Seq<Activity>
    decreases list.len(),
{
    if list.len() == 0 {
        list
    } else if list.len() >= 2 && list[list.len() - 1] == Activity::NoActivity && list[list.len()
        - 2] == Activity::NoActivity {
        collapsed(list.drop_last())
    } else {
        collapsed(list.drop_last()).push(list.last())
    }
}

/// Collapsing leaves the last activity in its place.
pub proof fn lemma_collapsed_keeps_last(list: Seq<Activity>)
    requires
        list.len() > 0,
    ensures
        collapsed(list).len() > 0,
        collapsed(list).last() == list.last(),
    decreases list.len(),
{
    if list.len() >= 2 && list[list.len() - 1] == Activity::NoActivity && list[list.len() - 2]
        == Activity::NoActivity {
        lemma_collapsed_keeps_last(list.drop_last());
    }
}

/// After collapsing, no marker follows a marker.
pub proof fn lemma_collapsed_has_no_run(list: Seq<Activity>, i: int)
    requires
        0 < i < collapsed(list).len(),
    ensures
        !(collapsed(list)[i - 1] == Activity::NoActivity && collapsed(list)[i]
            == Activity::NoActivity),
    decreases list.len(),
{
    let before = list.drop_last();
    if list.len() >= 2 && list[list.len() - 1] == Activity::NoActivity && list[list.len() - 2]
        == Activity::NoActivity {
        lemma_collapsed_has_no_run(before, i);
    } else if i < collapsed(before).len() {
        lemma_collapsed_has_no_run(before, i);
    } else {
        lemma_collapsed_keeps_last(before);
    }
}

/// A list in which no marker follows a marker is left as it is.
pub proof fn lemma_collapsed_without_run(list: Seq<Activity>)
    requires
        forall|i: int|
            0 < i < list.len() ==> !(list[i - 1] == Activity::NoActivity && #[trigger] list[i]
                == Activity::NoActivity),
    ensures
        collapsed(list) == list,
    decreases list.len(),
{
    if list.len() > 0 {
        let before = list.drop_last();
        assert forall|i: int| 0 < i < before.len() implies !(before[i - 1] == Activity::NoActivity
            && #[trigger] before[i] == Activity::NoActivity) by {
            assert(before[i] == list[i]);
        }
        lemma_collapsed_without_run(before);
    }
}

/// Collapsing what is collapsed changes nothing.
pub proof fn lemma_collapsed_twice(list: Seq<Activity>)
    ensures
        collapsed(collapsed(list)) == collapsed(list),
{
    let once = collapsed(list);
    assert forall|i: int| 0 < i < once.len() implies !(once[i - 1] == Activity::NoActivity
        && #[trigger] once[i] == Activity::NoActivity) by {
        lemma_collapsed_has_no_run(list, i);
    }
    lemma_collapsed_without_run(once);
}

/// The code of an activity stands for that activity and for no other.
pub proof fn lemma_code_stands_for_its_activity(a: Activity)
    ensures
        Activity::with_code(a.code()) == Some(a),
{
    Activity::lemma_codes_differ(a, choose|b: Activity| b.code() == a.code());
}

/// An empty activities field says nothing: no list, and no failure.
pub proof fn lemma_empty_text_says_nothing()
    ensures
        activities_in(Seq::empty()) == Ok::<Option<Seq<Activity>>, Failure>(None),
{
}

/// What the text of an activities field says. An empty text says nothing at
/// all. Any other falls into chunks: the first chunk whose code stands for no
/// activity is the failure; without one, the activities of the chunks are the
/// answer, runs of markers collapsed.
pub open spec fn activities_in(text: Seq<char>) -> Result<Option<Seq<Activity>>, Failure> {
    if text.len() == 0 {
        Ok(None)
    } else if exists|k: int| first_unknown_at(text, k) {
        Err(Failure::InvalidActivity(code_at(text, choose|k: int| first_unknown_at(text, k))))
    } else {
        Ok(Some(collapsed(decoded(text))))
    }
}

/// Whether a result of decoding is the given outcome.
pub open spec fn gives_activities(
    r: Result<Option<Vec<Activity>>, ParsingError>,
    outcome: Result<Option<Seq<Activity>>, Failure>,
) -> bool {
    match r {
        Ok(Some(v)) => outcome == Ok::<Option<Seq<Activity>>, Failure>(Some(v@)),
        Ok(None) => outcome == Ok::<Option<Seq<Activity>>, Failure>(None),
        Err(e) => outcome == Err::<Option<Seq<Activity>>, Failure>(e@),
    }
}

/// Cuts every run of `NoActivity` markers down to its first.
pub fn collapse(list: Vec<Activity>) -> (r: Vec<Activity>)
    ensures
        r@ == collapsed(list@),
{
    let mut out: Vec<Activity> = Vec::new();
    let mut i: usize = 0;
    while i < list.len()
        invariant
            i <= list@.len(),
            out@ == collapsed(list@.take(i as int)),
        decreases list.len() - i,
    {
        let repeats = i > 0 && list[i] == Activity::NoActivity && list[i - 1]
            == Activity::NoActivity;
        proof {
            assert(list@.take(i + 1).drop_last() =~= list@.take(i as int));
        }
        if !repeats {
            out.push(list[i]);
        }
        i += 1;
    }
    assert(list@.take(i as int) =~= list@);
    out
}

/// Decodes the text of an activities field.
pub fn decode_activities(text: &str) -> (r: Result<Option<Vec<Activity>>, ParsingError>)
    ensures
        gives_activities(r, activities_in(text@)),
{
    let chars = chars_of(text);
    if chars.len() == 0 {
        return Ok(None);
    }
    let count: usize = chars.len() / 2 + chars.len() % 2;
    let mut out: Vec<Activity> = Vec::new();
    let mut k: usize = 0;
    while k < count
        invariant
            chars@ == text@,
            count == chunk_count(text@),
            2 * count <= chars@.len() + 1,
            k <= count,
            out@.len() == k,
            forall|j: int|
                0 <= j < k ==> Activity::with_code(code_at(text@, j)) == Some(#[trigger] out@[j]),
        decreases count - k,
    {
        let start: usize = 2 * k;
        let end: usize = if chars.len() - start >= 2 {
            start + 2
        } else {
            chars.len()
        };
        let (lo, hi) = trim_bounds(&chars, start, end);
        match Activity::at(&chars, lo, hi) {
            Some(a) => {
                out.push(a);
            },
            None => {
                proof {
                    assert forall|j: int| 0 <= j < k implies known_at(text@, j) by {
                        assert(Activity::with_code(code_at(text@, j)) == Some(out@[j]));
                    }
                    assert(first_unknown_at(text@, k as int));
                    assert forall|j: int| first_unknown_at(text@, j) implies j == k by {
                        if j > k {
                            assert(known_at(text@, k as int));
                        }
                    }
                }
                return Err(
                    ParsingError::InvalidActivity(text.substring_char(lo, hi).to_owned()),
                );
            },
        }
        k += 1;
    }
    proof {
        assert forall|j: int| !first_unknown_at(text@, j) by {
            if 0 <= j < chunk_count(text@) {
                assert(Activity::with_code(code_at(text@, j)) == Some(out@[j]));
            }
        }
        assert(out@ =~= decoded(text@));
    }
    Ok(Some(collapse(out)))
}

/// The code of `len` characters, two at most, that begins with `first` and
/// goes on with `second`.
pub open spec fn code_of_letters(len: usize, first: char, second: char) -> Seq<char> {
    if len == 0 {
        Seq::empty()
    } else if len == 1 {
        seq![first]
    } else {
        seq![first, second]
    }
}

/// A code holds the letters it was made of.
pub proof fn lemma_letters_of_code(len: usize, first: char, second: char)
    requires
        len <= 2,
    ensures
        code_of_letters(len, first, second).len() == len,
        len >= 1 ==> code_of_letters(len, first, second)[0] == first,
        len == 2 ==> code_of_letters(len, first, second)[1] == second,
{
}

} // verus!
