//! The links between one service and another.

use crate::fields::{
    date_of, failure_of, flag_of, optional, optional_bool, optional_text, require_date,
    require_text, text_of,
};
use crate::location::{optional_place, place_of, place_view, Location, Place};
use crate::parsable::{
    first_failure, lemma_first_failure_at, lemma_no_failure, Failure, Parsable, ParsingError,
};
use crate::text::{same_text, text_view};
use crate::time::Date;
use crate::traversable::Traversable;
use crate::tree::Tree;
use vstd::prelude::*;

verus! {

/// How another train is linked to this one.
#[derive(Clone, Copy, Debug, PartialEq, Eq, Structural)]
pub enum AssociationCategory {
    /// The other train joins this train.
    Join,
    /// The other train divides from this train.
    Divide,
    /// The other train is what this train's stock works next.
    Next,
}

impl AssociationCategory {
    /// The category that the feed writes as `text`.
    pub open spec fn named(text: Seq<char>) -> Option<AssociationCategory> {
        if text == "divide"@ {
            Some(AssociationCategory::Divide)
        } else if text == "join"@ {
            Some(AssociationCategory::Join)
        } else if text == "next"@ {
            Some(AssociationCategory::Next)
        } else {
            None
        }
    }

    /// The category that the feed writes as `text`.
    pub fn from_name(text: &str) -> (r: Option<AssociationCategory>)
        ensures
            r == AssociationCategory::named(text@),
    {
        if same_text(text, "divide") {
            Some(AssociationCategory::Divide)
        } else if same_text(text, "join") {
            Some(AssociationCategory::Join)
        } else if same_text(text, "next") {
            Some(AssociationCategory::Next)
        } else {
            None
        }
    }
}

/// A link to another service. `rid` and `uid` name that service; they are
/// identifiers to look it up by, and nothing of it is held here.
#[derive(Clone, Debug, PartialEq, Eq)]
pub struct Association {
    /// How the other service is linked.
    pub category: AssociationCategory,
    /// The other service's RTTI identifier.
    pub rid: String,
    /// The other service's timetable identifier.
    pub uid: String,
    /// The other service's headcode.
    pub trainid: String,
    /// The other service's retail identifier, if known.
    pub rsid: Option<String>,
    /// The day on which the other service is scheduled to depart.
    pub sdd: Date,
    /// Where the other service starts.
    pub origin: Option<Location>,
    /// Where the other service ends.
    pub destination: Option<Location>,
    /// Whether the link is cancelled and will not happen.
    pub cancelled: bool,
}

/// An [`Association`] with its strings taken as sequences of characters.
pub struct Link {
    pub category: AssociationCategory,
    pub rid: Seq<char>,
    pub uid: Seq<char>,
    pub trainid: Seq<char>,
    pub rsid: Option<Seq<char>>,
    pub sdd: Date,
    pub origin: Option<Place>,
    pub destination: Option<Place>,
    pub cancelled: bool,
}

impl View for Association {
    type V = Link;

    open spec fn view(&self) -> Link {
        Link {
            category: self.category,
            rid: self.rid@,
            uid: self.uid@,
            trainid: self.trainid@,
            rsid: text_view(self.rsid),
            sdd: self.sdd,
            origin: place_view(self.origin),
            destination: place_view(self.destination),
            cancelled: self.cancelled,
        }
    }
}

/// The failure of a node that does not carry the tag `expected`.
pub open spec fn tag_failure(t: Tree, expected: Seq<char>) -> Option<Failure> {
    if t.tag == expected {
        None
    } else {
        Some(Failure::InvalidTagName { expected, found: t.tag })
    }
}

/// The category that an association names.
pub open spec fn category_of(t: Tree) -> Result<AssociationCategory, Failure> {
    match text_of(t, "category"@) {
        Err(e) => Err(e),
        Ok(text) => match AssociationCategory::named(text) {
            Some(c) => Ok(c),
            None => Err(Failure::InvalidAssociationCategory(text)),
        },
    }
}

/// The checks that an association has to pass, in the order in which they
/// are made.
pub open spec fn association_checks(t: Tree) -> Seq<Option<Failure>> {
    seq![
        tag_failure(t, "association"@),
        failure_of(category_of(t)),
        failure_of(text_of(t, "rid"@)),
        failure_of(text_of(t, "uid"@)),
        failure_of(text_of(t, "trainid"@)),
        failure_of(date_of(t, "sdd"@)),
        failure_of(flag_of(t, "cancelled"@, false)),
    ]
}

/// What an association that passes every check holds.
pub open spec fn association_record(t: Tree) -> Link {
    Link {
        category: category_of(t)->Ok_0,
        rid: text_of(t, "rid"@)->Ok_0,
        uid: text_of(t, "uid"@)->Ok_0,
        trainid: text_of(t, "trainid"@)->Ok_0,
        rsid: optional(text_of(t, "rsid"@)),
        sdd: date_of(t, "sdd"@)->Ok_0,
        origin: place_of(t, "origin"@, "originCRS"@, "originTiploc"@),
        destination: place_of(t, "destination"@, "destCRS"@, "destTiploc"@),
        cancelled: flag_of(t, "cancelled"@, false)->Ok_0,
    }
}

/// Reads the category that an association names.
fn read_category<T: Traversable>(node: &T) -> (r: Result<AssociationCategory, ParsingError>)
    ensures
        match r {
            Ok(c) => category_of(node.tree()) == Ok::<AssociationCategory, Failure>(c),
            Err(e) => category_of(node.tree()) == Err::<AssociationCategory, Failure>(e@),
        },
{
    match require_text(node, "category") {
        Err(e) => Err(e),
        Ok(text) => match AssociationCategory::from_name(text.as_str()) {
            Some(c) => Ok(c),
            None => Err(ParsingError::InvalidAssociationCategory(text)),
        },
    }
}

/// The failure of a node tagged `found` where `expected` is required.
pub fn invalid_tag(expected: &str, found: String) -> (e: ParsingError)
    ensures
        e@ == (Failure::InvalidTagName { expected: expected@, found: found@ }),
{
    ParsingError::InvalidTagName { expected: expected.to_owned(), found }
}

impl Parsable for Association {
    open spec fn reading(tree: Tree) -> Result<Link, Failure> {
        match first_failure(association_checks(tree)) {
            Some(e) => Err(e),
            None => Ok(association_record(tree)),
        }
    }

    fn parse<T: Traversable>(from: &T) -> (r: Result<Self, ParsingError>) {
        let ghost checks = association_checks(from.tree());
        let tag = from.tag_name();
        if !same_text(tag.as_str(), "association") {
            proof {
                lemma_first_failure_at(checks, 0);
            }
            return Err(invalid_tag("association", tag));
        }
        let category = match read_category(from) {
            Ok(v) => v,
            Err(e) => {
                proof {
                    lemma_first_failure_at(checks, 1);
                }
                return Err(e);
            },
        };
        let rid = match require_text(from, "rid") {
            Ok(v) => v,
            Err(e) => {
                proof {
                    lemma_first_failure_at(checks, 2);
                }
                return Err(e);
            },
        };
        let uid = match require_text(from, "uid") {
            Ok(v) => v,
            Err(e) => {
                proof {
                    lemma_first_failure_at(checks, 3);
                }
                return Err(e);
            },
        };
        let trainid = match require_text(from, "trainid") {
            Ok(v) => v,
            Err(e) => {
                proof {
                    lemma_first_failure_at(checks, 4);
                }
                return Err(e);
            },
        };
        let rsid = optional_text(from, "rsid");
        let sdd = match require_date(from, "sdd") {
            Ok(v) => v,
            Err(e) => {
                proof {
                    lemma_first_failure_at(checks, 5);
                }
                return Err(e);
            },
        };
        let origin = optional_place(from, "origin", "originCRS", "originTiploc");
        let destination = optional_place(from, "destination", "destCRS", "destTiploc");
        let cancelled = match optional_bool(from, "cancelled", false) {
            Ok(v) => v,
            Err(e) => {
                proof {
                    lemma_first_failure_at(checks, 6);
                }
                return Err(e);
            },
        };
        proof {
            lemma_no_failure(checks);
        }
        Ok(
            Association {
                category,
                rid,
                uid,
                trainid,
                rsid,
                sdd,
                origin,
                destination,
                cancelled,
            },
        )
    }
}

} // verus!
