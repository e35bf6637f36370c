//! Places on the network.

use crate::fields::{optional, optional_text, text_of};
use crate::text::text_view;
use crate::traversable::Traversable;
use crate::tree::Tree;
use vstd::prelude::*;

verus! {

/// A place on the network. A real station has a CRS or a TIPLOC code; the
/// feed may leave out both.
#[derive(Clone, Debug, PartialEq, Eq)]
pub struct Location {
    /// The place's name.
    pub name: String,
    /// Its CRS code.
    pub crs: Option<String>,
    /// Its TIPLOC code.
    pub tiploc: Option<String>,
}

/// A [`Location`] with its strings taken as sequences of characters.
pub struct Place {
    pub name: Seq<char>,
    pub crs: Option<Seq<char>>,
    pub tiploc: Option<Seq<char>>,
}

impl View for Location {
    type V = Place;

    open spec fn view(&self) -> Place {
        Place { name: self.name@, crs: text_view(self.crs), tiploc: text_view(self.tiploc) }
    }
}

/// An optional place by its view.
pub open spec fn place_view(place: Option<Location>) -> Option<Place> {
    match place {
        Some(p) => Some(p@),
        None => None,
    }
}

/// The place that a node names under the tag `name`, with the codes it gives
/// under `crs` and `tiploc`; none where the node does not name one.
pub open spec fn place_of(t: Tree, name: Seq<char>, crs: Seq<char>, tiploc: Seq<char>) -> Option<
    Place,
> {
    match optional(text_of(t, name)) {
        Some(n) => Some(
            Place { name: n, crs: optional(text_of(t, crs)), tiploc: optional(text_of(t, tiploc)) },
        ),
        None => None,
    }
}

/// A place without a CRS code: the one that a node names under the tag `name`,
/// with the code it gives under `tiploc`.
pub open spec fn place_without_crs(t: Tree, name: Seq<char>, tiploc: Seq<char>) -> Option<Place> {
    match optional(text_of(t, name)) {
        Some(n) => Some(Place { name: n, crs: None, tiploc: optional(text_of(t, tiploc)) }),
        None => None,
    }
}

/// Reads the place that `node` names under the tag `name`.
pub fn optional_place<T: Traversable>(node: &T, name: &str, crs: &str, tiploc: &str) -> (r: Option<
    Location,
>)
    ensures
        place_view(r) == place_of(node.tree(), name@, crs@, tiploc@),
{
    match optional_text(node, name) {
        Some(n) => Some(
            Location {
                name: n,
                crs: optional_text(node, crs),
                tiploc: optional_text(node, tiploc),
            },
        ),
        None => None,
    }
}

/// Reads the place that `node` names under the tag `name`, a place without a
/// CRS code.
pub fn optional_place_without_crs<T: Traversable>(node: &T, name: &str, tiploc: &str) -> (r:
    Option<Location>)
    ensures
        place_view(r) == place_without_crs(node.tree(), name@, tiploc@),
{
    match optional_text(node, name) {
        Some(n) => Some(Location { name: n, crs: None, tiploc: optional_text(node, tiploc) }),
        None => None,
    }
}

} // verus!
