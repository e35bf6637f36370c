//! Typed reading of rail service-detail documents.
//!
//! A document is walked once, top down, through the
//! [`traversable::Traversable`] interface, and becomes one immutable
//! [`services::ServiceDetails`] record or one [`parsable::ParsingError`]:
//! never a part of a record.
//!
//! - [`tree`] is the model of a document that every contract speaks of.
//! - [`traversable`] is the interface to a document node; [`xml`] implements
//!   it for documents parsed by `roxmltree`, [`element`] for trees built by
//!   hand.
//! - [`fields`] reads one named child as a text, a number, an instant, a
//!   date or a truth value; [`text`] and [`time`] hold the conversions.
//! - [`activity`] decodes activity codes; [`forecast`] chooses the time that
//!   counts at a location.
//! - [`location`], [`associations`] and [`services`] are the records and
//!   their readers; [`parsable`] is what the readers share.

pub mod activity;
pub mod associations;
pub mod element;
pub mod fields;
pub mod forecast;
pub mod location;
pub mod parsable;
pub mod services;
pub mod text;
pub mod time;
pub mod traversable;
pub mod tree;
pub mod xml;
