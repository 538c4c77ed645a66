//! A travel-booking registry: user and destination records, per-destination
//! comment and media logs, an incrementally maintained mean rating, and a
//! reservation lifecycle, all kept in explicit keyed state so that every
//! operation's effect is stated and proved against a mathematical view.

pub mod keytable;
pub mod laws;
pub mod records;
pub mod registry;
pub mod scan;
