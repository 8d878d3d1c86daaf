//! Statistics of the public repositories of organizations.
//!
//! For one organization the repositories that are not archived are ordered,
//! most recently pushed first, and cut to a limit ([`select`]); the selected
//! ones are summed up ([`stats`]); and the result is shown as the cells of a
//! table and as one line of comma-separated values ([`report`], [`table`]).
//! [`run`] puts these together for one organization of a run. The limit
//! bounds the statistics as well as the rows: an organization with more
//! repositories than the limit reports the sums of the selected ones.
//!
//! [`record`] holds what is known of an organization and of a repository,
//! [`instant`] the instants of time, and [`text`] numbers and lines as text.

pub mod instant;
pub mod record;
pub mod report;
pub mod run;
pub mod select;
pub mod stats;
pub mod table;
pub mod text;
