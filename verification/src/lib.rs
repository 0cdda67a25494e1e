//! Grouped environment resolution model.
//!
//! A workspace declares named environments built from features; environments
//! may share a single dependency-resolution pass through a solve group. This
//! crate models the canonical union of "solve group" and "standalone
//! environment" that downstream consumers use as the unit of resolution,
//! together with the aggregation of system requirements, virtual packages and
//! features over that unit, and the selection of resolution units for an
//! install run.

pub mod conda;
pub mod grouped;
pub mod names;
pub mod prefix;
pub mod requirements;
pub mod select;
pub mod version;
pub mod virtual_packages;
pub mod workspace;
