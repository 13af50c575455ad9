//! Geometry for a flexbox-style layout of immediate-mode user interfaces, and
//! a helper that reorders a list after a drag and drop.
//!
//! Every length is an integer count of thousandths of a point: a coordinate
//! measured by the host is rounded to that precision before it reaches this
//! crate, so that two passes over the same content compare equal.
pub mod flex;
pub mod geometry;
pub mod layout;
pub mod pass;
pub mod place;
pub mod utils;
