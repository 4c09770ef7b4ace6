//! Version 1 UUIDs and a byte layout of them that sorts by creation time.
//!
//! A [`Config`] holds the clock sequence and the node of one process;
//! [`Uuid1::v1`] builds identifiers from it, and [`Uuid1::ordered`] moves
//! the timestamp fields of a version 1 identifier so that byte order
//! follows time order.

mod outside;

pub mod config;
pub mod layout;
pub mod ordered;

pub use config::Config;
pub use ordered::{OrderedUuid, Uuid1};
