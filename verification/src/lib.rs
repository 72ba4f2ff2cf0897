//! Suggested upgrade paths over catalog channel graphs.
//!
//! A package is released through channels; each channel lists bundles, and a
//! bundle may declare which bundles it replaces or lets an upgrade skip.
//! From a channel and a starting version the engine derives the frontier:
//! the bundles that an upgrade should go through, oldest first.
//!
//! * [`version`] reads the version that a bundle name embeds and orders
//!   versions;
//! * [`model`] holds the channel graph of a package;
//! * [`frontier`] computes the frontier of a channel, and
//!   [`frontier_laws`] states what holds of every frontier;
//! * [`report`] evaluates a package and writes the lines of its report;
//! * [`isc`] writes the image set configuration for the bundles chosen;
//! * [`listing`] and [`render`] decide what to evaluate and what to show
//!   for the directories of a catalog cache.
//!
//! The engine does no input or output.  Every function is verified against
//! its contract; the one call that is taken on trust is the reading of the
//! starting version by the `semver` crate, in [`semver_glue`].

pub mod error;
pub mod frontier;
pub mod frontier_laws;
pub mod isc;
pub mod listing;
pub mod model;
pub mod ordering;
pub mod rank;
pub mod render;
pub mod report;
pub mod schema;
pub mod semver_glue;
pub mod text;
pub mod version;
