//! Finds nearby stations whose market, shipyard or outfitting data has gone stale.
//!
//! The library holds the decisions of the tool: how station ages are computed,
//! which stations the configured filters keep, how the journal is scanned for the
//! commander's position, and how the download cache of entity tags is kept.
//! Geometry (coordinates and distances) is carried through as opaque type
//! parameters and handled by the caller.

pub mod config;
pub mod download;
pub mod filter;
pub mod journal;
pub mod patterns;
pub mod printer;
pub mod searcher;
pub mod mode;
pub mod stations;
pub mod stats;
mod strings;
pub mod time;
