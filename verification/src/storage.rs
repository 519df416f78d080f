//! Storage layer: property values, the graph API types, conversions, bulk loading and
//! neighbour iteration.
pub mod api;
pub mod bulkload;
pub mod convert;
pub mod property;
pub mod read_path;
pub mod snapshot;
