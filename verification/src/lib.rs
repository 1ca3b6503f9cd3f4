//! Query service and graph assembly for a movie datastore.
//!
//! The crate turns raw query rows into typed records and assembles a
//! deduplicated node/link subgraph for visualization. All row decoding,
//! classifier derivation, text matching, query construction and graph
//! assembly is verified; the network edge (driver, routing) lives outside
//! the library and feeds it plain values.

pub mod assemble;
pub mod decode;
pub mod records;
pub mod row;
pub mod service;
pub mod text;
