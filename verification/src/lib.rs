//! Ingestion pipeline for cryptocurrency market data: decoding of the
//! identifier-map and market-listing endpoint payloads, mapping of the
//! decoded records onto the relational rows, and a clear-then-repopulate
//! refresh of the three tables that keeps their foreign keys consistent.

pub mod bytes;
pub mod config;
pub mod cycle;
pub mod decode;
pub mod json;
pub mod listing_decoder;
pub mod map_decoder;
pub mod num;
pub mod route;
pub mod rows;
pub mod store;
pub mod tstamp;
pub mod wire;
