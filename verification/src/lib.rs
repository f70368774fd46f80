//! Telemetry benchmark core: synthetic racing records, a model of the storage engine
//! with a relational and a wide-column variant, aggregate queries with their
//! time-window semantics, and the throughput accounting of the ingestion loop.

pub mod backend;
pub mod clock;
pub mod error;
pub mod generator;
pub mod ingest;
pub mod query;
pub mod record;
pub mod render;
pub mod service;
pub mod span;
pub mod statement;
pub mod table;
pub mod window;
