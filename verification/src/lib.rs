//! A streaming ingestion-to-columnar-storage pipeline for geographic map data.
//!
//! Decoded map primitives (points, polylines and relations, each carrying an
//! identifier and a tag list) are routed by kind into per-kind lanes, buffered,
//! and flushed in batches as row groups of fixed-layout column-oriented tables.
//! The tables themselves are produced by the `parquet` crate behind a small
//! trusted boundary; everything else — the primitive model, the schema
//! registry, the batch-to-columns normalization, the flush policy and the
//! bounded queue used for backpressure — is verified.

pub mod columns;
pub mod lane;
pub mod model;
pub mod pipeline;
pub mod queue;
pub mod rows;
pub mod schema;
pub mod store;
