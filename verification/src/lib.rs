//! Ingestion pipeline for insider-transaction disclosures: a decoder that
//! turns a raw submission envelope into a typed `File4` record, and the pure
//! per-tick logic of a feed watcher that discovers newly published documents.

pub mod codecs;
pub mod decode;
pub mod envelope;
pub mod model;
pub mod numbers;
pub mod watch;
pub mod xml;
pub mod strutil;
