//! A mirror of a provider's quest catalog.
//!
//! The provider sends its catalog as one nested JSON document. This library
//! keeps the quests of the catalog in a normalized store, one table for each
//! kind of row, and rebuilds the provider's document from the store on demand.
//! A sync cycle ingests only the quests that the store does not hold yet; a
//! cache gate serves the last rebuilt catalog while it is fresh.
//!
//! - [`json`]: the JSON values that documents are made of.
//! - [`fields`]: reading the members of a JSON object by key and type.
//! - [`time`]: instants, and the timestamp codec of the wire format.
//! - [`error`]: the failures, and how each is shown to a client.
//! - [`config`]: the settings of a running service.
//! - [`provider`]: the provider's documents, and reading them from JSON.
//! - [`models`]: the rows of the normalized store.
//! - [`store`]: the normalized store and its operations.
//! - [`ingest`]: from a provider's quest to rows in the store.
//! - [`reconstruct`]: from rows in the store to a provider's document.
//! - [`roundtrip`]: reading back what was rebuilt.
//! - [`sync`]: the cache gate and the sync cycle.
//! - [`discord`]: what an answer of the provider means.
//! - [`text`]: helpers for strings and for sequences seen through their views.

pub mod config;
pub mod discord;
pub mod error;
pub mod fields;
pub mod ingest;
pub mod json;
pub mod models;
pub mod provider;
pub mod reconstruct;
pub mod roundtrip;
pub mod store;
pub mod sync;
pub mod text;
pub mod time;
