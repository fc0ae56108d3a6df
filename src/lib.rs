//! Mirrors champion build datasets of registered providers into a store.
//!
//! The pieces of one sync run, leaves first:
//! - [`catalog`]: the provider catalog and the rows it becomes;
//! - [`resolve`]: retrieval strategies and a source's latest version;
//! - [`fetch`]: the addresses and files that each strategy retrieves;
//! - [`normalize`]: payload validation and the build records made from it;
//! - [`store`]: the upsert semantics of the builds table;
//! - [`sync`]: the per-source state machine and the run report.
pub mod catalog;
pub mod fetch;
pub mod model;
pub mod normalize;
pub mod resolve;
pub mod store;
pub mod sync;
