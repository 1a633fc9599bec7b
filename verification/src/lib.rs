//! The decisions of a lake of iceberg tables: which catalog it has, how its namespace and its tables
//! come about, how batches reach a table, and what becomes of the writes of a transaction.
//!
//! What talks to the catalog, to files or to the schema registry is left to the caller. The library
//! says step by step what is to be done, and goes on from the answer.

pub mod builder;
pub mod catalog;
pub mod engine;
pub mod error;
pub mod house;
pub mod keyed;
pub mod locator;
pub mod namespace;
pub mod plan;
pub mod props;
pub mod shared;
pub mod staging;
pub mod store;
pub mod table;
pub mod text;
pub mod write;
