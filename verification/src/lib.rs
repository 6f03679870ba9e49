//! Block indexer core: the decisions and record shaping of an ingestion
//! pipeline for a Tendermint-based chain, stated with contracts.
//!
//! The core never talks to a node or a store itself. It takes what the node
//! answered as plain values (`chain`, `node`), decides what is to be done
//! next (`producer`, `worker`, `modules`), and shapes the records that are
//! written (`database`). Whoever runs it performs the calls in between.

pub mod chain;
pub mod config;
pub mod database;
pub mod error;
pub mod modules;
pub mod node;
pub mod producer;
pub mod utils;
pub mod worker;

pub use error::Error;
