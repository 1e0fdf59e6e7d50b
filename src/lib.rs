//! Normalisation of coding-agent activity logs into one session/event model,
//! with the decision logic of ingestion, storage, search and watching.

pub mod text;
pub mod json;
pub mod model;
pub mod ids;
pub mod paths;
pub mod timestamp;
pub mod pricing;
pub mod duration;
pub mod sql;
pub mod store;
pub mod watcher;
pub mod metrics;
pub mod health;
pub mod reports;
pub mod adapters;
