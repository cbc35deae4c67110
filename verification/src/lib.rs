//! Fleet directory and request routing for a pool of backend servers.

pub mod api;
pub mod db;
pub mod error;
pub mod invariants;
pub mod laws;
pub mod model;
pub mod placement;
pub mod proxy;
pub mod seqs;
pub mod text;
pub mod trusted;

pub use db::{Database, Server, Tenant};
