//! A cluster node runtime: a round-robin service registry fed by liveliness
//! samples, key expressions, the typed RPC contract and wire types, and the
//! decisions of a node serving and calling services; plus id generators and
//! gateway configuration.
use vstd::prelude::*;

pub mod config;
pub mod keyexpr;
pub mod laws;
pub mod node;
pub mod registry;
pub mod service;
pub mod session;
pub mod snowflake;
pub mod text;
pub mod timezone;
pub mod vars;
pub mod wire;
pub mod xid;

verus! {

} // verus!
