//! A layer-4 reverse proxy core: configuration rules, SNI routing, relay
//! planning and the bookkeeping of a KCP listener, with every rule stated
//! as a contract.

pub mod config;
pub mod names;
pub mod plugins;
pub mod servers;
pub mod text;
