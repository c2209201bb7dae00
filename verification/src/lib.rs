//! Node-side logic of a Chord-style distributed hash table overlay.
//!
//! Each process hosts one or more virtual ring nodes that answer ring-lookup
//! queries (`find_successor`, `get_predecessor`), probe peer liveness, and
//! maintain a per-node routing table over a circular 64-bit identifier space.

pub mod addr;
pub mod config;
pub mod convert;
pub mod digits;
pub mod finger_table;
pub mod liveness;
pub mod looping_range;
pub mod node;
pub mod node_client_factory;
pub mod node_grpc_client;
pub mod node_grpc_service;
pub mod node_info;
pub mod node_manager;
pub mod wire;
