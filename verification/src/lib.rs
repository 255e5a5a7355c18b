//! Verified core of the dockrs Docker management service: request
//! validation, environment status, resource views, stack aggregation,
//! the agent protocol bookkeeping and the authentication decisions.

pub mod agent;
pub mod agent_client;
pub mod auth;
pub mod docker;
pub mod environments;
pub mod error;
pub mod overview;
pub mod resources;
pub mod settings;
pub mod snapshot;
pub mod stacks;
pub mod tagged_map;
pub mod text;

pub use vstd::hash_map::StringHashMap;
