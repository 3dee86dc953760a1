//! Operational statistics for game servers: parsing of remote-console
//! responses, the remote-console session state machine, the aggregate
//! server summary, per-player statistics and the username cache.

mod text;
pub mod response;
pub mod session;
pub mod query;
pub mod player;
pub mod ident;
pub mod resolver;
pub mod collector;
