//! Cache-aside decorator logic for a single record type ("post"): the cache
//! key scheme, the textual encoding of cache entries, and the decisions of the
//! read and write paths, all stated over mathematical models and verified.

pub mod hex;
pub mod post;
pub mod codec;
pub mod keys;
pub mod cache;
pub mod consistency;
pub mod config;
