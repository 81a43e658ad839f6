//! Verified core of a client for a radio-station directory: station lists are
//! looked up by tag, and a bounded least-recently-used cache keeps results so
//! that a repeated query needs no second request.
//!
//! The crate decides and remembers; it performs no I/O. A caller runs the
//! HTTP exchange and decodes the response body, and hands the outcome of
//! each to the [`RadioBrowserClient`].

pub mod cache;
pub mod client;
pub mod error;
pub mod lru_store;
pub mod query;
pub mod recency;
pub mod station;

pub use cache::{Cache, MemoryCache};
pub use client::{
    PendingDecode, PendingFetch, RadioBrowserClient, ReplyStep, SearchStep, TransportReply,
    DEFAULT_BASE_URL, DEFAULT_CAPACITY,
};
pub use error::RadioBrowserError;
pub use query::{cache_key, search_url};
pub use station::{clone_stations, RadioStation};
