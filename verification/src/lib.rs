//! Serves image files from a root directory and, on request, resizes or
//! converts them, caching each transformed result in a bounded, time-limited
//! in-memory cache.
//!
//! The verified core covers request resolution (path normalization and format
//! detection), query interpretation, the pass-through decision, destination
//! size computation, the decode/resample/encode pipeline around trusted codec
//! calls, and the result cache with its capacity and expiry invariants.

pub mod cache;
pub mod config;
pub mod error;
pub mod format;
pub mod paths;
pub mod pipeline;
pub mod query;
pub mod sizing;
