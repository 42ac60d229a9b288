//! A same-host web crawler core: link extraction, a per-host store of known
//! URLs with insert-if-new semantics, and a bounded traversal driven one
//! fetched page at a time.

pub mod api;
pub mod links;
pub mod store;
pub mod strings;
pub mod traversal;
pub mod weburl;
