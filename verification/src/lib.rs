//! Synchronize and filter a remote notification inbox.
//!
//! The library holds the verified core of the tool: the pagination-header
//! parser, the response classification used for rate-limit recovery, the
//! ordered filter pipeline over subscriptions, and the planning of bulk
//! unsubscribe/mark-read mutations.  Network transport, configuration files
//! and JSON decoding live outside the library and hand it plain values.

pub mod error;
pub mod filters;
pub mod gh_objects;
pub mod link_header;
pub mod mutation;
pub mod requester;
pub mod subscription;
pub mod text;
