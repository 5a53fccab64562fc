//! Local backend of a git-worktree management tool.
//!
//! The crate validates ref names, caches open repository handles with
//! time- and capacity-bounded eviction, exposes repository operations
//! through a line-delimited JSON request/response protocol, and turns
//! bursts of filesystem events into single coalesced change events.

pub mod cache;
pub mod diffmod;
pub mod gitext;
pub mod gitops;
pub mod host;
pub mod jsonin;
pub mod jsonout;
pub mod netinfo;
pub mod refname;
pub mod rpc;
pub mod status;
pub mod strutil;
pub mod tokens;
pub mod watchfilter;
pub mod watchwork;
