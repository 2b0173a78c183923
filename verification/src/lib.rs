//! Verified core of a legal-case lookup service: structured queries are
//! answered from a fast HTML mirror first, with fallback to browser
//! automation against the authoritative court database. This crate holds
//! the decision logic and text extraction; transport and browser I/O live
//! outside it.
pub mod automation;
pub mod digits;
pub mod dispatch;
pub mod error;
pub mod mirror;
pub mod model;
pub mod normalize;
pub mod text;
