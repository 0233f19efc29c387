//! Token-budgeted conversation memory for a chat relay.
//!
//! A relay forwards user text to a remote completion service that charges by
//! the token and reports, for each request, the total number of tokens it
//! consumed. This crate keeps a bounded conversational history per
//! conversation: it assembles the ordered message list submitted on each turn
//! (persona messages, then stored exchanges, then the new user message),
//! derives the incremental token cost of the newest exchange from the
//! reported total, and evicts the oldest exchanges once the accumulated cost
//! would exceed a configured budget. A stored exchange is always a whole
//! user/assistant pair, removed atomically. The crate also provides the
//! chunker that splits long replies into bounded segments on character
//! boundaries.

pub mod accounting;
pub mod assemble;
pub mod chunk;
pub mod manager;
pub mod model;
pub mod reply;
pub mod store;
pub mod transcript;
