//! Persistent-state notification and interactive-workflow engine for a
//! chat bot: followed broadcasts, recurring check-in campaigns, support
//! tickets and role-button panels, each kept as a durable record and
//! reconciled against external state.
pub mod checkin;
pub mod codec;
pub mod colors;
pub mod papers;
pub mod permissions;
pub mod store;
pub mod streams;
pub mod text;
pub mod tickets;
