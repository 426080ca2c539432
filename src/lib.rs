//! Moderation gate for chat channels: a persisted set of channels under
//! enforcement, a classifier that exempts links and attachments, and the
//! per-message enforcement sequence.

pub mod classify;
pub mod enforce;
pub mod store;
