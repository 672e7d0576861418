//! Channel discovery and gift-notice watching for a chat platform.
//!
//! - `harvest`: the catalog requests, and joining their pages all-or-nothing.
//! - `registry` and `order`: merging channel names into a sorted list without repeats.
//! - `notice`: classifying gift notices and keeping only those for one recipient.
//! - `session`: the decisions of the chat session, from connecting to reconnecting.
//! - `config`: the persisted settings.
pub mod config;
pub mod harvest;
pub mod notice;
pub mod order;
pub mod registry;
pub mod session;

pub use config::Config;
