//! Event-routing and self-healing channel-lifecycle core for a GitHub-to-chat
//! bridge serving many independent guilds.
//!
//! The library verifies webhook authenticity, classifies repository events,
//! rate-limits expensive administrative commands per tenant, and reconciles a
//! tenant's channel/thread tree with the identifiers persisted for each
//! governed project, repairing whatever has drifted out from under it.

pub mod commands;
pub mod dispatch;
pub mod error;
pub mod find;
pub mod format;
pub mod guild;
pub mod ids;
pub mod store;
pub mod events;
pub mod policy;
pub mod rate_limit;
pub mod rules;
pub mod strutil;
pub mod verify;
pub mod whitelist;

pub use error::Error;
