//! Token-usage capture for ephemeral Codex side conversations.

pub mod text;
pub mod clock;
pub mod table;
pub mod json;
pub mod wire;

pub mod record;
pub mod bridge;
pub mod reading_laws;
pub mod bridge_laws;
pub mod message_laws;
pub mod privacy_laws;

pub mod spool;
pub mod spool_laws;

pub mod event;
pub mod cost;
pub mod import;
pub mod sync;
pub mod sync_laws;
pub mod row_laws;
pub mod step_laws;
pub mod log_laws;
pub mod pass_laws;

pub mod launch;
pub mod launch_laws;
