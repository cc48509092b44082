//! A client-side cache and reconciliation layer between a chat server's room-list
//! diff stream and a UI: the room store with its display lists, the diff reconciler,
//! and the per-room timeline state that the UI renders.

pub mod power_levels;
pub mod models;
pub mod text;
pub mod room;
pub mod display;
pub mod rooms_list;
pub mod snapshot;
pub mod reconciler;
pub mod timeline;
pub mod consumer;
pub mod notifications;
pub mod user_profile;
pub mod laws;
