//! A verified synchronization core for a desktop chat client.
//!
//! The library maintains an in-memory projection of a messaging backend's
//! accounts, chats and messages for a UI thread, and decides how that
//! projection is refreshed in response to backend events and user commands.
//! The backend itself (network, disk, rendering) lives outside the library;
//! the engine here is verified against an in-memory model of the backend's
//! documented behaviour, and a host program drives it from real queues.

pub mod backend;
pub mod color;
pub mod engine;
pub mod idmap;
pub mod local;
pub mod mailbox;
pub mod translator;
pub mod types;
pub mod ui;
pub mod window;
