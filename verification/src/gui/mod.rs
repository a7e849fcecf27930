//! The decisions behind the tool's window: what differs from the system,
//! what to request, and what to show.
pub mod app;
pub mod views;
