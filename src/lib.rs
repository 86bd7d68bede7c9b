//! Surface orchestration core for a GUI runtime hosted on a Wayland compositor.
//!
//! The library keeps the per-surface bookkeeping that the event loop needs:
//! which compositor object stands for which surface, the presentation state of
//! each surface, the content-driven size negotiation with the compositor, the
//! routing of input events to surfaces, and the order in which application
//! messages and their commands are processed.
pub mod surface;
pub mod table;
pub mod autosize;
pub mod wayland_events;
pub mod presentation;
pub mod event;
pub mod command;
pub mod session;
pub mod laws;
pub mod conversion;
pub mod application;
pub mod handlers;
pub mod shell;
