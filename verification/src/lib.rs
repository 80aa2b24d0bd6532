//! An embeddable application runtime core: a type-keyed plugin registry, handler
//! signatures resolved against it, an event map with a deferred event queue, and the
//! builder and lifecycle that tie them together.
//!
//! User code never runs inside this crate. A handler is a numbered signature; the
//! runtime decides which handler is invoked next and with which event, and the host
//! performs the invocation and comes back for the next decision.

pub mod app;
pub mod builder;
pub mod config;
pub mod device;
pub mod error;
pub mod event;
pub mod gfx;
pub mod handlers;
pub mod runner;
pub mod storage;
pub mod texture;
pub mod trace;
