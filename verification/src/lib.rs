//! Scheduling and caching of off-screen scene previews for Bevy.
//!
//! Requests for a preview of a scene are merged and queued, a fixed pool of
//! render slots bounds how many scenes are rendered at once, and a scene whose
//! render has settled is served from a cache from then on.
//!
//! - [`cache`]: what was requested, what waits, and what is finished.
//! - [`slots`]: the pool of render slots.
//! - [`schedule`]: the steps of a tick, which work on both.
//! - [`model`]: the state of the scheduler as a mathematical value.
//! - [`laws`]: what holds of every run of the scheduler.
//! - [`settings`]: the options.
//! - [`scene`], [`tables`], [`host`]: the types and calls of Bevy that the
//!   scheduler rests on.

pub mod cache;
pub mod host;
pub mod laws;
pub mod model;
pub mod scene;
pub mod schedule;
pub mod settings;
pub mod slots;
pub mod tables;
