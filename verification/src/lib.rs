//! Core of a tick-synchronized game server: a tick-driven task scheduler
//! with cooperative cancellation, and a priority-ordered, cancellable
//! event bus for plugin listeners.
//!
//! The scheduler and the bus are pure state machines: they decide, at each
//! tick or fire, which handlers are due and in what order, and hand those
//! decisions to the embedding runtime, which performs the actual concurrent
//! dispatch.

pub mod combat;
pub mod event;
pub mod event_laws;
pub mod events;
pub mod persistence;
pub mod task;
pub mod task_laws;
