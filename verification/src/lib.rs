//! Task-list reconciliation core: an authoritative task store, the service
//! that mediates between it and the identity gateway, a dispatcher that tracks
//! mutations to a terminal state, and the view model that merges confirmed and
//! pending state into the list a client displays.

pub mod dispatcher;
pub mod error;
pub mod identity;
pub mod laws;
pub mod mutation;
pub mod service;
pub mod session;
pub mod store;
pub mod task;
pub mod view_model;
