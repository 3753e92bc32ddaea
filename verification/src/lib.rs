//! The engine of a tiling window manager for X: the control protocol's wire
//! codec, screen geometry, the per-monitor workspace model, the tiler and the
//! dispatchers for control messages and X events.
//!
//! The engine never talks to the X server. It is handed what was observed
//! there as plain values and answers with the requests to make.

pub mod config;
pub mod area;
pub mod proto;
pub mod client;
pub mod action;
pub mod workspaces;
pub mod layout;
pub mod screen;
pub mod monitors;
pub mod event;
pub mod grab;
pub mod dispatch;
pub mod wm;
pub mod error;
pub mod args;
