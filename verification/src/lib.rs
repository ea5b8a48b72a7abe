//! The decisions of a desktop monitor that polls Grafana instances for firing
//! alerts: what to request, how to read the replies, what to show and what to
//! notify.

pub mod alert;
pub mod clock;
pub mod config;
pub mod desktop;
pub mod endpoint;
pub mod json;
pub mod laws;
pub mod notification;
pub mod poll;
pub mod silence;
pub mod state;
pub mod string_map;
pub mod text;
