//! Decision logic of a watcher that wakes agents on pending signals.

pub mod board;
pub mod cards;
pub mod clock;
pub mod config;
pub mod error;
pub mod gates;
pub mod json;
pub mod locks;
pub mod nudge;
pub mod number;
pub mod order;
pub mod plugin;
pub mod quota;
pub mod reapers;
pub mod scan;
pub mod signal;
pub mod signals;
pub mod spawn;
pub mod sync;
pub mod tables;
pub mod text;
pub mod toml_doc;
pub mod tracker;
pub mod verbs;
pub mod watch_loop;
pub mod worksource;
