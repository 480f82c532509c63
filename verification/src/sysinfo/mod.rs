//! Labels that show system metrics, refreshed on timers.

pub mod controller;
pub mod interval;
pub mod metric;
pub mod module;
pub mod refresh;
pub mod shown;
pub mod states;
pub mod token;
pub mod trace;
pub mod widget;
