//! The verified core of `tmonitor`, a terminal uptime dashboard.

pub mod cells;
pub mod check;
pub mod cli;
pub mod clock;
pub mod config;
pub mod display;
pub mod engine;
pub mod logging;
pub mod text;
