//! Turns a count of seconds, milliseconds or microseconds into a
//! human-readable, unit-decomposed string such as `"3 seconds, 600 milliseconds"`.

pub mod config;
pub mod render;
pub mod text;
pub mod units;

pub use units::{convert_time, unit_family, Elapsed, TimeUnit};
pub use config::{validate_config, Args, Config, Formatting, Units};
pub use render::format_duration;
