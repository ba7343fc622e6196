//! Verified core of the rate-limit meter firmware.
pub mod calendar;
pub mod credentials;
pub mod date_laws;
pub mod fixed_vec;
pub mod geometry;
pub mod http_date;
pub mod panel;
pub mod poll;
pub mod screen;
pub mod st7789;
pub mod text;
pub mod usage;
