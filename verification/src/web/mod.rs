//! The clock's small web interface.

pub mod esp_web;
