//! Pi Smart Clock: the computing core of a Roman-numeral desk clock.
//!
//! Calendar and holiday rules, configuration parsing, storage path mapping,
//! the embedded tick counter and the display-list geometry of the DVI output.

pub mod text;
pub mod calendar;
pub mod conf;
pub mod timing;
pub mod time_util;
pub mod modules;
pub mod platform;
pub mod storage;
pub mod runtime;
pub mod ota;
pub mod web;
