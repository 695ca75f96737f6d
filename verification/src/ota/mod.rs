//! Over-the-air firmware updates.

pub mod updater;
pub mod progress;
