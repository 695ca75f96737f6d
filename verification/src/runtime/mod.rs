//! The clock's run loop: UI modes and the decisions each tick makes.

pub mod mode;
pub mod tick;
pub mod state;
