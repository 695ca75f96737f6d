//! Storage layout: the logical paths the clock uses, and where they live on
//! the SD card (embedded) or under the XDG directories (Linux).

pub mod logical;
pub mod embedded;
pub mod linux;
