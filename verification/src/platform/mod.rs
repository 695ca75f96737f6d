pub mod dvi_gfx;
pub mod rp2040;
pub mod linux_audio;
pub mod linux;
