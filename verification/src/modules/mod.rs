pub mod bottom_module;
pub mod kind;
pub mod config;
pub mod module_id;
pub mod slot;
pub mod lunar;
pub mod holidays;
pub mod weather;
pub mod calendar;
pub mod zodiac;
pub mod venus_pentagram;
pub mod faces;
pub mod bar;
