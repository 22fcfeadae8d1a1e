pub mod cs_file;
pub mod device_scan;
pub mod dl_device;
pub mod game;
pub mod item;
pub mod lex;
pub mod native;
pub mod package;
pub mod profile;
pub mod properties;
pub mod text;
