//! Verified core of the Jingzhuo desktop overlay.
pub mod text;
pub mod clock;
pub mod config;
pub mod paths;
pub mod file_access;
pub mod archive;
pub mod wallpaper;
pub mod weather;
pub mod ai;
pub mod audio;
pub mod shortcuts;
