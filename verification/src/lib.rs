//! Decisions, icon drawing and random targets of a menu-bar utility that keeps
//! a machine awake by moving the mouse cursor every few seconds.
pub mod icon;
pub mod icon_files;
pub mod lcg;
pub mod lcg_period;
pub mod mover;
pub mod tray;
