//! A terminal file browser's navigation core: tabs of directory-listing
//! panels, the directory-change protocol that keeps sibling panels
//! consistent, and a timeout-based multi-key command dispatcher.
//!
//! Everything here is pure state logic: the filesystem enters only
//! through the [`fsys::Filesystem`] capability, time only as explicit
//! millisecond timestamps, and the terminal not at all.

pub mod actions;
pub mod config;
pub mod events;
pub mod filelist;
pub mod filesize;
pub mod fsys;
pub mod input;
pub mod panel;
pub mod preview;
pub mod procevent;
pub mod state;
pub mod statefullist;
pub mod strutil;
pub mod tabstate;
