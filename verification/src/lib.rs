//! State engine of a terminal file browser and audio player.
//!
//! The library owns the application's logic: directory-listing order and
//! navigation, the Browse/Search/Command mode machine, the command
//! interpreter, the play queue, and the playback-position bookkeeping that
//! keeps a logical "now playing" position consistent with an external,
//! asynchronously draining audio sink.  Terminal rendering, file-system
//! access, tag reading and the audio device itself are collaborators that
//! hand the engine plain values and carry out the actions it decides on.

pub mod app;
pub mod commands;
pub mod config;
pub mod display;
pub mod file_ops;
pub mod handler;
pub mod music;
pub mod utils;

use vstd::prelude::*;

verus! {

} // verus!
