//! A terminal browser for the tags of the audio files under a directory.
//!
//! The library holds what the browser decides: which files of a walk are
//! candidates, how their tags become the catalog, how the selection moves, what
//! a key does, and what the screen shows. Reading directories, files and the
//! keyboard, and drawing, are left to the program around it.

pub mod catalog;
pub mod browser;
pub mod input;
pub mod screen;
pub mod scan;
