//! The core of a small image gallery: a cache of lazily decoded images, a
//! cursor that walks a circular list of them, and the bounded queue through
//! which neighbouring images are requested ahead of need.
//!
//! Everything here is sequential and owns its data. Locks, threads, file
//! reads and the display belong to the program built around this crate; it
//! hands the library plain values and closures.

pub mod classify;
pub mod decode;
pub mod error;
pub mod image_file;
pub mod input;
pub mod navigator;
pub mod pixels;
pub mod preload_queue;
