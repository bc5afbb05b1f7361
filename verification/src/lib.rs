//! Snapshot container and snapshot decoders for a ZX Spectrum runner.
//!
//! The crate packs a machine snapshot and its optional companions (a display
//! filter, a patch list, a configuration) behind a runnable image, finds them
//! again from the fixed trailer at the end of the image, and turns the two
//! legacy snapshot formats into the one canonical layout the emulator loads.

pub mod bytes;
pub mod codec;
pub mod config;
pub mod container;
pub mod error;
pub mod host;
pub mod modes;
pub mod osd;
pub mod pages;
pub mod pokes;
pub mod rle;
pub mod session;
pub mod shader;
pub mod snapshot;
pub mod szx_loader;
pub mod text;
pub mod z80_loader;
