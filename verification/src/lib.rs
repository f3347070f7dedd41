//! Verified core of a freestanding FAT32 volume inspector.
//!
//! The crate holds three pieces: a fixed-region bump allocator that serves
//! heap-style requests without an operating system, a boot-sector parser that
//! derives the volume geometry from the first 512 bytes of a raw image, and a
//! directory scanner that walks the directory tree of the image and collects
//! one record per valid entry.

pub mod allocator;
pub mod bytes;
pub mod geometry;
pub mod scanner;
