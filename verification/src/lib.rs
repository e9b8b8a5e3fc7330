//! The logic of an 8×8 RGB LED matrix display.
//!
//! Frames arrive as bytes on a serial line ([`ingest`]), wait in a
//! single-slot mailbox ([`mailbox`]) and are shown row by row through a
//! bit-banged shift-register protocol ([`matrix`], [`wire`], [`display`]). While the
//! line is idle a scrolling text takes over ([`screensaver`]). Three frame
//! buffers from a fixed pool ([`pool`]) go round between the tasks: one on
//! show, one being filled, one pending.
//!
//! Nothing here touches hardware or keeps time. The firmware around the
//! library reads the serial line, performs the pin operations that the
//! driver decides on, and schedules the tasks.

pub mod display;
pub mod gamma;
pub mod image;
pub mod ingest;
pub mod mailbox;
pub mod matrix;
pub mod pool;
pub mod screensaver;
pub mod wire;

pub use gamma::gamma_correct;
pub use image::{Color, Image};
