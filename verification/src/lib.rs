//! Driver core for an SSD1322 grayscale display controller.
//!
//! The crate owns an in-memory framebuffer that mirrors the controller's
//! video RAM (two 4-bit pixels packed per byte), tracks the smallest dirty
//! rectangle of bytes touched since the last flush, and emits the minimal
//! command/data sequence needed to push either the whole buffer or only the
//! dirty rectangle over a byte-oriented bus.

pub mod display;
pub mod geometry;
pub mod pixel;
pub mod transport;
