//! Text-mode console core: a scroll buffer larger than the physical
//! character grid, a display engine with insertion, deletion, wrapping and
//! scrolling, and a terminal that multiplexes several independent screens
//! onto one device.
//!
//! The physical device (VGA text memory and the CRTC cursor registers) is
//! modelled by a plain cell vector owned by each engine, so the whole engine
//! is ordinary verified code; a hardware backend only has to copy that
//! vector into device memory.

pub mod screen;
pub mod terminal;
pub mod vga;
