//! Device models for a virtual machine monitor: a GPIO controller wired up as
//! power and sleep buttons, and the display backends that carry a guest
//! framebuffer to a remote viewer or a native window.
//!
//! Everything here computes on plain values. Reading file descriptors, waiting,
//! sleeping, and talking to display servers is left to the caller, which hands
//! the outcome of each such step back in.

pub mod devices;
pub mod gpu_display;
pub mod simplefb_display;
