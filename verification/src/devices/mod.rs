//! Memory-mapped platform devices.

pub mod pl061;
pub mod pl061_laws;
pub mod pl061_pin_laws;
pub mod pl061_regs;
