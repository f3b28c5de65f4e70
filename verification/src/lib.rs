//! Hardware characteristics of an Apple Silicon system-on-chip, read from the
//! text that the host's system-information utilities print.

pub mod chip;
pub mod command;
pub mod cpu;
pub mod error;
pub mod gpu;
pub mod number;
pub mod soc;
pub mod text;
