pub mod cpu;
pub mod display;
pub mod laws;
pub mod semantics;
