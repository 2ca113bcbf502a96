//! Authentication and secure-boot orchestration between a host unit and its
//! peripherals: the wire layout both sides share, the credential gate, the
//! peripheral's command dispatcher and the host's scan / validate / boot passes.

pub mod wire;
pub mod gate;
pub mod peripheral;
pub mod host;
pub mod boot_trace;
