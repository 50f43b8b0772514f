//! Implemented protocols are [`tcp`] and [`udp`].
pub mod tcp;
pub mod udp;
