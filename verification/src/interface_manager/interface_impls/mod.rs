//! Interfaces: how frames travel over a particular kind of wire.

pub mod can_fd;
pub mod can_fd_laws;
