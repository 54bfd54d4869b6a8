//! Logging over the network.

pub mod defmt_v1;
