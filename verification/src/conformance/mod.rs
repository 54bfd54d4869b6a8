//! Means to check that a net stack behaves as it has to.

pub mod mocks;
