//! The profiles: how a device handles its external interfaces.

pub mod claim_laws;
pub mod direct_edge;
pub mod frame_laws;
pub mod interface_laws;
pub mod router;
pub mod router_frames;
pub mod router_laws;
pub mod router_model;
pub mod router_promises;
pub mod router_state;
pub mod routing_laws;
pub mod seed_laws;
pub mod state_laws;
