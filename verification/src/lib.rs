//! The decision logic of a synchronised multi-speaker audio system.

pub mod quantity;
pub mod text;
pub mod registry;
pub mod json;
pub mod message;
pub mod state;
pub mod address;
pub mod order;
pub mod frame;
pub mod history;
pub mod relay;
pub mod control;
pub mod socket;
pub mod server;
pub mod relay_uplink;
pub mod capture;
pub mod dsp;
pub mod client;
pub mod protocol;
