//! Message formats.
use vstd::prelude::*;

pub mod cot;
pub mod stanag_4586;

verus! {

/// Trait implemented by protocols for generating telemetry messages.
pub trait TelemMsg: Sized {
    /// A message that carries the given latitude and longitude, in units of 1e-7 degree,
    /// and the given height above the ellipsoid, in millimetres.
    fn from_coords(lat: i32, lon: i32, alt_hae: i32) -> Self;

    /// The message with `agent_id` wherever the format names the sender.
    fn with_agent_id(self, agent_id: &str) -> Self;

    /// The message in its wire format.
    fn to_bytes(&self) -> Vec<u8>;
}

} // verus!
