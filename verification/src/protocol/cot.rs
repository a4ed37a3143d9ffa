//! Cursor on Target: the fields of a marker message that this library decides.
//!
//! A marker message is an XML document of a schema that is not this library's own. Of
//! its fields the library sets the position and the two names of the sender;
//! [`CotFields`] holds these, and the document is written from them elsewhere.
use vstd::prelude::*;

verus! {

/// What a marker message says of its sender. `None` stands for a field that is left as
/// the schema has it by default.
#[derive(Debug)]
pub struct CotFields {
    /// Latitude of the point, in units of 1e-7 degree.
    pub lat: i32,
    /// Longitude of the point, in units of 1e-7 degree.
    pub lon: i32,
    /// Height of the point above the ellipsoid, in millimetres.
    pub hae: i32,
    /// The unique id of the event.
    pub uid: Option<String>,
    /// The callsign of the contact in the detail section.
    pub callsign: Option<String>,
}

impl CotFields {
    /// Whether the message names `agent_id` as its sender: in the unique id and in the
    /// callsign alike.
    pub open spec fn names(self, agent_id: Seq<char>) -> bool {
        &&& self.uid matches Some(uid) && uid@ == agent_id
        &&& self.callsign matches Some(callsign) && callsign@ == agent_id
    }

    /// The fields of a message for the given point, which does not name its sender.
    pub fn from_coords(lat: i32, lon: i32, alt_hae: i32) -> (fields: Self)
        ensures
            fields.lat == lat,
            fields.lon == lon,
            fields.hae == alt_hae,
            fields.uid is None,
            fields.callsign is None,
    {
        CotFields { lat, lon, hae: alt_hae, uid: None, callsign: None }
    }

    /// The same fields, with `agent_id` as the unique id and as the callsign.
    pub fn with_agent_id(self, agent_id: &str) -> (fields: Self)
        ensures
            fields.names(agent_id@),
            fields.lat == self.lat,
            fields.lon == self.lon,
            fields.hae == self.hae,
    {
        CotFields {
            lat: self.lat,
            lon: self.lon,
            hae: self.hae,
            uid: Some(agent_id.to_string()),
            callsign: Some(agent_id.to_string()),
        }
    }
}

} // verus!
