//! The user-facing settings a host front end keeps: the display name and
//! the server address, with their persisted shape.

use vstd::prelude::*;

verus! {

/// Live settings as a front end holds them.
#[derive(Debug, Clone)]
pub struct Settings {
    pub name: String,
    pub server_ip: String,
}

/// Settings as they are written to disk.
#[derive(Debug, Clone)]
pub struct SerializedSettings {
    pub name: String,
    pub server_address: String,
}

impl Settings {
    /// The persisted shape of these settings.
    pub fn to_serialized(&self) -> (r: SerializedSettings)
        ensures
            r.name@ == self.name@,
            r.server_address@ == self.server_ip@,
    {
        SerializedSettings { name: self.name.clone(), server_address: self.server_ip.clone() }
    }
}

impl SerializedSettings {
    /// The live shape of persisted settings.
    pub fn to_settings(&self) -> (r: Settings)
        ensures
            r.name@ == self.name@,
            r.server_ip@ == self.server_address@,
    {
        Settings { name: self.name.clone(), server_ip: self.server_address.clone() }
    }
}

} // verus!
