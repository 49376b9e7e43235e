//! State of TP-Link HS220 dimmer switches (IOT.SMARTPLUGSWITCH with
//! "Dimmer" in the device name). Brightness is at the top of the system
//! information; brightness 0 is refused by the hardware.

use vstd::prelude::*;

verus! {

/// A dimmer as reported by its system information.
#[derive(Debug)]
pub struct Dimmer {
    pub alias: String,
    pub model: String,
    pub hw_ver: String,
    pub sw_ver: String,
    pub rssi: i32,
    pub relay_state: u8,
    pub brightness: u8,
    pub feature: Option<String>,
}

impl Dimmer {
    /// The relay is closed.
    pub fn is_on(&self) -> (b: bool)
        ensures
            b == (self.relay_state == 1),
    {
        self.relay_state == 1
    }
}

} // verus!
