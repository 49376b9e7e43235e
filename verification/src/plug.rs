//! State of TP-Link smart plugs (KP115, HS110, HS105, ...).
//!
//! The feature string lists "TIM" for schedules and "ENE" for energy
//! monitoring ("TIM:ENE" for both). The LED field is inverted: led_off = 1
//! means the LED is dark.

use vstd::prelude::*;
use crate::fmt::{on_time, on_time_spec};
use crate::text::{chars_of, contains_chars, contains_seq};

verus! {

/// A plug as reported by its system information.
#[derive(Debug)]
pub struct Plug {
    pub alias: String,
    pub model: String,
    pub hw_ver: String,
    pub sw_ver: String,
    pub rssi: i32,
    pub relay_state: u8,
    pub on_time: u64,
    pub led_off: u8,
    pub feature: Option<String>,
}

/// The feature string lists energy monitoring.
pub open spec fn feature_has_energy(feature: Option<String>) -> bool {
    match feature {
        Some(f) => contains_seq(f@, "ENE"@),
        None => false,
    }
}

/// Whether a feature string lists energy monitoring ("ENE").
pub fn feature_lists_energy(feature: &Option<String>) -> (b: bool)
    ensures
        b == feature_has_energy(*feature),
{
    match feature {
        Some(f) => contains_chars(&chars_of(f.as_str()), &chars_of("ENE")),
        None => false,
    }
}

impl Plug {
    /// The relay is closed.
    pub fn is_on(&self) -> (b: bool)
        ensures
            b == (self.relay_state == 1),
    {
        self.relay_state == 1
    }

    /// The plug measures energy (its feature string lists "ENE").
    pub fn has_energy_monitoring(&self) -> (b: bool)
        ensures
            b == feature_has_energy(self.feature),
    {
        feature_lists_energy(&self.feature)
    }

    /// The on-time as shown: "off" when zero, else a duration.
    pub fn on_time_fmt(&self) -> (s: String)
        ensures
            s@ == on_time_spec(self.on_time as nat),
    {
        on_time(self.on_time)
    }
}

} // verus!
