//! State of TP-Link KL135 bulbs and KL430 light strips (type IOT.SMARTBULB).
//!
//! When the light is on, brightness, color temperature, hue and saturation
//! are reported at the top of the light state; when it is off they move into
//! the default-on state. The accessors hide this.

use vstd::prelude::*;

verus! {

/// A bulb or light strip as reported by its system information.
#[derive(Debug)]
pub struct Bulb {
    pub alias: String,
    pub model: String,
    pub hw_ver: String,
    pub sw_ver: String,
    pub rssi: i32,
    pub is_color: u8,
    pub is_dimmable: u8,
    pub is_variable_color_temp: u8,
    pub light_state: LightState,
    pub lighting_effect_state: Option<LightingEffectState>,
}

/// The light state: the current values when on, the default-on values when off.
#[derive(Debug)]
pub struct LightState {
    pub on_off: u8,
    pub brightness: Option<u8>,
    pub color_temp: Option<u16>,
    pub hue: Option<u16>,
    pub saturation: Option<u8>,
    pub dft_on_state: Option<DftOnState>,
}

/// The values a light takes when switched on.
#[derive(Debug, Clone, Copy)]
pub struct DftOnState {
    pub brightness: u8,
    /// 0 when the HSV color mode is active.
    pub color_temp: u16,
    pub hue: u16,
    pub saturation: u8,
}

/// A light strip's lighting effect.
#[derive(Debug)]
pub struct LightingEffectState {
    pub enable: u8,
    pub name: String,
    pub custom: u8,
    pub id: Option<String>,
    pub brightness: Option<u8>,
    pub segments: Option<Vec<u8>>,
    pub expansion_strategy: Option<u8>,
    pub effect_type: Option<String>,
    pub hue_range: Option<Vec<u16>>,
    pub saturation_range: Option<Vec<u8>>,
    pub brightness_range: Option<Vec<u8>>,
    pub duration: Option<u16>,
    pub transition: Option<u16>,
    pub transition_range: Option<Vec<u16>>,
    pub init_states: Option<Vec<Vec<u8>>>,
}

/// Brightness: the reported value, else the default-on value, else zero.
pub open spec fn brightness_of(ls: LightState) -> u8 {
    match ls.brightness {
        Some(v) => v,
        None => match ls.dft_on_state { Some(d) => d.brightness, None => 0 },
    }
}

/// Color temperature: the reported value, else the default-on value, else zero.
pub open spec fn color_temp_of(ls: LightState) -> u16 {
    match ls.color_temp {
        Some(v) => v,
        None => match ls.dft_on_state { Some(d) => d.color_temp, None => 0 },
    }
}

/// Hue: the reported value, else the default-on value, else zero.
pub open spec fn hue_of(ls: LightState) -> u16 {
    match ls.hue {
        Some(v) => v,
        None => match ls.dft_on_state { Some(d) => d.hue, None => 0 },
    }
}

/// Saturation: the reported value, else the default-on value, else zero.
pub open spec fn saturation_of(ls: LightState) -> u8 {
    match ls.saturation {
        Some(v) => v,
        None => match ls.dft_on_state { Some(d) => d.saturation, None => 0 },
    }
}

/// Each light setting reads as reported; when the bulb leaves it out (an
/// off bulb reports no brightness, color temperature, hue or saturation) it
/// reads as the setting the bulb turns on with, and as 0 when neither is
/// known.
pub proof fn law_setting_falls_back_to_default_on(ls: LightState)
    ensures
        ls.brightness matches Some(x) ==> brightness_of(ls) == x,
        ls.brightness is None && ls.dft_on_state is Some ==> brightness_of(ls) == ls.dft_on_state->Some_0.brightness,
        ls.color_temp matches Some(x) ==> color_temp_of(ls) == x,
        ls.color_temp is None && ls.dft_on_state is Some ==> color_temp_of(ls) == ls.dft_on_state->Some_0.color_temp,
        ls.hue matches Some(x) ==> hue_of(ls) == x,
        ls.hue is None && ls.dft_on_state is Some ==> hue_of(ls) == ls.dft_on_state->Some_0.hue,
        ls.saturation matches Some(x) ==> saturation_of(ls) == x,
        ls.saturation is None && ls.dft_on_state is Some ==> saturation_of(ls) == ls.dft_on_state->Some_0.saturation,
        ls.dft_on_state is None ==> (ls.brightness is None ==> brightness_of(ls) == 0)
            && (ls.color_temp is None ==> color_temp_of(ls) == 0) && (ls.hue is None ==> hue_of(ls) == 0)
            && (ls.saturation is None ==> saturation_of(ls) == 0),
{
}

impl LightState {
    /// The light is on.
    pub fn is_on(&self) -> (b: bool)
        ensures
            b == (self.on_off == 1),
    {
        self.on_off == 1
    }

    /// Brightness in percent.
    pub fn brightness(&self) -> (v: u8)
        ensures
            v == brightness_of(*self),
            self.brightness matches Some(x) ==> v == x,
            self.brightness is None && self.dft_on_state is Some ==> v == self.dft_on_state->Some_0.brightness,
            self.brightness is None && self.dft_on_state is None ==> v == 0,
    {
        match self.brightness {
            Some(b) => b,
            None => match &self.dft_on_state {
                Some(d) => d.brightness,
                None => 0,
            },
        }
    }

    /// Color temperature in Kelvin; 0 in HSV color mode.
    pub fn color_temp(&self) -> (v: u16)
        ensures
            v == color_temp_of(*self),
            self.color_temp matches Some(x) ==> v == x,
            self.color_temp is None && self.dft_on_state is Some ==> v == self.dft_on_state->Some_0.color_temp,
            self.color_temp is None && self.dft_on_state is None ==> v == 0,
    {
        match self.color_temp {
            Some(c) => c,
            None => match &self.dft_on_state {
                Some(d) => d.color_temp,
                None => 0,
            },
        }
    }

    /// Hue in degrees.
    pub fn hue(&self) -> (v: u16)
        ensures
            v == hue_of(*self),
            self.hue matches Some(x) ==> v == x,
            self.hue is None && self.dft_on_state is Some ==> v == self.dft_on_state->Some_0.hue,
            self.hue is None && self.dft_on_state is None ==> v == 0,
    {
        match self.hue {
            Some(h) => h,
            None => match &self.dft_on_state {
                Some(d) => d.hue,
                None => 0,
            },
        }
    }

    /// Saturation in percent.
    pub fn saturation(&self) -> (v: u8)
        ensures
            v == saturation_of(*self),
            self.saturation matches Some(x) ==> v == x,
            self.saturation is None && self.dft_on_state is Some ==> v == self.dft_on_state->Some_0.saturation,
            self.saturation is None && self.dft_on_state is None ==> v == 0,
    {
        match self.saturation {
            Some(s) => s,
            None => match &self.dft_on_state {
                Some(d) => d.saturation,
                None => 0,
            },
        }
    }
}

} // verus!
