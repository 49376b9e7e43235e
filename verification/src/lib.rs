//! denki: control of TP-Link Kasa and Tapo smart devices, with the protocol
//! framing, alias registry, capability rules and device-state logic verified.

pub mod cipher;
pub mod text;
pub mod hosts;
pub mod devices;
pub mod fmt;
pub mod json;
pub mod bulb;
pub mod plug;
pub mod dimmer;
pub mod strip;
pub mod classify;
pub mod tapo;
pub mod http;
pub mod klap;
pub mod hints;
pub mod effects;
pub mod resolve;
pub mod creds;
pub mod transport;
pub mod admin;
pub mod ops;
pub mod group;
pub mod scan;
pub mod display;
pub mod doctor;
