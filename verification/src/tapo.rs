//! Tapo device information (P125 and the like) as `get_device_info`
//! answers it over KLAP. The nickname arrives base64-encoded; it is shown
//! decoded when it decodes to UTF-8 text, and as sent otherwise.

use vstd::prelude::*;
use vstd::utf8::{decode_utf8, encode_utf8, valid_utf8};
use crate::klap::utf8_or_message;
use base64::Engine;

verus! {

/// The information a Tapo device reports about itself.
#[derive(Debug)]
pub struct TapoDevice {
    pub model: String,
    pub hw_ver: String,
    pub fw_ver: String,
    pub device_on: bool,
    pub on_time: u64,
    pub rssi: i32,
    pub signal_level: u8,
    pub nickname: String,
    pub overheated: bool,
    pub device_id: String,
}

impl TapoDevice {
    /// The device's relay is on.
    pub fn is_on(&self) -> (b: bool)
        ensures
            b == self.device_on,
    {
        self.device_on
    }
}

/// The bytes that the standard base64 alphabet (with padding) decodes
/// `input` to, or `None` where `input` is not valid base64.
pub uninterp spec fn base64_standard(input: Seq<u8>) -> Option<Seq<u8>>;

/// `base64::engine::general_purpose::STANDARD.decode`: the contract names
/// its result as a function of the input bytes; nothing more is claimed.
#[verifier::external_body]
fn base64_decode(input: &[u8]) -> (r: Option<Vec<u8>>)
    ensures
        match r {
            Some(v) => base64_standard(input@) == Some(v@),
            None => base64_standard(input@) is None,
        },
{
    match base64::engine::general_purpose::STANDARD.decode(input) {
        Ok(v) => Some(v),
        Err(_) => None,
    }
}

/// The nickname shown for a sent nickname `sent` whose base64 decoding is
/// `decoded`: the decoded text when it is UTF-8, else `sent` unchanged.
pub open spec fn shown_nickname(sent: Seq<char>, decoded: Option<Seq<u8>>) -> Seq<char> {
    match decoded {
        Some(b) => if valid_utf8(b) { decode_utf8(b) } else { sent },
        None => sent,
    }
}

/// The nickname to show, given the sent one and what its base64 decoding
/// gave.
pub fn nickname_from_decoded(sent: String, decoded: Option<Vec<u8>>) -> (r: String)
    ensures
        r@ == shown_nickname(sent@, match decoded { Some(v) => Some(v@), None => None }),
{
    match decoded {
        Some(bytes) => match utf8_or_message(bytes) {
            Ok(s) => s,
            Err(_) => sent,
        },
        None => sent,
    }
}

/// The nickname to show for a nickname as the device sends it.
pub fn decode_nickname(sent: String) -> (r: String)
    ensures
        r@ == shown_nickname(sent@, base64_standard(encode_utf8(sent@))),
{
    let decoded = base64_decode(sent.as_str().as_bytes());
    nickname_from_decoded(sent, decoded)
}

/// The device information of a `get_device_info` answer, from the `result`
/// member as read into a `TapoDevice` (`None` when it is missing or does
/// not have the fields), with its nickname decoded.
pub fn parse(raw: Option<TapoDevice>) -> (r: Option<TapoDevice>)
    ensures
        match raw {
            None => r is None,
            Some(d) => r matches Some(e) && e.nickname@ == shown_nickname(
                d.nickname@,
                base64_standard(encode_utf8(d.nickname@)),
            ) && e.model == d.model && e.hw_ver == d.hw_ver && e.fw_ver == d.fw_ver
                && e.device_on == d.device_on && e.on_time == d.on_time && e.rssi == d.rssi
                && e.signal_level == d.signal_level && e.overheated == d.overheated
                && e.device_id == d.device_id,
        },
{
    match raw {
        None => None,
        Some(d) => {
            let TapoDevice {
                model,
                hw_ver,
                fw_ver,
                device_on,
                on_time,
                rssi,
                signal_level,
                nickname,
                overheated,
                device_id,
            } = d;
            Some(TapoDevice {
                model,
                hw_ver,
                fw_ver,
                device_on,
                on_time,
                rssi,
                signal_level,
                nickname: decode_nickname(nickname),
                overheated,
                device_id,
            })
        },
    }
}

} // verus!
