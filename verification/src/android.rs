//! Decisions of the headset client's Android glue: which input devices are
//! controllers and for which hand, when a battery counts as plugged, which
//! platform features an API level offers, and the byte order of the Wi-Fi
//! address.

use crate::text::{
    ascii_lower_seq, chars_of, contains, contains_spec, lemma_ascii_lower_idempotent,
    to_ascii_lower,
};
use vstd::prelude::*;

verus! {

/// `InputDevice.SOURCE_GAMEPAD`.
pub const SOURCE_GAMEPAD: i32 = 0x0000_0401;

/// `InputDevice.SOURCE_JOYSTICK`.
pub const SOURCE_JOYSTICK: i32 = 0x0100_0010;

/// `BatteryManager.BATTERY_STATUS_CHARGING`.
pub const BATTERY_STATUS_CHARGING: i32 = 2;

/// `BatteryManager.BATTERY_STATUS_FULL`.
pub const BATTERY_STATUS_FULL: i32 = 5;

/// `WifiManager.WIFI_MODE_FULL_HIGH_PERF`.
pub const WIFI_MODE_FULL_HIGH_PERF: i32 = 3;

/// `WifiManager.WIFI_MODE_FULL_LOW_LATENCY`, which also stops Wi-Fi scans.
pub const WIFI_MODE_FULL_LOW_LATENCY: i32 = 4;

/// A device is a controller when its sources include all bits of the gamepad
/// class or all bits of the joystick class.
pub open spec fn is_controller_spec(sources: i32) -> bool {
    (sources & SOURCE_GAMEPAD) == SOURCE_GAMEPAD || (sources & SOURCE_JOYSTICK) == SOURCE_JOYSTICK
}

pub fn is_controller_source(sources: i32) -> (r: bool)
    ensures
        r == is_controller_spec(sources),
{
    (sources & SOURCE_GAMEPAD) == SOURCE_GAMEPAD || (sources & SOURCE_JOYSTICK) == SOURCE_JOYSTICK
}

/// A battery counts as plugged while charging or full.
pub fn is_plugged_status(status: i32) -> (r: bool)
    ensures
        r == (status == BATTERY_STATUS_CHARGING || status == BATTERY_STATUS_FULL),
{
    status == BATTERY_STATUS_CHARGING || status == BATTERY_STATUS_FULL
}

/// The hand a controller is for, from its name in any ASCII case: `true` for
/// left; `None` when the name says both hands or neither.
pub open spec fn controller_hand_spec(name: Seq<char>) -> Option<bool> {
    let n = ascii_lower_seq(name);
    let left = contains_spec(n, "left"@);
    let right = contains_spec(n, "right"@);
    if left == right {
        None
    } else {
        Some(left)
    }
}

pub fn controller_hand(name: &str) -> (r: Option<bool>)
    ensures
        r == controller_hand_spec(name@),
{
    let chars = chars_of(name);
    let lower = to_ascii_lower(chars.as_slice());
    let l = chars_of("left");
    let rt = chars_of("right");
    let is_left = contains(lower.as_slice(), l.as_slice());
    let is_right = contains(lower.as_slice(), rt.as_slice());
    if is_left == is_right {
        None
    } else {
        Some(is_left)
    }
}

/// A name that says "left" but not "right" is a left controller, one that
/// says "right" but not "left" a right one; the battery is reported as
/// plugged exactly while charging or full.
pub proof fn law_hand_from_name(name: Seq<char>, status: i32)
    ensures
        contains_spec(ascii_lower_seq(name), "left"@) && !contains_spec(ascii_lower_seq(name), "right"@)
            ==> controller_hand_spec(name) == Some(true),
        contains_spec(ascii_lower_seq(name), "right"@) && !contains_spec(ascii_lower_seq(name), "left"@)
            ==> controller_hand_spec(name) == Some(false),
        controller_battery_spec(SOURCE_GAMEPAD, true, true, status, Some(name)) is Some
            ==> controller_battery_spec(SOURCE_GAMEPAD, true, true, status, Some(name))->0.is_plugged
            == (status == 2 || status == 5),
{
}

/// A controller's hand is read from its name without regard to ASCII case.
pub proof fn law_hand_ignores_ascii_case(name: Seq<char>)
    ensures
        controller_hand_spec(ascii_lower_seq(name)) == controller_hand_spec(name),
{
    lemma_ascii_lower_idempotent(name);
}

/// The hand and charging state of a controller battery.
#[derive(Clone, Copy, Debug, PartialEq, Eq, Structural)]
pub struct ControllerBattery {
    pub is_left: bool,
    pub is_plugged: bool,
}

/// What one input device reports of its battery: `None` unless it is a
/// controller whose battery state is there and present, whose capacity is a
/// finite number, and whose name says exactly one hand.
pub open spec fn controller_battery_spec(
    sources: i32,
    battery_present: bool,
    capacity_finite: bool,
    status: i32,
    name: Option<Seq<char>>,
) -> Option<ControllerBattery> {
    if !is_controller_spec(sources) || !battery_present || !capacity_finite {
        None
    } else {
        match name {
            None => None,
            Some(n) => match controller_hand_spec(n) {
                Some(left) => Some(
                    ControllerBattery {
                        is_left: left,
                        is_plugged: status == BATTERY_STATUS_CHARGING || status
                            == BATTERY_STATUS_FULL,
                    },
                ),
                None => None,
            },
        }
    }
}

/// Classifies one input device from what the platform reported of it:
/// its source bits, whether a battery state exists and is present, whether
/// its capacity is finite, its battery status, and its name (`None` when the
/// platform gave none).
pub fn controller_battery(
    sources: i32,
    battery_present: bool,
    capacity_finite: bool,
    status: i32,
    name: Option<&str>,
) -> (r: Option<ControllerBattery>)
    ensures
        r == controller_battery_spec(
            sources,
            battery_present,
            capacity_finite,
            status,
            match name {
                Some(n) => Some(n@),
                None => None,
            },
        ),
{
    if !is_controller_source(sources) || !battery_present || !capacity_finite {
        return None;
    }
    let n = match name {
        Some(n) => n,
        None => return None,
    };
    match controller_hand(n) {
        Some(left) => Some(ControllerBattery { is_left: left, is_plugged: is_plugged_status(status) }),
        None => None,
    }
}

/// What the platform offers at an API level.
#[derive(Clone, Copy, Debug, PartialEq, Eq, Structural)]
pub struct ApiFeatures {
    /// The low-latency Wi-Fi lock and input-device battery state (API 29).
    pub low_latency_wifi: bool,
    pub controller_battery: bool,
    /// `getCurrentThermalStatus` (API 29).
    pub thermal_status: bool,
    /// `getThermalHeadroom` (API 30).
    pub thermal_headroom: bool,
}

pub fn api_features(api_level: i32) -> (r: ApiFeatures)
    ensures
        r.low_latency_wifi == (api_level >= 29),
        r.controller_battery == (api_level >= 29),
        r.thermal_status == (api_level >= 29),
        r.thermal_headroom == (api_level >= 30),
{
    ApiFeatures {
        low_latency_wifi: api_level >= 29,
        controller_battery: api_level >= 29,
        thermal_status: api_level >= 29,
        thermal_headroom: api_level >= 30,
    }
}

/// The Wi-Fi lock mode for an API level.
pub fn wifi_lock_mode(api_level: i32) -> (r: i32)
    ensures
        r == (if api_level >= 29 {
            WIFI_MODE_FULL_LOW_LATENCY
        } else {
            WIFI_MODE_FULL_HIGH_PERF
        }),
{
    if api_level >= 29 {
        WIFI_MODE_FULL_LOW_LATENCY
    } else {
        WIFI_MODE_FULL_HIGH_PERF
    }
}

/// The four octets of an IPv4 address that the platform packs into an `i32`
/// least significant byte first.
pub fn ipv4_octets(ip: i32) -> (r: (u8, u8, u8, u8))
    ensures
        r.0 as u32 == (ip as u32) & 0xff,
        r.1 as u32 == ((ip as u32) >> 8u32) & 0xff,
        r.2 as u32 == ((ip as u32) >> 16u32) & 0xff,
        r.3 as u32 == ((ip as u32) >> 24u32) & 0xff,
{
    let u = ip as u32;
    let a = u & 0xff;
    let b = (u >> 8u32) & 0xff;
    let c = (u >> 16u32) & 0xff;
    let d = (u >> 24u32) & 0xff;
    assert(a < 256 && b < 256 && c < 256 && d < 256) by (bit_vector)
        requires
            a == u & 0xff,
            b == (u >> 8u32) & 0xff,
            c == (u >> 16u32) & 0xff,
            d == (u >> 24u32) & 0xff,
    ;
    (a as u8, b as u8, c as u8, d as u8)
}

} // verus!
