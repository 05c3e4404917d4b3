//! The microphone engine's data: capture devices and the events the engine
//! reports to the interface.
//!
//! The engine itself (COM, WinRT, WASAPI, on background threads) belongs to the
//! application.
use vstd::prelude::*;
use crate::permission::PermissionReport;

verus! {

/// A capture device.
pub struct DeviceInfo {
    pub id: String,
    pub name: String,
    pub is_default: bool,
}

/// Events from the engine to the interface.
pub enum MicEvent {
    Log(String),
    Permission(PermissionReport),
    Devices(Vec<DeviceInfo>),
    AccessResult { ok: bool, detail: String },
    CaptureStarted { device: String, format: String },
    CaptureStopped,
    Error(String),
}

/// The first default device from position `i` on, if any.
pub open spec fn first_default(devs: Seq<DeviceInfo>, i: int) -> Option<int>
    decreases devs.len() - i,
{
    if i < 0 || i >= devs.len() {
        None
    } else if devs[i].is_default {
        Some(i)
    } else {
        first_default(devs, i + 1)
    }
}

/// The device to select when none is: the system's default, else the first.
pub open spec fn spec_pick_device(devs: Seq<DeviceInfo>) -> Option<int> {
    match first_default(devs, 0) {
        Some(i) => Some(i),
        None => if devs.len() > 0 {
            Some(0)
        } else {
            None
        },
    }
}

pub fn pick_device(devs: &[DeviceInfo]) -> (r: Option<usize>)
    ensures
        match r {
            Some(i) => spec_pick_device(devs@) == Some(i as int),
            None => spec_pick_device(devs@) is None,
        },
{
    let mut i: usize = 0;
    while i < devs.len()
        invariant
            i <= devs.len(),
            first_default(devs@, 0) == first_default(devs@, i as int),
        decreases devs.len() - i,
    {
        if devs[i].is_default {
            return Some(i);
        }
        i += 1;
    }
    if devs.len() > 0 {
        Some(0)
    } else {
        None
    }
}

/// The shared-mode mix format delivers 32-bit floats: `WAVE_FORMAT_IEEE_FLOAT`, or
/// `WAVE_FORMAT_EXTENSIBLE` with 32 bits per sample.
pub fn is_float_format(tag: u16, bits: u16) -> (r: bool)
    ensures
        r == (tag == 0x0003 || (tag == 0xFFFE && bits == 32)),
{
    tag == 0x0003 || (tag == 0xFFFE && bits == 32)
}

/// An exclusive-mode buffer duration (100 ns units) that holds `frames` frames at
/// `rate`, as drivers that demand an aligned buffer expect: one unit more than
/// the exact duration, rounded down.
pub fn aligned_buffer(frames: u32, rate: u32) -> (r: i64)
    requires
        rate > 0,
    ensures
        r == 10_000_000 * (frames as int) / (rate as int) + 1,
{
    let num: i64 = 10_000_000i64 * (frames as i64);
    assert(0 <= num / (rate as i64) <= num) by (nonlinear_arith)
        requires
            num >= 0,
            rate > 0,
    ;
    num / (rate as i64) + 1
}

} // verus!
