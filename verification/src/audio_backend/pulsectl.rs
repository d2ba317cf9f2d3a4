//! The native-protocol backend's decision logic: which controller
//! sub-kind serves an operation, which device selector is looked up, the
//! conversion between the native integer volume unit and the common
//! percentage scale, and what volume (if any) a set-volume request writes.
//!
//! The native protocol's live control connection and its calls are the
//! plumbing layer's concern; it reports each call's plain outcome
//! (connected or not, the device's raw volume and mute flag) to the
//! functions here and performs the writes they decide on.

use vstd::arithmetic::div_mod::{
    lemma_div_is_ordered, lemma_div_pos_is_pos, lemma_fundamental_div_mod,
    lemma_fundamental_div_mod_converse, lemma_mod_bound,
};
use vstd::prelude::*;

use super::{AudioDeviceInfo, AudioDeviceType, BackendError};

verus! {

/// The native volume unit's defined bounds: the muted (0%) constant and
/// the normal (100%) constant of the protocol's integer volume scale.
pub const NATIVE_MUTED: u32 = 0;

/// The native volume unit's normal (100%) level.
pub const NATIVE_NORMAL: u32 = 0x10000;

/// The native protocol exposes output and input control as distinct
/// controller sub-kinds; a backend is keyed to one of them by its device
/// type.
#[derive(Clone, Copy, Debug, PartialEq, Eq, Structural)]
pub enum PulseController {
    /// Controls output (sink) devices.
    Sink,
    /// Controls input (source) devices.
    Source,
}

/// The native-protocol backend: bound to one controller sub-kind and, for
/// its lifetime, to an explicit device name or the default-device
/// sentinel (`None`).
#[derive(Clone, Debug, PartialEq, Eq)]
pub struct PulseAudio {
    /// The controller sub-kind the backend is keyed to.
    pub controller: PulseController,
    /// The explicit device name, or `None` for the system default device.
    pub device_name: Option<String>,
}

/// Converts a volume in permille of normal to the native integer unit:
/// `round((NORMAL - MUTED) * permille / 1000 + MUTED)`, saturating at the
/// unit's maximum as a write of an out-of-range value would.
pub open spec fn spec_percent_to_native(permille: int) -> int {
    let raw = (65536 * permille + 500) / 1000;
    if raw > u32::MAX {
        u32::MAX as int
    } else {
        raw
    }
}

/// Converts a native integer volume to permille of normal, at the whole
/// percent resolution the native backend reports:
/// `round(100 * (raw - MUTED) / (NORMAL - MUTED))`, expressed in permille.
pub open spec fn spec_native_to_percent(raw: int) -> int {
    10 * ((100 * raw + 32768) / 65536)
}

impl PulseAudio {
    /// Builds the backend from the outcome of its construction-time
    /// liveness probe: opening the control connection of the sub-kind
    /// that `device_type` asks for. Construction fails exactly when that
    /// connection could not be established.
    pub fn try_new(
        device_type: AudioDeviceType,
        device_name: Option<String>,
        connected: bool,
    ) -> (r: Result<PulseAudio, BackendError>)
        ensures
            connected ==> r == Ok::<PulseAudio, BackendError>(
                PulseAudio {
                    controller: match device_type {
                        AudioDeviceType::Sink => PulseController::Sink,
                        AudioDeviceType::Source => PulseController::Source,
                    },
                    device_name: device_name,
                },
            ),
            !connected ==> r == Err::<PulseAudio, BackendError>(BackendError::ConnectionUnavailable),
    {
        if !connected {
            return Err(BackendError::ConnectionUnavailable);
        }
        let controller = match device_type {
            AudioDeviceType::Sink => PulseController::Sink,
            AudioDeviceType::Source => PulseController::Source,
        };
        Ok(PulseAudio { controller, device_name })
    }

    /// Decides, per operation, which controller sub-kind serves the call
    /// and which device selector it looks up: the explicit configured
    /// name if any, otherwise the server's default device name for the
    /// sub-kind — or, when the default-name query came back empty, the
    /// empty name, which is still looked up rather than failing outright
    /// (the default-device query is known to come back absent from some
    /// servers).
    pub fn get_controller_and_device(
        &self,
        default_sink_name: Option<String>,
        default_source_name: Option<String>,
    ) -> (r: (PulseController, String))
        ensures
            r.0 == self.controller,
            r.1@ == match self.device_name {
                Some(name) => name@,
                None => {
                    let default_name = match self.controller {
                        PulseController::Sink => default_sink_name,
                        PulseController::Source => default_source_name,
                    };
                    match default_name {
                        Some(name) => name@,
                        None => Seq::<char>::empty(),
                    }
                },
            },
    {
        let lookup = match &self.device_name {
            Some(name) => name.clone(),
            None => {
                let default_name = match self.controller {
                    PulseController::Sink => default_sink_name,
                    PulseController::Source => default_source_name,
                };
                match default_name {
                    Some(name) => name,
                    None => String::new(),
                }
            },
        };
        (self.controller, lookup)
    }

    /// Converts a volume in permille of normal to the native integer
    /// unit, rounding to the nearest unit and saturating at the unit's
    /// maximum.
    pub fn percent_to_native(permille: u32) -> (raw: u32)
        ensures
            raw == spec_percent_to_native(permille as int),
    {
        let span: u64 = (NATIVE_NORMAL - NATIVE_MUTED) as u64;
        let wide: u64 = (span * (permille as u64) + 500) / 1000 + NATIVE_MUTED as u64;
        if wide > u32::MAX as u64 {
            u32::MAX
        } else {
            wide as u32
        }
    }

    /// Converts a native integer volume to permille of normal, at whole
    /// percent resolution.
    pub fn native_to_percent(raw: u32) -> (permille: u32)
        ensures
            permille == spec_native_to_percent(raw as int),
    {
        let span: u64 = (NATIVE_NORMAL - NATIVE_MUTED) as u64;
        let percent: u64 = (100u64 * ((raw - NATIVE_MUTED) as u64) + span / 2) / span;
        (10 * percent) as u32
    }

    /// Reads a freshly queried device state into the common model: the
    /// average raw channel volume converted to the percentage scale, and
    /// the mute flag as reported.
    pub fn get_device_info(&self, raw_volume_avg: u32, mute: bool) -> (info: AudioDeviceInfo)
        ensures
            info.volume_permille == spec_native_to_percent(raw_volume_avg as int),
            info.mute == mute,
    {
        AudioDeviceInfo { volume_permille: Self::native_to_percent(raw_volume_avg), mute }
    }

    /// The mute flag a toggle writes back: the negation of the current
    /// one.
    pub fn toggle_mute(&self, current_mute: bool) -> (new_mute: bool)
        ensures
            new_mute == !current_mute,
    {
        !current_mute
    }

    /// Decides what a set-volume request writes, from the device's
    /// current average raw volume: a non-negative delta is an increase
    /// clamped at the ceiling that `max_volume` converts to (a no-op —
    /// `None`, nothing written — when the volume is already at or above
    /// it); a negative delta is a decrease that the native unit floors at
    /// its own zero. The caller re-reads the device state fresh
    /// afterwards rather than trusting this computed value.
    pub fn set_volume(&self, current_raw: u32, delta_permille: i32, max_volume: u8) -> (r: Option<
        u32,
    >)
        ensures
            r == spec_native_apply_delta(
                current_raw as int,
                delta_permille as int,
                max_volume as int,
            ),
    {
        if delta_permille >= 0 {
            let limit = Self::percent_to_native(10 * (max_volume as u32));
            if current_raw >= limit {
                None
            } else {
                let inc = Self::percent_to_native(delta_permille as u32);
                let raised: u64 = current_raw as u64 + inc as u64;
                if raised <= limit as u64 {
                    Some(raised as u32)
                } else {
                    Some(limit)
                }
            }
        } else {
            let magnitude: u64 = (-(delta_permille as i64)) as u64;
            let dec = Self::percent_to_native(magnitude as u32);
            if current_raw > dec {
                Some(current_raw - dec)
            } else {
                Some(0)
            }
        }
    }
}

/// What a set-volume request writes in the native unit, if anything, as
/// `PulseAudio::set_volume` decides it.
pub open spec fn spec_native_apply_delta(current: int, delta_permille: int, max_volume: int) -> Option<u32> {
    if delta_permille >= 0 {
        let limit = spec_percent_to_native(10 * max_volume);
        if current >= limit {
            None
        } else {
            let inc = spec_percent_to_native(delta_permille);
            if current + inc <= limit {
                Some((current + inc) as u32)
            } else {
                Some(limit as u32)
            }
        }
    } else {
        let dec = spec_percent_to_native(-delta_permille);
        if current - dec >= 0 {
            Some((current - dec) as u32)
        } else {
            Some(0u32)
        }
    }
}

/// Conversion round-trip: converting an integer percentage to the native
/// unit and back yields the same percentage — the two directions are
/// exact inverses at the resolution of the integer unit, for every
/// percentage up to the largest ceiling a set-volume call can name.
pub proof fn lemma_native_percent_round_trip(p: int)
    requires
        0 <= p <= 255,
    ensures
        spec_native_to_percent(spec_percent_to_native(10 * p)) == 10 * p,
{
    let x = 65536 * (10 * p) + 500;
    lemma_fundamental_div_mod(x, 1000);
    lemma_mod_bound(x, 1000);
    let raw = x / 1000;
    assert(raw <= u32::MAX);
    assert(spec_percent_to_native(10 * p) == raw);
    let y = 100 * raw + 32768;
    let rem = y - 65536 * p;
    assert(10 * rem == x - (x % 1000) + 327680 - 655360 * p);
    assert(0 <= rem < 65536);
    lemma_fundamental_div_mod_converse(y, 65536, p, rem);
    assert(y / 65536 == p);
}

/// Clamp invariant of the native backend: whatever volume a set-volume
/// call with a non-negative delta writes, read back on the percentage
/// scale it never exceeds the requested ceiling.
pub proof fn lemma_native_set_volume_ceiling(current: int, delta_permille: int, max_volume: int)
    requires
        0 <= current,
        delta_permille >= 0,
        0 <= max_volume <= 255,
    ensures
        spec_native_apply_delta(current, delta_permille, max_volume) matches Some(v)
            ==> spec_native_to_percent(v as int) <= 10 * max_volume,
{
    let limit = spec_percent_to_native(10 * max_volume);
    match spec_native_apply_delta(current, delta_permille, max_volume) {
        Some(v) => {
            assert(v as int <= limit);
            lemma_native_percent_round_trip(max_volume);
            lemma_div_is_ordered(100 * (v as int) + 32768, 100 * limit + 32768, 65536);
        },
        None => {},
    }
}

/// Floor invariant of the native backend: whatever volume a set-volume
/// call with a negative delta writes, read back on the percentage scale
/// it is never below zero — the native unit's own floor.
pub proof fn lemma_native_set_volume_floor(current: int, delta_permille: int, max_volume: int)
    requires
        0 <= current,
        delta_permille < 0,
    ensures
        spec_native_apply_delta(current, delta_permille, max_volume) matches Some(v)
            ==> spec_native_to_percent(v as int) >= 0,
{
    match spec_native_apply_delta(current, delta_permille, max_volume) {
        Some(v) => {
            lemma_div_pos_is_pos(100 * (v as int) + 32768, 65536);
        },
        None => {},
    }
}

} // verus!
