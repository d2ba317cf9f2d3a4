//! Shared data model of the audio backends, and the ordered fallback
//! protocol that picks which backend a controller is built on.

pub mod pulsectl;
pub mod wireplumber;

use vstd::prelude::*;

verus! {

/// Which kind of device a controller is bound to: an output (sink) or an
/// input (source). Chosen once at construction.
#[derive(Clone, Copy, Debug, PartialEq, Eq, Structural)]
pub enum AudioDeviceType {
    /// An output device (e.g. speakers).
    Sink,
    /// An input device (e.g. a microphone).
    Source,
}

/// A device's state as freshly queried from the sound server.
///
/// The volume is held in permille of the normal (100%) level, i.e. tenths
/// of a percent: 450 permille is 45.0%. It is nominally 0..=1000 but may
/// exceed 1000 where the backend allows boosted gain.
#[derive(Clone, Copy, Debug, PartialEq, Eq, Structural)]
pub struct AudioDeviceInfo {
    /// Volume in tenths of a percent of the normal level.
    pub volume_permille: u32,
    /// Whether the device is muted.
    pub mute: bool,
}

/// Why a backend operation failed.
#[derive(Clone, Debug, PartialEq, Eq)]
pub enum BackendError {
    /// The sound-server integration is unreachable (a construction probe
    /// failed).
    ConnectionUnavailable,
    /// The external control process could not be run or exited non-zero;
    /// carries its captured standard-error bytes.
    ProcessInvocationFailed { stderr: Vec<u8> },
    /// The expected text pattern was absent from the control utility's
    /// output; carries the raw output for diagnosis.
    OutputParseFailed { raw: Vec<u8> },
    /// A named or default device lookup returned nothing.
    DeviceNotFound,
}

/// The two interchangeable strategies, in preference order: the native
/// protocol (library-binding) backend first, the CLI-driven backend as the
/// universally available fallback.
#[derive(Clone, Copy, Debug, PartialEq, Eq, Structural)]
pub enum BackendChoice {
    /// The native-protocol backend (a library binding to the sound server).
    Native,
    /// The CLI-driven backend (an external control utility).
    Cli,
}

/// Where the fallback protocol stands: which strategy to probe next, or
/// its outcome.
#[derive(Clone, Copy, Debug, PartialEq, Eq, Structural)]
pub enum SelectorState {
    /// The native backend's construction probe is the next attempt.
    TryingNative,
    /// The native probe failed; the CLI backend's probe is next.
    TryingCli,
    /// A strategy's probe succeeded; all operations route through it.
    Selected(BackendChoice),
    /// Both strategies failed construction.
    Exhausted,
}

/// The fallback protocol as a step function: from the current state and
/// the outcome of the probe it asked for, the next state. Strategies are
/// tried in declared order, short-circuiting on the first success; a
/// selected backend is never re-probed.
pub open spec fn spec_selector_step(state: SelectorState, probe_succeeded: bool) -> SelectorState {
    match state {
        SelectorState::TryingNative => {
            if probe_succeeded {
                SelectorState::Selected(BackendChoice::Native)
            } else {
                SelectorState::TryingCli
            }
        },
        SelectorState::TryingCli => {
            if probe_succeeded {
                SelectorState::Selected(BackendChoice::Cli)
            } else {
                SelectorState::Exhausted
            }
        },
        SelectorState::Selected(choice) => SelectorState::Selected(choice),
        SelectorState::Exhausted => SelectorState::Exhausted,
    }
}

/// The state in which backend selection starts: about to probe the
/// native-protocol strategy.
pub fn selector_initial() -> (state: SelectorState)
    ensures
        state == SelectorState::TryingNative,
{
    SelectorState::TryingNative
}

/// Advances the fallback protocol by the outcome of the probe that the
/// current state asked for.
pub fn selector_step(state: SelectorState, probe_succeeded: bool) -> (next: SelectorState)
    ensures
        next == spec_selector_step(state, probe_succeeded),
{
    match state {
        SelectorState::TryingNative => {
            if probe_succeeded {
                SelectorState::Selected(BackendChoice::Native)
            } else {
                SelectorState::TryingCli
            }
        },
        SelectorState::TryingCli => {
            if probe_succeeded {
                SelectorState::Selected(BackendChoice::Cli)
            } else {
                SelectorState::Exhausted
            }
        },
        SelectorState::Selected(choice) => SelectorState::Selected(choice),
        SelectorState::Exhausted => SelectorState::Exhausted,
    }
}

/// The error a caller sees when both strategies fail construction: the
/// final fallback's (the CLI backend's) error, never the native backend's,
/// whose error is only logged.
pub fn exhausted_error(native_error: BackendError, cli_error: BackendError) -> (e: BackendError)
    ensures
        e == cli_error,
{
    let _ = native_error;
    cli_error
}

/// Fallback order: when the native strategy's construction probe fails
/// and the CLI strategy's succeeds, the selection settles on the CLI
/// backend, and every later step leaves it selected (the native strategy
/// is never attempted again). When the native probe succeeds, selection
/// settles on the native backend immediately.
pub proof fn lemma_fallback_order(later_probe: bool)
    ensures
        spec_selector_step(
            spec_selector_step(SelectorState::TryingNative, false),
            true,
        ) == SelectorState::Selected(BackendChoice::Cli),
        spec_selector_step(SelectorState::TryingNative, true) == SelectorState::Selected(
            BackendChoice::Native,
        ),
        spec_selector_step(SelectorState::Selected(BackendChoice::Cli), later_probe)
            == SelectorState::Selected(BackendChoice::Cli),
{
}

/// Fallback exhaustion: when both construction probes fail, the protocol
/// ends in the exhausted state, and the exhausted state absorbs every
/// later step; the error handed to the caller is then the CLI backend's
/// (see `exhausted_error`).
pub proof fn lemma_fallback_exhaustion(later_probe: bool)
    ensures
        spec_selector_step(
            spec_selector_step(SelectorState::TryingNative, false),
            false,
        ) == SelectorState::Exhausted,
        spec_selector_step(SelectorState::Exhausted, later_probe) == SelectorState::Exhausted,
{
}

} // verus!
