use volctl::audio_backend::pulsectl::{PulseAudio, PulseController, NATIVE_MUTED, NATIVE_NORMAL};
use volctl::audio_backend::wireplumber::WirePlumber;
use volctl::audio_backend::{
    exhausted_error, selector_initial, selector_step, AudioDeviceType, BackendChoice, BackendError,
    SelectorState,
};

fn sink_cli() -> WirePlumber {
    WirePlumber::try_new(AudioDeviceType::Sink, None, true).unwrap()
}

#[test]
fn native_unit_bounds() {
    assert_eq!(NATIVE_MUTED, 0);
    assert_eq!(NATIVE_NORMAL, 0x10000);
}

#[test]
fn conversion_round_trip_all_percentages() {
    for p in 0u32..=100 {
        let raw = PulseAudio::percent_to_native(10 * p);
        assert_eq!(PulseAudio::native_to_percent(raw), 10 * p);
    }
}

#[test]
fn conversion_exact_values() {
    assert_eq!(PulseAudio::percent_to_native(0), 0);
    assert_eq!(PulseAudio::percent_to_native(1000), 65536);
    assert_eq!(PulseAudio::percent_to_native(450), 29491);
    assert_eq!(PulseAudio::native_to_percent(0), 0);
    assert_eq!(PulseAudio::native_to_percent(65536), 1000);
    assert_eq!(PulseAudio::native_to_percent(32768), 500);
}

#[test]
fn parse_plain_volume_line() {
    let info = WirePlumber::get_device_info(true, b"Volume: 0.45\n", b"").unwrap();
    assert_eq!(info.volume_permille, 450);
    assert!(!info.mute);
}

#[test]
fn parse_muted_volume_line() {
    let info = WirePlumber::get_device_info(true, b"Volume: 0.80 [MUTED]\n", b"").unwrap();
    assert_eq!(info.volume_permille, 800);
    assert!(info.mute);
}

#[test]
fn parse_output_without_volume_line_fails_with_raw() {
    let raw_text = b"no such line here\nnor here\n";
    match WirePlumber::get_device_info(true, raw_text, b"") {
        Err(BackendError::OutputParseFailed { raw }) => assert_eq!(raw, raw_text.to_vec()),
        other => panic!("expected a parse failure, got {:?}", other),
    }
}

#[test]
fn parse_malformed_token_fails_with_raw() {
    let raw_text = b"Volume: abc\n";
    match WirePlumber::parse_volume_output(raw_text) {
        Err(BackendError::OutputParseFailed { raw }) => assert_eq!(raw, raw_text.to_vec()),
        other => panic!("expected a parse failure, got {:?}", other),
    }
}

#[test]
fn parse_bare_label_reads_zero() {
    assert_eq!(WirePlumber::parse_volume_output(b"Volume:\n"), Ok(0));
    assert_eq!(WirePlumber::parse_volume_output(b"Volume:   \n"), Ok(0));
}

#[test]
fn parse_token_shapes() {
    assert_eq!(WirePlumber::parse_volume_output(b"Volume: 1\n"), Ok(1000));
    assert_eq!(WirePlumber::parse_volume_output(b"Volume: .5\n"), Ok(500));
    assert_eq!(WirePlumber::parse_volume_output(b"Volume: 1.\n"), Ok(1000));
    assert_eq!(WirePlumber::parse_volume_output(b"Volume: 0.4567\n"), Ok(457));
    assert_eq!(WirePlumber::parse_volume_output(b"Volume: 2.550\n"), Ok(2550));
    assert!(WirePlumber::parse_volume_output(b"Volume: .\n").is_err());
    assert!(WirePlumber::parse_volume_output(b"Volume: 0.4.5\n").is_err());
    assert!(WirePlumber::parse_volume_output(b"Volume: -0.5\n").is_err());
}

#[test]
fn parse_first_volume_line_decides() {
    let out = b"something\nVolume: 0.25\nVolume: 0.75\n";
    assert_eq!(WirePlumber::parse_volume_output(out), Ok(250));
}

#[test]
fn parse_trims_surrounding_whitespace() {
    assert_eq!(WirePlumber::parse_volume_output(b"  \tVolume: 0.45 \r\n"), Ok(450));
}

#[test]
fn parse_empty_output_fails() {
    assert!(WirePlumber::parse_volume_output(b"").is_err());
}

#[test]
fn mute_marker_detected_anywhere() {
    assert!(WirePlumber::parse_mute_status(b"Volume: 0.80 [MUTED]\n"));
    assert!(WirePlumber::parse_mute_status(b"header [MUTED]\nVolume: 0.80\n"));
    assert!(!WirePlumber::parse_mute_status(b"Volume: 0.80\n"));
    assert!(!WirePlumber::parse_mute_status(b"MUTED"));
    assert!(!WirePlumber::parse_mute_status(b""));
}

#[test]
fn set_volume_scenarios() {
    assert_eq!(WirePlumber::compute_new_volume(500, 100, 100), 600);
    assert_eq!(WirePlumber::compute_new_volume(950, 100, 100), 1000);
}

#[test]
fn set_volume_clamps_and_floors() {
    assert_eq!(WirePlumber::compute_new_volume(50, -100, 100), 0);
    assert_eq!(WirePlumber::compute_new_volume(0, -1, 100), 0);
    assert_eq!(WirePlumber::compute_new_volume(1000, 1, 100), 1000);
    assert_eq!(WirePlumber::compute_new_volume(1200, -100, 100), 1000);
    assert_eq!(WirePlumber::compute_new_volume(500, 0, 100), 500);
    assert_eq!(WirePlumber::compute_new_volume(500, 100, 120), 600);
}

#[test]
fn format_three_decimal_fraction() {
    assert_eq!(WirePlumber::format_volume_fraction(600), "0.600");
    assert_eq!(WirePlumber::format_volume_fraction(0), "0.000");
    assert_eq!(WirePlumber::format_volume_fraction(1000), "1.000");
    assert_eq!(WirePlumber::format_volume_fraction(2550), "2.550");
    assert_eq!(WirePlumber::format_volume_fraction(457), "0.457");
    assert_eq!(WirePlumber::format_volume_fraction(45), "0.045");
}

#[test]
fn cli_device_target_resolution() {
    let explicit =
        WirePlumber::try_new(AudioDeviceType::Sink, Some("headphones".to_string()), true).unwrap();
    assert_eq!(explicit.get_device_target(), "headphones");
    assert_eq!(sink_cli().get_device_target(), "@DEFAULT_AUDIO_SINK@");
    let source = WirePlumber::try_new(AudioDeviceType::Source, None, true).unwrap();
    assert_eq!(source.get_device_target(), "@DEFAULT_AUDIO_SOURCE@");
}

#[test]
fn cli_probe_failure_refuses_construction() {
    match WirePlumber::try_new(AudioDeviceType::Sink, None, false) {
        Err(BackendError::ConnectionUnavailable) => {},
        other => panic!("expected a failed construction, got {:?}", other),
    }
}

#[test]
fn cli_command_result() {
    assert_eq!(WirePlumber::command_result(true, b""), Ok(()));
    match WirePlumber::command_result(false, b"boom") {
        Err(BackendError::ProcessInvocationFailed { stderr }) => assert_eq!(stderr, b"boom"),
        other => panic!("expected an invocation failure, got {:?}", other),
    }
}

#[test]
fn cli_failed_query_surfaces_stderr() {
    match WirePlumber::get_device_info(false, b"", b"no such node") {
        Err(BackendError::ProcessInvocationFailed { stderr }) => {
            assert_eq!(stderr, b"no such node")
        },
        other => panic!("expected an invocation failure, got {:?}", other),
    }
}

#[test]
fn native_probe_failure_refuses_construction() {
    match PulseAudio::try_new(AudioDeviceType::Sink, None, false) {
        Err(BackendError::ConnectionUnavailable) => {},
        other => panic!("expected a failed construction, got {:?}", other),
    }
}

#[test]
fn native_controller_keyed_by_device_type() {
    let sink = PulseAudio::try_new(AudioDeviceType::Sink, None, true).unwrap();
    assert_eq!(sink.controller, PulseController::Sink);
    let source = PulseAudio::try_new(AudioDeviceType::Source, None, true).unwrap();
    assert_eq!(source.controller, PulseController::Source);
}

#[test]
fn native_device_resolution() {
    let named = PulseAudio::try_new(AudioDeviceType::Sink, Some("usb".to_string()), true).unwrap();
    let (controller, lookup) =
        named.get_controller_and_device(Some("default-sink".to_string()), None);
    assert_eq!(controller, PulseController::Sink);
    assert_eq!(lookup, "usb");

    let default = PulseAudio::try_new(AudioDeviceType::Sink, None, true).unwrap();
    let (_, lookup) = default.get_controller_and_device(Some("default-sink".to_string()), None);
    assert_eq!(lookup, "default-sink");

    let absent = PulseAudio::try_new(AudioDeviceType::Source, None, true).unwrap();
    let (controller, lookup) = absent.get_controller_and_device(Some("default-sink".to_string()), None);
    assert_eq!(controller, PulseController::Source);
    assert_eq!(lookup, "");
}

#[test]
fn native_set_volume_decision() {
    let sink = PulseAudio::try_new(AudioDeviceType::Sink, None, true).unwrap();
    assert_eq!(sink.set_volume(32768, 100, 100), Some(39322));
    assert_eq!(sink.set_volume(65536, 100, 100), None);
    assert_eq!(sink.set_volume(65000, 100, 100), Some(65536));
    assert_eq!(sink.set_volume(32768, -100, 100), Some(26214));
    assert_eq!(sink.set_volume(1000, -100, 100), Some(0));
}

#[test]
fn native_set_volume_keeps_percentage_in_bounds() {
    let sink = PulseAudio::try_new(AudioDeviceType::Sink, None, true).unwrap();
    for raw in [0u32, 1000, 32768, 65000, 65536, 70000] {
        if let Some(new_raw) = sink.set_volume(raw, 130, 100) {
            assert!(PulseAudio::native_to_percent(new_raw) <= 1000);
        }
        let lowered = sink.set_volume(raw, -130, 100).unwrap();
        assert!(PulseAudio::native_to_percent(lowered) >= 0);
    }
}

#[test]
fn native_query_and_toggle() {
    let sink = PulseAudio::try_new(AudioDeviceType::Sink, None, true).unwrap();
    let info = sink.get_device_info(32768, false);
    assert_eq!(info.volume_permille, 500);
    assert!(!info.mute);
    assert!(sink.toggle_mute(false));
    assert!(!sink.toggle_mute(true));
}

#[test]
fn fallback_prefers_native_then_cli() {
    let start = selector_initial();
    assert_eq!(start, SelectorState::TryingNative);
    assert_eq!(
        selector_step(start, true),
        SelectorState::Selected(BackendChoice::Native)
    );
    let after_native_failure = selector_step(start, false);
    assert_eq!(after_native_failure, SelectorState::TryingCli);
    let settled = selector_step(after_native_failure, true);
    assert_eq!(settled, SelectorState::Selected(BackendChoice::Cli));
    assert_eq!(selector_step(settled, false), settled);
    assert_eq!(selector_step(settled, true), settled);
}

#[test]
fn fallback_exhaustion_surfaces_cli_error() {
    let exhausted = selector_step(selector_step(selector_initial(), false), false);
    assert_eq!(exhausted, SelectorState::Exhausted);
    assert_eq!(selector_step(exhausted, true), SelectorState::Exhausted);
    let native_error = BackendError::ConnectionUnavailable;
    let cli_error = BackendError::ProcessInvocationFailed { stderr: b"down".to_vec() };
    assert_eq!(
        exhausted_error(native_error, cli_error.clone()),
        cli_error
    );
}
