//! The smaller services: bluetooth events, brightness suppression, socket
//! paths, urgencies and audio stream entries.

use deskshell::audio::AudioServiceError;
use deskshell::audio::AudioSinkState;
use deskshell::audio::ContextState;
use deskshell::audio::IterateOutcome;
use deskshell::audio::OpStep;
use deskshell::audio::PollStep;
use deskshell::audio::SinkFields;
use deskshell::audio::StreamEntry;
use deskshell::audio::StreamType;
use deskshell::audio::context_poll_step;
use deskshell::audio::wait_op_step;
use deskshell::bluetooth::BlueToothDevice;
use deskshell::bluetooth::BlueToothEvent;
use deskshell::bluetooth::BlueToothService;
use deskshell::bluetooth::BlueToothState;
use deskshell::brightness::BrightnessService;
use deskshell::hyprland::HyprlandService;
use deskshell::notifications::Urgency;

#[test]
fn bluetooth_enabled_states() {
    assert!(BlueToothState::On.enabled());
    assert!(BlueToothState::TurningOn.enabled());
    assert!(!BlueToothState::Off.enabled());
    assert!(!BlueToothState::TurningOff.enabled());
    assert!(!BlueToothState::Absent.enabled());
}

#[test]
fn bluetooth_power_on_updates_devices_and_state() {
    let mut svc = BlueToothService::new();
    let fresh = vec![BlueToothDevice { address: 0xAABBCCDDEEFF }];
    svc.handle_event(BlueToothEvent::PoweredChanged(true), fresh);
    assert_eq!(svc.data.read().state, BlueToothState::On);
    assert_eq!(svc.data.read().devices.len(), 1);
    assert_eq!(svc.sender.devices.published_count(), 1);
    assert_eq!(svc.sender.state.published_count(), 1);
    assert_eq!(svc.sender.changed.published_count(), 1);
}

#[test]
fn bluetooth_suppresses_unchanged_values() {
    let mut svc = BlueToothService::new();
    let fresh = vec![BlueToothDevice { address: 7 }];
    svc.handle_event(BlueToothEvent::PoweredChanged(true), fresh.clone());
    assert_eq!(svc.sender.devices.published_count(), 1);
    assert_eq!(svc.sender.state.published_count(), 1);
    // the same event again: state and device list are unchanged, so only
    // the aggregate channel fires
    svc.handle_event(BlueToothEvent::PoweredChanged(true), fresh.clone());
    assert_eq!(svc.sender.devices.published_count(), 1);
    assert_eq!(svc.sender.state.published_count(), 1);
    assert_eq!(svc.sender.changed.published_count(), 2);
    // an unrelated event with the same device list is suppressed too
    svc.handle_event(BlueToothEvent::Other, fresh);
    assert_eq!(svc.sender.devices.published_count(), 1);
    assert_eq!(svc.sender.changed.published_count(), 3);
}

#[test]
fn bluetooth_power_off_keeps_devices() {
    let mut svc = BlueToothService::new();
    svc.handle_event(
        BlueToothEvent::Other,
        vec![BlueToothDevice { address: 1 }, BlueToothDevice { address: 2 }],
    );
    assert_eq!(svc.data.read().devices.len(), 2);
    assert_eq!(svc.sender.devices.published_count(), 1);
    svc.handle_event(BlueToothEvent::PoweredChanged(false), Vec::new());
    assert_eq!(svc.data.read().state, BlueToothState::Off);
    // powering off does not replace the device list and fires no devices
    // notification
    assert_eq!(svc.data.read().devices.len(), 2);
    assert_eq!(svc.sender.devices.published_count(), 1);
    assert_eq!(svc.sender.state.published_count(), 1);
    assert_eq!(svc.sender.changed.published_count(), 2);
}

#[test]
fn brightness_suppresses_equal_readings() {
    let mut svc = BrightnessService::new(19200);
    assert!(svc.handle_event(4800));
    assert!(!svc.handle_event(4800));
    assert!(!svc.handle_event(4800));
    assert!(svc.handle_event(9600));
    assert_eq!(svc.sender.screen_value.published_count(), 2);
    assert_eq!(svc.data.read().screen_value, 9600);
    assert_eq!(svc.data.read().max, 19200);
}

#[test]
fn hyprland_socket_paths() {
    let svc = HyprlandService::new("sig123".to_string(), "/run/user/1000".to_string());
    let (primary, fallback) = svc.socket_path_candidates("socket2");
    assert_eq!(primary, "/run/user/1000/hypr/sig123/.socket2.sock");
    assert_eq!(fallback, "/tmp/hypr/sig123/.socket2.sock");
}

#[test]
fn urgency_codes_round_trip() {
    assert_eq!(Urgency::from(0u8), Urgency::Low);
    assert_eq!(Urgency::from(1u8), Urgency::Normal);
    assert_eq!(Urgency::from(2u8), Urgency::Critical);
    assert_eq!(Urgency::from(7u8), Urgency::Normal);
    assert_eq!(Urgency::Low.code(), 0);
    assert_eq!(Urgency::Normal.code(), 1);
    assert_eq!(Urgency::Critical.code(), 2);
}

#[test]
fn sink_entry_takes_defaults() {
    let e = StreamEntry::from_sink(SinkFields {
        name: Some("alsa_output".to_string()),
        description: Some("Built-in Audio".to_string()),
        mute: false,
        volumes: vec![65536, 65536],
        icon_prop: None,
        state: AudioSinkState::Running,
        base_volume: 65536,
        index: 3,
    });
    assert_eq!(e.name, "alsa_output");
    assert_eq!(e.description, "Built-in Audio");
    assert_eq!(e.icon_name, "audio-card-analog-pci");
    assert_eq!(e.volume, vec![65536, 65536]);
    assert!(matches!(e.type_, StreamType::Speaker(AudioSinkState::Running, 65536)));
    assert_eq!(e.id, 3);
}

#[test]
fn audio_poll_steps() {
    assert_eq!(
        context_poll_step(IterateOutcome::Quit, ContextState::Connecting),
        PollStep::Fail(AudioServiceError::IterateError)
    );
    assert_eq!(
        context_poll_step(IterateOutcome::Success, ContextState::Ready),
        PollStep::Ready
    );
    assert_eq!(
        context_poll_step(IterateOutcome::Success, ContextState::Failed),
        PollStep::Fail(AudioServiceError::ContextTerminatedError)
    );
    assert_eq!(
        context_poll_step(IterateOutcome::Success, ContextState::Connecting),
        PollStep::Continue
    );
    assert_eq!(wait_op_step(false, IterateOutcome::Success), OpStep::Done);
    assert_eq!(
        wait_op_step(true, IterateOutcome::Failure),
        OpStep::Fail(AudioServiceError::IterateError)
    );
    assert_eq!(wait_op_step(true, IterateOutcome::Success), OpStep::Continue);
}
