//! Battery mutator behaviour: suppression, change notification, and the
//! end-to-end synchronization scenario.

use deskshell::battery::BatteryField;
use deskshell::battery::BatteryIcons;
use deskshell::battery::BatteryReading;
use deskshell::battery::BatteryService;
use deskshell::battery::BatteryState;

fn reading(state: u32, percent: i64) -> BatteryReading {
    BatteryReading {
        available: true,
        state,
        percent,
        time_to_full: 10,
        time_to_empty: 20,
        icon_name: "battery-good-symbolic".to_string(),
        energy: 1000,
        energy_full: 2000,
        energy_rate: 5,
    }
}

#[test]
fn repeated_equal_updates_publish_once() {
    let mut svc = BatteryService::new(BatteryIcons::Internal);
    // the first write changes the stored value and publishes
    assert!(svc.update(BatteryField::Percent(50)));
    // repeats with the identical value publish nothing further
    assert!(!svc.update(BatteryField::Percent(50)));
    assert!(!svc.update(BatteryField::Percent(50)));
    assert_eq!(svc.sender.percent.published_count(), 1);
}

#[test]
fn changed_value_always_publishes() {
    let mut svc = BatteryService::new(BatteryIcons::Internal);
    assert!(svc.update(BatteryField::Percent(1)));
    assert!(svc.update(BatteryField::Percent(2)));
    assert_eq!(svc.sender.percent.published_count(), 2);
    // a different field publishes on its own channel only
    assert!(svc.update(BatteryField::Charging(true)));
    assert_eq!(svc.sender.charging.published_count(), 1);
    assert_eq!(svc.sender.percent.published_count(), 2);
}

#[test]
fn default_snapshot_is_conservative() {
    let svc = BatteryService::new(BatteryIcons::Internal);
    let d = svc.current();
    assert!(!d.available);
    assert_eq!(d.percent, -1);
    assert!(!d.charging);
    assert!(!d.charged);
    assert_eq!(d.icon_name, "battery-missing-symbolic");
    assert_eq!(d.time_remaining, 0);
}

#[test]
fn state_codes_match_transport() {
    assert_eq!(BatteryState::Unknown.code(), 0);
    assert_eq!(BatteryState::Charging.code(), 1);
    assert_eq!(BatteryState::Discharging.code(), 2);
    assert_eq!(BatteryState::Empty.code(), 3);
    assert_eq!(BatteryState::FullyCharged.code(), 4);
    assert_eq!(BatteryState::PendingCharge.code(), 5);
    assert_eq!(BatteryState::PendingDischarge.code(), 6);
}

#[test]
fn generated_icon_name_rounds_level() {
    let mut svc = BatteryService::new(BatteryIcons::AGSLike);
    svc.sync(reading(2, 57));
    assert_eq!(svc.current().icon_name, "battery-level-50-symbolic");
    svc.sync(reading(1, 57));
    assert_eq!(svc.current().icon_name, "battery-level-50-charging-symbolic");
    svc.sync(reading(4, 100));
    assert_eq!(svc.current().icon_name, "battery-level-100-charged-symbolic");
}

#[test]
fn charged_means_full_or_charging_at_hundred() {
    let mut svc = BatteryService::new(BatteryIcons::Internal);
    svc.sync(reading(1, 100));
    assert!(svc.current().charged);
    assert!(svc.current().charging);
    svc.sync(reading(4, 97));
    assert!(svc.current().charged);
    assert!(!svc.current().charging);
    svc.sync(reading(1, 99));
    assert!(!svc.current().charged);
}

#[test]
fn time_remaining_follows_charging() {
    let mut svc = BatteryService::new(BatteryIcons::Internal);
    svc.sync(reading(1, 50));
    assert_eq!(svc.current().time_remaining, 10);
    svc.sync(reading(2, 50));
    assert_eq!(svc.current().time_remaining, 20);
}

#[test]
fn battery_sync_scenario() {
    // construct with percentage 80, state discharging
    let mut svc = BatteryService::new(BatteryIcons::Internal);
    svc.sync(reading(2, 80));
    assert_eq!(svc.current().percent, 80);
    assert!(!svc.current().charging);

    let mut on_changed = svc.sender.changed.subscribe();
    let mut on_percent = svc.sender.percent.subscribe();
    let mut on_charging = svc.sender.charging.subscribe();

    // external signal: percentage rises to 81
    svc.sync(reading(2, 81));
    let snap = svc.sender.changed.recv(&mut on_changed).expect("one aggregate publish");
    assert_eq!(snap.percent, 81);
    assert!(svc.sender.changed.recv(&mut on_changed).is_none());
    let snap = svc.sender.percent.recv(&mut on_percent).expect("one percentage publish");
    assert_eq!(snap.percent, 81);
    assert!(svc.sender.percent.recv(&mut on_percent).is_none());
    assert!(svc.sender.charging.recv(&mut on_charging).is_none());

    // external signal: unchanged percentage, now charging
    svc.sync(reading(1, 81));
    assert!(svc.sender.changed.recv(&mut on_changed).is_some());
    assert!(svc.sender.changed.recv(&mut on_changed).is_none());
    let snap = svc.sender.charging.recv(&mut on_charging).expect("one charging publish");
    assert!(snap.charging);
    // zero percentage-channel publishes for the second signal
    assert!(svc.sender.percent.recv(&mut on_percent).is_none());
}
