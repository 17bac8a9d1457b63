//! Capture-engine behaviour: debouncing, classification, canonical strings,
//! and the three delivery protocols over scripted tick streams.

use sc_binding_utility::axis::{step, step_streaming, AxisKey, AxisState, AxisTable};
use sc_binding_utility::classify::{
    canonical_axis, canonical_button, canonical_hat, class_name, is_gamepad, HatDirection,
};
use sc_binding_utility::device_database::DeviceDatabase;
use sc_binding_utility::session::{
    collect_input_burst, latest_axis_movement, stream_inputs, wait_for_single_input,
    xinput_button_number, xinput_hat_direction, AxisWatchEvent, DeviceDesc, GenericEvent,
    GenericEventKind, LegacySlotState, TickInput,
};

fn empty_db() -> DeviceDatabase {
    DeviceDatabase::init(Vec::new(), Vec::new()).unwrap()
}

fn stick() -> DeviceDesc {
    DeviceDesc {
        id: 0,
        os_name: "Test Stick".to_string(),
        map_name: None,
        vendor_id: None,
        product_id: None,
        signature: vec![0u8; 16],
        power_info: None,
        is_ff_supported: None,
    }
}

fn button_event(device: DeviceDesc, code_index: u32) -> GenericEvent {
    GenericEvent {
        device,
        kind: GenericEventKind::Button {
            dpad: None,
            code_index: Some(code_index),
            raw_button_code: "Unknown".to_string(),
        },
    }
}

fn axis_event(device: DeviceDesc, code_index: u32, value_milli: i32) -> GenericEvent {
    GenericEvent {
        device,
        kind: GenericEventKind::Axis {
            code_is_axis: true,
            code_index: Some(code_index),
            value_milli,
            raw_axis_code: "Axis".to_string(),
        },
    }
}

fn tick(now_ms: u64, events: Vec<GenericEvent>) -> TickInput {
    TickInput { now_ms, generic_events: events, legacy_slots: Vec::new(), modifiers: Vec::new() }
}

// Two full excursions fire exactly two positive triggers, one each.
#[test]
fn two_excursions_fire_twice() {
    let mut table = AxisTable::new();
    let key = AxisKey { device: 0, axis: 1 };
    let samples: [i32; 7] = [0, 350, 600, 700, 100, 450, 650];
    let mut fires = 0;
    for v in samples {
        if table.observe(key, v) == Some(true) {
            fires += 1;
        }
    }
    assert_eq!(fires, 2);
}

// Holding past the threshold does not re-fire without centering.
#[test]
fn held_deflection_fires_once() {
    let mut st = AxisState { last_value: 0, last_triggered_direction: None };
    assert_eq!(step(&mut st, 600), Some(true));
    assert_eq!(step(&mut st, 650), None);
    assert_eq!(step(&mut st, 980), None);
    assert_eq!(step(&mut st, 400), None);
    // only after the reset band re-arms the axis does it fire again
    assert_eq!(step(&mut st, 100), None);
    assert_eq!(step(&mut st, 800), Some(true));
}

// One-sided oscillation without centering triggers at most once.
#[test]
fn oscillation_without_reset_stays_quiet() {
    let mut st = AxisState { last_value: 0, last_triggered_direction: None };
    assert_eq!(step(&mut st, 600), Some(true));
    assert_eq!(step(&mut st, 350), None);
    assert_eq!(step(&mut st, 700), None);
    assert_eq!(step(&mut st, 320), None);
    assert_eq!(step(&mut st, 990), None);
}

// The first observation seeds the state and never fires.
#[test]
fn first_observation_never_fires() {
    let mut table = AxisTable::new();
    let key = AxisKey { device: 3, axis: 2 };
    assert_eq!(table.observe(key, 900), None);
}

// The streaming variant re-fires only after a direction change.
#[test]
fn streaming_variant_direction_memory() {
    let mut st = AxisState { last_value: 0, last_triggered_direction: None };
    assert_eq!(step_streaming(&mut st, 600), Some(true));
    assert_eq!(step_streaming(&mut st, 700), None);
    assert_eq!(step_streaming(&mut st, -600), Some(false));
    assert_eq!(step_streaming(&mut st, -700), None);
}

// A brand-name joystick with no generic keyword classifies as a joystick.
#[test]
fn vkb_gladiator_is_joystick() {
    assert!(!is_gamepad("VKB Gladiator NXT"));
    assert_eq!(class_name(is_gamepad("VKB Gladiator NXT")), "Joystick");
}

// An Xbox controller classifies as a gamepad.
#[test]
fn xbox_controller_is_gamepad() {
    assert!(is_gamepad("Xbox Wireless Controller"));
    assert_eq!(class_name(is_gamepad("Xbox Wireless Controller")), "Gamepad");
}

// A name carrying both joystick and gamepad words stays a joystick.
#[test]
fn joystick_keyword_wins_over_gamepad_keyword() {
    assert!(!is_gamepad("Thrustmaster Gamepad Hybrid"));
}

// A generic device name defaults to joystick.
#[test]
fn generic_name_defaults_to_joystick() {
    assert!(!is_gamepad("HID-compliant game controller"));
}

// Canonical grammar: button 3 on joystick instance 2, negative axis 1 on
// gamepad instance 1.
#[test]
fn canonical_strings_exact() {
    assert_eq!(canonical_button(false, 2, 3), "js2_button3");
    assert_eq!(canonical_axis(true, 1, 1, false), "gp1_axis1_negative");
    assert_eq!(canonical_axis(false, 1, 2, true), "js1_axis2_positive");
    assert_eq!(canonical_hat(false, 2, HatDirection::Up), "js2_hat1_up");
    assert_eq!(canonical_button(true, 1, 14), "gp1_button14");
}

// Wait-for-one returns the first detected input of the stream.
#[test]
fn wait_for_single_input_returns_first() {
    let db = empty_db();
    let ticks = vec![
        tick(0, vec![]),
        tick(10, vec![button_event(stick(), 4), button_event(stick(), 7)]),
    ];
    let det = wait_for_single_input("s1".to_string(), 1000, 0, &ticks, &db).unwrap();
    // code index 4 is 1-based button 5 on instance 1
    assert_eq!(det.input_string, "js1_button5");
    assert_eq!(det.device_type, "Joystick");
    assert_eq!(det.session_id, "s1");
    assert_eq!(det.device_uuid.as_deref(), Some("Test Stick_0"));
}

// A timed-out wait returns None after the timeout, as a normal outcome.
#[test]
fn wait_for_single_input_times_out() {
    let db = empty_db();
    let mut ticks = Vec::new();
    let mut now = 0u64;
    while now <= 1010 {
        ticks.push(tick(now, vec![]));
        now += 10;
    }
    let r = wait_for_single_input("s2".to_string(), 1000, 0, &ticks, &db);
    assert!(r.is_none());
}

// Collect-burst returns two distinct presses in first-seen order and drops
// the duplicate of the first.
#[test]
fn collect_burst_two_distinct_presses() {
    let db = empty_db();
    let ticks = vec![
        tick(0, vec![button_event(stick(), 2)]),
        tick(10, vec![button_event(stick(), 2), button_event(stick(), 6)]),
        tick(5000, vec![]),
    ];
    let r = collect_input_burst("s3".to_string(), 1000, 2000, 0, &ticks, &db);
    assert_eq!(r.len(), 2);
    assert_eq!(r[0].input_string, "js1_button3");
    assert_eq!(r[1].input_string, "js1_button7");
}

// An empty collect window returns an empty list, not an error.
#[test]
fn collect_burst_empty_on_timeout() {
    let db = empty_db();
    let ticks = vec![tick(0, vec![]), tick(500, vec![]), tick(1500, vec![])];
    let r = collect_input_burst("s4".to_string(), 1000, 2000, 0, &ticks, &db);
    assert!(r.is_empty());
}

// The stream protocol keeps duplicates and ends with a completion notice
// carrying the session id.
#[test]
fn stream_keeps_duplicates() {
    let db = empty_db();
    let pad = || DeviceDesc {
        id: 0,
        os_name: "Xbox Wireless Controller".to_string(),
        map_name: None,
        vendor_id: None,
        product_id: None,
        signature: vec![0u8; 16],
        power_info: None,
        is_ff_supported: None,
    };
    let ticks = vec![
        tick(0, vec![button_event(pad(), 2)]),
        tick(10, vec![button_event(pad(), 2)]),
        tick(5000, vec![]),
    ];
    let (emitted, done) = stream_inputs("s5".to_string(), 1000, 2000, 0, &ticks, &db);
    assert_eq!(emitted.len(), 2);
    assert_eq!(emitted[0].input_string, "gp1_button3");
    assert_eq!(emitted[1].input_string, "gp1_button3");
    assert_eq!(done.session_id, "s5");
}

// Axis events run through the debouncer inside a session: a rising sweep
// fires once.
#[test]
fn session_axis_sweep_fires_once() {
    let db = empty_db();
    let ticks = vec![
        tick(0, vec![axis_event(stick(), 0, 0)]),
        tick(10, vec![axis_event(stick(), 0, 400), axis_event(stick(), 0, 700)]),
        tick(20, vec![axis_event(stick(), 0, 800)]),
    ];
    let det = wait_for_single_input("s6".to_string(), 1000, 0, &ticks, &db).unwrap();
    assert_eq!(det.input_string, "js1_axis1_positive");
    assert_eq!(det.axis_value, Some(700));
}

// The legacy backend's button mask decodes by the fixed priority order;
// the four D-pad bits are hat directions, not buttons.
#[test]
fn xinput_button_mask_decoding() {
    assert_eq!(xinput_button_number(0x1000), 1);
    assert_eq!(xinput_button_number(0x2000), 2);
    assert_eq!(xinput_button_number(0x8000), 4);
    assert_eq!(xinput_button_number(0x0100), 5);
    assert_eq!(xinput_button_number(0x0010), 7);
    assert_eq!(xinput_button_number(0x0040), 9);
    assert_eq!(xinput_button_number(0x0080), 10);
    assert_eq!(xinput_button_number(0x0001), 0);
    assert_eq!(xinput_button_number(0x0000), 0);
    assert_eq!(xinput_hat_direction(0x0001), Some(HatDirection::Up));
    assert_eq!(xinput_hat_direction(0x0002), Some(HatDirection::Down));
    assert_eq!(xinput_hat_direction(0x0004), Some(HatDirection::Left));
    assert_eq!(xinput_hat_direction(0x0008), Some(HatDirection::Right));
    assert_eq!(xinput_hat_direction(0x1000), None);
}

// A legacy slot press surfaces as a gamepad button with the slot identity.
#[test]
fn legacy_slot_button_detected() {
    let db = empty_db();
    let idle = LegacySlotState {
        buttons: 0,
        thumb_lx: 0,
        thumb_ly: 0,
        thumb_rx: 0,
        thumb_ry: 0,
        left_trigger: 0,
        right_trigger: 0,
    };
    let pressed = LegacySlotState { buttons: 0x1000, ..idle };
    let ticks = vec![
        TickInput {
            now_ms: 0,
            generic_events: vec![],
            legacy_slots: vec![Some(idle)],
            modifiers: vec![],
        },
        TickInput {
            now_ms: 10,
            generic_events: vec![],
            legacy_slots: vec![Some(pressed)],
            modifiers: vec![],
        },
    ];
    let det = wait_for_single_input("s7".to_string(), 1000, 0, &ticks, &db).unwrap();
    assert_eq!(det.input_string, "gp1_button1");
    assert_eq!(det.device_uuid.as_deref(), Some("xinput_0"));
    assert_eq!(det.device_name.as_deref(), Some("XInput Controller 0"));

    // a D-pad press on the legacy backend maps to a hat direction
    let dpad = LegacySlotState { buttons: 0x0002, ..idle };
    let ticks = vec![
        TickInput {
            now_ms: 0,
            generic_events: vec![],
            legacy_slots: vec![Some(idle)],
            modifiers: vec![],
        },
        TickInput {
            now_ms: 10,
            generic_events: vec![],
            legacy_slots: vec![Some(dpad)],
            modifiers: vec![],
        },
    ];
    let det = wait_for_single_input("s8".to_string(), 1000, 0, &ticks, &db).unwrap();
    assert_eq!(det.input_string, "gp1_hat1_down");
}

// A button event whose code cannot be read is dropped in every protocol:
// only canonical strings ever leave a session.
#[test]
fn ambiguous_button_is_dropped() {
    let db = empty_db();
    let unknown = GenericEvent {
        device: stick(),
        kind: GenericEventKind::Button {
            dpad: None,
            code_index: None,
            raw_button_code: "Unknown".to_string(),
        },
    };
    let ticks = vec![tick(0, vec![unknown]), tick(1500, vec![])];
    assert!(wait_for_single_input("s9".to_string(), 1000, 0, &ticks, &db).is_none());
    let unknown = GenericEvent {
        device: stick(),
        kind: GenericEventKind::Button {
            dpad: None,
            code_index: None,
            raw_button_code: "Unknown".to_string(),
        },
    };
    let ticks = vec![tick(0, vec![unknown]), tick(5000, vec![])];
    assert!(collect_input_burst("s10".to_string(), 1000, 2000, 0, &ticks, &db).is_empty());
}

// The shared watcher returns the most recent off-center reading of the
// watched device and ignores others.
#[test]
fn axis_watcher_takes_latest() {
    let events = vec![
        AxisWatchEvent {
            device_uuid: "abc".to_string(),
            axis_index: Some(0),
            value_milli: 500,
        },
        AxisWatchEvent {
            device_uuid: "other".to_string(),
            axis_index: Some(1),
            value_milli: 900,
        },
        AxisWatchEvent {
            device_uuid: "abc".to_string(),
            axis_index: Some(2),
            value_milli: -400,
        },
        AxisWatchEvent { device_uuid: "abc".to_string(), axis_index: Some(3), value_milli: 100 },
    ];
    let m = latest_axis_movement(&events, "abc").unwrap();
    assert_eq!(m.axis_id, 3);
    assert_eq!(m.value_milli, -400);
    assert!(latest_axis_movement(&events, "none").is_none());
}

// The streaming variant also fires exactly once per excursion: the second
// trigger needs a pass through the reset band.
#[test]
fn streaming_two_excursions_fire_twice() {
    let mut st = AxisState { last_value: 0, last_triggered_direction: None };
    let samples: [i32; 7] = [350, 500, 700, 100, 450, 500, 900];
    let mut fires = 0;
    for v in samples {
        if step_streaming(&mut st, v) == Some(true) {
            fires += 1;
        }
    }
    assert_eq!(fires, 2);
}
