//! The capture session: a bounded-time loop state machine that drains raw
//! backend events, classifies them into canonical detected inputs, and
//! delivers them under one of three protocols (wait-for-one, collect-burst,
//! stream).
//!
//! The backends themselves (an event-queue generic controller API and a
//! slot-polled legacy controller API) live outside this crate; they hand in
//! plain values: device snapshots, typed raw events, and per-slot button
//! masks and axis readings.  Axis deflections are milli-units in
//! `[-1000, 1000]`.

use vstd::prelude::*;
use crate::axis::{
    spec_table_observe, spec_table_observe_streaming, spec_table_seed, AxisKey, AxisTable,
};
use crate::classify::{
    axis_trigger_display, button_display, canonical_axis, canonical_button, canonical_hat,
    class_name, hat_display, is_gamepad, spec_axis_trigger_display, spec_button_display,
    spec_canonical_axis, spec_canonical_button, spec_canonical_hat, spec_class_name,
    spec_hat_display, spec_is_gamepad_name, HatDirection,
};
use crate::device_database::{DeviceDatabase, DeviceEntry};
use crate::identity::{
    friendly_device_name, resolve_device_uuid, spec_friendly_name, spec_hex_bytes,
};
use crate::text::{clone_opt_string, clone_strings, spec_dec};

verus! {

/// Plain-value snapshot of one generic-backend device, taken by the caller
/// at event time.
pub struct DeviceDesc {
    /// Backend-local enumeration index.
    pub id: u32,
    /// The name the operating system reports.
    pub os_name: String,
    /// The backend's mapping name, when it has one.
    pub map_name: Option<String>,
    pub vendor_id: Option<u16>,
    pub product_id: Option<u16>,
    /// 128-bit device signature; all zero when the backend has none.
    pub signature: Vec<u8>,
    /// Battery/power information, for diagnostics only.
    pub power_info: Option<String>,
    /// Force-feedback support, for diagnostics only.
    pub is_ff_supported: Option<bool>,
}

/// A raw event from the generic backend, already in typed form: the kind and
/// index come from the backend's event code, not from string parsing.
pub enum GenericEventKind {
    /// A button press.  `dpad` is set for the four D-pad buttons; for the
    /// rest, `code_index` is the backend's 0-based button index, `None` when
    /// the event code could not be read (classification is then ambiguous
    /// and the event is dropped).
    Button { dpad: Option<HatDirection>, code_index: Option<u32>, raw_button_code: String },
    /// An axis sample.  `code_is_axis` is false when the event code
    /// contradicts the event (a button code in an axis event): such events
    /// are dropped.
    Axis { code_is_axis: bool, code_index: Option<u32>, value_milli: i32, raw_axis_code: String },
}

pub struct GenericEvent {
    pub device: DeviceDesc,
    pub kind: GenericEventKind,
}

/// A detected input: the canonical string, its display label, and the
/// diagnostic bundle.  `axis_value` is the deflection in milli-units.
pub struct DetectedInput {
    pub input_string: String,
    pub display_name: String,
    pub device_type: String,
    pub axis_value: Option<i32>,
    pub modifiers: Vec<String>,
    pub is_modifier: bool,
    pub session_id: String,
    pub device_uuid: Option<String>,
    pub raw_axis_code: Option<String>,
    pub raw_button_code: Option<String>,
    pub raw_code_index: Option<u64>,
    pub device_name: Option<String>,
    pub device_gilrs_id: Option<u32>,
    pub device_power_info: Option<String>,
    pub device_is_ff_supported: Option<bool>,
    pub all_device_axes: Option<Vec<String>>,
    pub all_device_buttons: Option<Vec<String>>,
}

/// Terminal notice pushed to stream-protocol callers when a session ends.
pub struct DetectionComplete {
    pub session_id: String,
}

/// Summary row for device enumeration.
pub struct JoystickInfo {
    pub id: u32,
    pub name: String,
    pub is_connected: bool,
    pub button_count: u32,
    pub axis_count: u32,
    pub hat_count: u32,
    pub device_type: String,
}

/// Detailed device row with the stable identity key.
pub struct DeviceInfo {
    pub uuid: String,
    pub name: String,
    pub axis_count: u32,
    pub button_count: u32,
    pub hat_count: u32,
    pub device_type: String,
    pub is_connected: bool,
}

/// The essence of one detection, as the protocol layer sees it.
pub struct DetectionView {
    pub input_string: Seq<char>,
    pub display_name: Seq<char>,
    pub gamepad: bool,
    pub axis_value: Option<i32>,
    pub uuid: Seq<char>,
}

/// Whether every byte of a signature is zero (no usable signature).
pub open spec fn spec_all_zero(bs: Seq<u8>) -> bool {
    forall|i: int| 0 <= i < bs.len() ==> bs[i] == 0
}

/// The stable identity key of a generic-backend device.
pub open spec fn spec_uuid_of(d: DeviceDesc) -> Seq<char> {
    if spec_all_zero(d.signature@) {
        d.os_name@ + "_"@ + spec_dec(d.id as nat)
    } else {
        spec_hex_bytes(d.signature@)
    }
}

/// The friendly display name of a generic-backend device.
pub open spec fn spec_friendly_of(d: DeviceDesc, devices: Seq<(u32, u32, DeviceEntry)>)
    -> Seq<char> {
    spec_friendly_name(
        match d.map_name {
            Some(m) => Some(m@),
            None => None,
        },
        d.vendor_id,
        d.product_id,
        d.os_name@,
        devices,
    )
}

/// Whether a device classifies as a gamepad, judged on its friendly name.
pub open spec fn spec_gamepad_of(d: DeviceDesc, devices: Seq<(u32, u32, DeviceEntry)>) -> bool {
    spec_is_gamepad_name(spec_friendly_of(d, devices))
}

/// The 1-based canonical instance number of a device.
pub open spec fn spec_instance(d: DeviceDesc) -> nat {
    d.id as nat + 1
}

/// What one generic-backend event does: the axis table afterwards, and the
/// detection it produces, if any.  D-pad buttons map to hat directions;
/// other buttons map to their 1-based index; a button whose code is
/// ambiguous is dropped, so only canonical strings ever leave a session.
/// Axis samples run through the debouncer (the streaming protocol through
/// its own variant) and produce a detection only when a direction fires.
pub open spec fn spec_classify_generic(
    table: Seq<(AxisKey, crate::axis::AxisState)>,
    ev: GenericEvent,
    streaming: bool,
    devices: Seq<(u32, u32, DeviceEntry)>,
) -> (Seq<(AxisKey, crate::axis::AxisState)>, Option<DetectionView>) {
    let gp = spec_gamepad_of(ev.device, devices);
    let inst = spec_instance(ev.device);
    let uuid = spec_uuid_of(ev.device);
    match ev.kind {
        GenericEventKind::Button { dpad, code_index, .. } => match dpad {
            Some(d) => (
                table,
                Some(
                    DetectionView {
                        input_string: spec_canonical_hat(gp, inst, d),
                        display_name: spec_hat_display(gp, inst, d),
                        gamepad: gp,
                        axis_value: None,
                        uuid: uuid,
                    },
                ),
            ),
            None => match code_index {
                Some(ci) => (
                    table,
                    Some(
                        DetectionView {
                            input_string: spec_canonical_button(gp, inst, ci as nat + 1),
                            display_name: spec_button_display(gp, inst, ci as nat + 1),
                            gamepad: gp,
                            axis_value: None,
                            uuid: uuid,
                        },
                    ),
                ),
                None => (table, None),
            },
        },
        GenericEventKind::Axis { code_is_axis, code_index, value_milli, .. } => {
            if !code_is_axis {
                (table, None)
            } else {
                match code_index {
                    Some(ci) => {
                        let k = AxisKey { device: ev.device.id, axis: (ci + 1) as u64 };
                        let out = if streaming {
                            spec_table_observe_streaming(table, k, value_milli)
                        } else {
                            spec_table_observe(table, k, value_milli)
                        };
                        match out.1 {
                            Some(dir) => (
                                out.0,
                                Some(
                                    DetectionView {
                                        input_string: spec_canonical_axis(
                                            gp,
                                            inst,
                                            ci as nat + 1,
                                            dir,
                                        ),
                                        display_name: spec_axis_trigger_display(
                                            gp,
                                            inst,
                                            ci as nat + 1,
                                            dir,
                                        ),
                                        gamepad: gp,
                                        axis_value: Some(value_milli),
                                        uuid: uuid,
                                    },
                                ),
                            ),
                            None => (out.0, None),
                        }
                    },
                    None => (table, None),
                }
            }
        },
    }
}

/// Classifies one generic-backend event against the session's axis table.
/// The table moves as `spec_classify_generic` says; the returned detection
/// carries the canonical string, the display label, the device class, the
/// stable identity and the diagnostic bundle of the event.
pub fn classify_generic_event(
    table: &mut AxisTable,
    ev: &GenericEvent,
    streaming: bool,
    db: &DeviceDatabase,
    session_id: &String,
    modifiers: &Vec<String>,
) -> (r: Option<DetectedInput>)
    ensures
        final(table).entries@ == spec_classify_generic(
            old(table).entries@,
            *ev,
            streaming,
            db.devices@,
        ).0,
        (match (r, spec_classify_generic(old(table).entries@, *ev, streaming, db.devices@).1) {
            (Some(det), Some(view)) => det.input_string@ == view.input_string
                && det.display_name@ == view.display_name && det.device_type@ == spec_class_name(
                view.gamepad,
            ) && det.axis_value == view.axis_value && (det.device_uuid matches Some(u) && u@
                == view.uuid) && det.session_id@ == session_id@ && det.modifiers@ == modifiers@
                && det.is_modifier == false && (det.device_name matches Some(n) && n@
                == spec_friendly_of(ev.device, db.devices@)) && det.device_gilrs_id == Some(
                ev.device.id,
            ) && det.device_power_info == ev.device.power_info && det.device_is_ff_supported
                == ev.device.is_ff_supported && det.all_device_axes is None
                && det.all_device_buttons is None,
            (None, None) => true,
            _ => false,
        }),
{
    let name = friendly_device_name(
        ev.device.map_name.as_ref(),
        ev.device.vendor_id,
        ev.device.product_id,
        ev.device.os_name.as_str(),
        db,
    );
    let gp = is_gamepad(name.as_str());
    let inst: u64 = (ev.device.id as u64) + 1;
    let uuid = resolve_device_uuid(
        ev.device.signature.as_slice(),
        ev.device.os_name.as_str(),
        ev.device.id as u64,
    );
    match &ev.kind {
        GenericEventKind::Button { dpad, code_index, raw_button_code } => {
            let (input_string, display_name) = match dpad {
                Some(d) => (canonical_hat(gp, inst, *d), hat_display(gp, inst, *d)),
                None => match code_index {
                    Some(ci) => {
                        let idx: u64 = (*ci as u64) + 1;
                        (canonical_button(gp, inst, idx), button_display(gp, inst, idx))
                    },
                    None => {
                        return None;
                    },
                },
            };
            Some(
                DetectedInput {
                    input_string,
                    display_name,
                    device_type: class_name(gp),
                    axis_value: None,
                    modifiers: clone_strings(modifiers),
                    is_modifier: false,
                    session_id: session_id.clone(),
                    device_uuid: Some(uuid),
                    raw_axis_code: None,
                    raw_button_code: Some(raw_button_code.clone()),
                    raw_code_index: match code_index {
                        Some(ci) => Some(*ci as u64),
                        None => None,
                    },
                    device_name: Some(name),
                    device_gilrs_id: Some(ev.device.id),
                    device_power_info: clone_opt_string(&ev.device.power_info),
                    device_is_ff_supported: ev.device.is_ff_supported,
                    all_device_axes: None,
                    all_device_buttons: None,
                },
            )
        },
        GenericEventKind::Axis { code_is_axis, code_index, value_milli, raw_axis_code } => {
            if !*code_is_axis {
                return None;
            }
            let ci = match code_index {
                Some(ci) => *ci,
                None => {
                    return None;
                },
            };
            let idx: u64 = (ci as u64) + 1;
            let k = AxisKey { device: ev.device.id, axis: idx };
            let fired = if streaming {
                table.observe_streaming(k, *value_milli)
            } else {
                table.observe(k, *value_milli)
            };
            let dir = match fired {
                Some(dir) => dir,
                None => {
                    return None;
                },
            };
            Some(
                DetectedInput {
                    input_string: canonical_axis(gp, inst, idx, dir),
                    display_name: axis_trigger_display(gp, inst, idx, dir),
                    device_type: class_name(gp),
                    axis_value: Some(*value_milli),
                    modifiers: clone_strings(modifiers),
                    is_modifier: false,
                    session_id: session_id.clone(),
                    device_uuid: Some(uuid),
                    raw_axis_code: Some(raw_axis_code.clone()),
                    raw_button_code: None,
                    raw_code_index: Some(idx),
                    device_name: Some(name),
                    device_gilrs_id: Some(ev.device.id),
                    device_power_info: clone_opt_string(&ev.device.power_info),
                    device_is_ff_supported: ev.device.is_ff_supported,
                    all_device_axes: None,
                    all_device_buttons: None,
                },
            )
        },
    }
}

} // verus!

verus! {

// ---------------------------------------------------------------------------
// The legacy slot-polled backend: button-mask diffing and fixed axes
// ---------------------------------------------------------------------------

/// One legacy-backend slot's raw state: the button bitmask, the four thumb
/// axes, and the two triggers.
#[derive(Clone, Copy, PartialEq, Eq, Structural, Debug)]
pub struct LegacySlotState {
    pub buttons: u16,
    pub thumb_lx: i16,
    pub thumb_ly: i16,
    pub thumb_rx: i16,
    pub thumb_ry: i16,
    pub left_trigger: u8,
    pub right_trigger: u8,
}

/// A thumb-stick reading normalised to milli-units: `raw / 32768`, scaled
/// by 1000, rounded toward zero.
pub open spec fn spec_thumb_milli(raw: i16) -> int {
    if raw >= 0 {
        (raw as int) * 1000 / 32768
    } else {
        -((-(raw as int)) * 1000 / 32768)
    }
}

/// A trigger reading normalised to milli-units: `raw / 255` mapped onto
/// `[-1000, 1000]`, rounded toward zero.
pub open spec fn spec_trigger_milli(raw: u8) -> int {
    (raw as int) * 2000 / 255 - 1000
}

fn thumb_milli(raw: i16) -> (r: i32)
    ensures
        r as int == spec_thumb_milli(raw),
{
    if raw >= 0 {
        (((raw as i64) * 1000) / 32768) as i32
    } else {
        (-(((-(raw as i64)) * 1000) / 32768)) as i32
    }
}

fn trigger_milli(raw: u8) -> (r: i32)
    ensures
        r as int == spec_trigger_milli(raw),
{
    ((((raw as i64) * 2000) / 255) - 1000) as i32
}

/// The 1-based number of the freshly-pressed named button, by the backend's
/// fixed priority order (face buttons, shoulders, menu, stick clicks); 0
/// when none of the ten named button bits is set.  The four D-pad bits are
/// not buttons: they map to hat directions, as on every backend.
pub open spec fn spec_xinput_button(pressed: u16) -> u32 {
    if pressed & 0x1000 != 0 {
        1
    } else if pressed & 0x2000 != 0 {
        2
    } else if pressed & 0x4000 != 0 {
        3
    } else if pressed & 0x8000 != 0 {
        4
    } else if pressed & 0x0100 != 0 {
        5
    } else if pressed & 0x0200 != 0 {
        6
    } else if pressed & 0x0010 != 0 {
        7
    } else if pressed & 0x0020 != 0 {
        8
    } else if pressed & 0x0040 != 0 {
        9
    } else if pressed & 0x0080 != 0 {
        10
    } else {
        0
    }
}

/// The hat direction of a freshly-pressed D-pad bit, checked only when no
/// named button bit is set.
pub open spec fn spec_xinput_hat(pressed: u16) -> Option<HatDirection> {
    if pressed & 0x0001 != 0 {
        Some(HatDirection::Up)
    } else if pressed & 0x0002 != 0 {
        Some(HatDirection::Down)
    } else if pressed & 0x0004 != 0 {
        Some(HatDirection::Left)
    } else if pressed & 0x0008 != 0 {
        Some(HatDirection::Right)
    } else {
        None
    }
}

/// Decodes the freshly-pressed mask to a named button number.
pub fn xinput_button_number(pressed: u16) -> (r: u32)
    ensures
        r == spec_xinput_button(pressed),
{
    if pressed & 0x1000 != 0 {
        1
    } else if pressed & 0x2000 != 0 {
        2
    } else if pressed & 0x4000 != 0 {
        3
    } else if pressed & 0x8000 != 0 {
        4
    } else if pressed & 0x0100 != 0 {
        5
    } else if pressed & 0x0200 != 0 {
        6
    } else if pressed & 0x0010 != 0 {
        7
    } else if pressed & 0x0020 != 0 {
        8
    } else if pressed & 0x0040 != 0 {
        9
    } else if pressed & 0x0080 != 0 {
        10
    } else {
        0
    }
}

/// Decodes the freshly-pressed mask to a hat direction.
pub fn xinput_hat_direction(pressed: u16) -> (r: Option<HatDirection>)
    ensures
        r == spec_xinput_hat(pressed),
{
    if pressed & 0x0001 != 0 {
        Some(HatDirection::Up)
    } else if pressed & 0x0002 != 0 {
        Some(HatDirection::Down)
    } else if pressed & 0x0004 != 0 {
        Some(HatDirection::Left)
    } else if pressed & 0x0008 != 0 {
        Some(HatDirection::Right)
    } else {
        None
    }
}

/// The milli-unit value of legacy axis `index` (1 through 6) in a slot state.
pub open spec fn spec_legacy_axis_value(st: LegacySlotState, index: nat) -> int {
    if index == 1 {
        spec_thumb_milli(st.thumb_lx)
    } else if index == 2 {
        spec_thumb_milli(st.thumb_ly)
    } else if index == 3 {
        spec_thumb_milli(st.thumb_rx)
    } else if index == 4 {
        spec_thumb_milli(st.thumb_ry)
    } else if index == 5 {
        spec_trigger_milli(st.left_trigger)
    } else {
        spec_trigger_milli(st.right_trigger)
    }
}

fn legacy_axis_value(st: &LegacySlotState, index: u64) -> (r: i32)
    requires
        1 <= index <= 6,
    ensures
        r as int == spec_legacy_axis_value(*st, index as nat),
{
    if index == 1 {
        thumb_milli(st.thumb_lx)
    } else if index == 2 {
        thumb_milli(st.thumb_ly)
    } else if index == 3 {
        thumb_milli(st.thumb_rx)
    } else if index == 4 {
        thumb_milli(st.thumb_ry)
    } else if index == 5 {
        trigger_milli(st.left_trigger)
    } else {
        trigger_milli(st.right_trigger)
    }
}

/// The fixed display name of legacy axis `index`.
pub open spec fn spec_legacy_axis_name(index: nat) -> Seq<char> {
    if index == 1 {
        "Left Stick X"@
    } else if index == 2 {
        "Left Stick Y"@
    } else if index == 3 {
        "Right Stick X"@
    } else if index == 4 {
        "Right Stick Y"@
    } else if index == 5 {
        "Left Trigger"@
    } else {
        "Right Trigger"@
    }
}

fn legacy_axis_name(index: u64) -> (r: String)
    requires
        1 <= index <= 6,
    ensures
        r@ == spec_legacy_axis_name(index as nat),
{
    if index == 1 {
        String::from_str("Left Stick X")
    } else if index == 2 {
        String::from_str("Left Stick Y")
    } else if index == 3 {
        String::from_str("Right Stick X")
    } else if index == 4 {
        String::from_str("Right Stick Y")
    } else if index == 5 {
        String::from_str("Left Trigger")
    } else {
        String::from_str("Right Trigger")
    }
}

/// Display label for a legacy axis trigger:
/// `Gamepad {instance} - {name} {+|-} (Axis {index})`.
pub open spec fn spec_legacy_axis_display(instance: nat, index: nat, positive: bool)
    -> Seq<char> {
    "Gamepad "@ + spec_dec(instance) + " - "@ + spec_legacy_axis_name(index) + (if positive {
        " + (Axis "@
    } else {
        " - (Axis "@
    }) + spec_dec(index) + ")"@
}

fn legacy_axis_display(instance: u64, index: u64, positive: bool) -> (r: String)
    requires
        1 <= index <= 6,
    ensures
        r@ == spec_legacy_axis_display(instance as nat, index as nat, positive),
{
    let mut r = String::from_str("Gamepad ");
    let inst = crate::text::dec_string(instance);
    r.append(inst.as_str());
    r.append(" - ");
    let name = legacy_axis_name(index);
    r.append(name.as_str());
    if positive {
        r.append(" + (Axis ");
    } else {
        r.append(" - (Axis ");
    }
    let idx = crate::text::dec_string(index);
    r.append(idx.as_str());
    r.append(")");
    r
}

/// The stable identity key of a legacy slot, as a character sequence.
pub open spec fn spec_xinput_uuid(slot: u32) -> Seq<char> {
    "xinput_"@ + spec_dec(slot as nat)
}

/// The display name of a legacy slot's device.
pub open spec fn spec_xinput_device_name(slot: u32) -> Seq<char> {
    "XInput Controller "@ + spec_dec(slot as nat)
}

/// The detection produced by a legacy button press.
pub open spec fn spec_legacy_button_view(slot: u32, number: u32) -> DetectionView {
    DetectionView {
        input_string: spec_canonical_button(true, slot as nat + 1, number as nat),
        display_name: spec_button_display(true, slot as nat + 1, number as nat),
        gamepad: true,
        axis_value: None,
        uuid: spec_xinput_uuid(slot),
    }
}

/// The detection produced by a legacy D-pad press: a hat direction, as on
/// every backend.
pub open spec fn spec_legacy_hat_view(slot: u32, d: HatDirection) -> DetectionView {
    DetectionView {
        input_string: spec_canonical_hat(true, slot as nat + 1, d),
        display_name: spec_hat_display(true, slot as nat + 1, d),
        gamepad: true,
        axis_value: None,
        uuid: spec_xinput_uuid(slot),
    }
}

/// The detection produced by a legacy axis trigger.
pub open spec fn spec_legacy_axis_view(slot: u32, index: nat, positive: bool, value: i32)
    -> DetectionView {
    DetectionView {
        input_string: spec_canonical_axis(true, slot as nat + 1, index, positive),
        display_name: spec_legacy_axis_display(slot as nat + 1, index, positive),
        gamepad: true,
        axis_value: Some(value),
        uuid: spec_xinput_uuid(slot),
    }
}

/// Folds the six fixed axes of one legacy slot through the delta-gated
/// debouncer, from `index` up: the table afterwards and the axis detections
/// in ascending axis order.
pub open spec fn spec_legacy_axes(
    table: Seq<(AxisKey, crate::axis::AxisState)>,
    slot: u32,
    st: LegacySlotState,
    index: nat,
) -> (Seq<(AxisKey, crate::axis::AxisState)>, Seq<DetectionView>)
    decreases 7 - index,
{
    if index < 1 || index > 6 {
        (table, Seq::empty())
    } else {
        let v = spec_legacy_axis_value(st, index) as i32;
        let k = AxisKey { device: slot, axis: index as u64 };
        let out = spec_table_observe(table, k, v);
        let rest = spec_legacy_axes(out.0, slot, st, index + 1);
        match out.1 {
            Some(dir) => (rest.0, seq![spec_legacy_axis_view(slot, index, dir, v)] + rest.1),
            None => rest,
        }
    }
}

/// What polling one legacy slot does: with no previous snapshot, only the
/// snapshot is recorded; otherwise the freshly-pressed input (a named
/// button first, else a D-pad hat direction) is detected, then the six
/// axes run through the debouncer.  The new previous-button mask is the
/// polled one.
pub open spec fn spec_legacy_slot(
    table: Seq<(AxisKey, crate::axis::AxisState)>,
    prev_buttons: Option<u16>,
    slot: u32,
    st: LegacySlotState,
) -> (Seq<(AxisKey, crate::axis::AxisState)>, Option<u16>, Seq<DetectionView>) {
    match prev_buttons {
        None => (table, Some(st.buttons), Seq::empty()),
        Some(pb) => {
            let pressed = st.buttons & !pb;
            let number = spec_xinput_button(pressed);
            let button_views: Seq<DetectionView> = if pressed != 0 && number > 0 {
                seq![spec_legacy_button_view(slot, number)]
            } else if pressed != 0 && spec_xinput_hat(pressed) is Some {
                seq![spec_legacy_hat_view(slot, spec_xinput_hat(pressed)->0)]
            } else {
                Seq::empty()
            };
            let axes = spec_legacy_axes(table, slot, st, 1);
            (axes.0, Some(st.buttons), button_views + axes.1)
        },
    }
}

} // verus!

verus! {

// ---------------------------------------------------------------------------
// The capture session state machine
// ---------------------------------------------------------------------------

/// Whether a detected input presents one detection faithfully: the canonical
/// string, display label, device class, analog value, identity key, session
/// and modifier set all agree.
pub open spec fn spec_matches_view(
    det: DetectedInput,
    view: DetectionView,
    session_id: Seq<char>,
    modifiers: Seq<String>,
) -> bool {
    &&& det.input_string@ == view.input_string
    &&& det.display_name@ == view.display_name
    &&& det.device_type@ == spec_class_name(view.gamepad)
    &&& det.axis_value == view.axis_value
    &&& det.device_uuid matches Some(u) && u@ == view.uuid
    &&& det.session_id@ == session_id
    &&& det.modifiers@ == modifiers
    &&& det.is_modifier == false
}

fn build_legacy_button_input(
    slot: u32,
    number: u32,
    pressed: u16,
    session_id: &String,
    modifiers: &Vec<String>,
) -> (r: DetectedInput)
    ensures
        spec_matches_view(r, spec_legacy_button_view(slot, number), session_id@, modifiers@),
{
    let uuid = crate::identity::resolve_xinput_uuid(slot);
    let mut raw_code = String::from_str("XInput Button: 0x");
    let hex = crate::text::hex4_upper_string(pressed);
    raw_code.append(hex.as_str());
    let mut device_name = String::from_str("XInput Controller ");
    let slot_dec = crate::text::dec_string(slot as u64);
    device_name.append(slot_dec.as_str());
    DetectedInput {
        input_string: canonical_button(true, (slot as u64) + 1, number as u64),
        display_name: button_display(true, (slot as u64) + 1, number as u64),
        device_type: class_name(true),
        axis_value: None,
        modifiers: clone_strings(modifiers),
        is_modifier: false,
        session_id: session_id.clone(),
        device_uuid: Some(uuid),
        raw_axis_code: None,
        raw_button_code: Some(raw_code),
        raw_code_index: Some(number as u64),
        device_name: Some(device_name),
        device_gilrs_id: None,
        device_power_info: None,
        device_is_ff_supported: None,
        all_device_axes: None,
        all_device_buttons: None,
    }
}

fn build_legacy_hat_input(
    slot: u32,
    d: HatDirection,
    pressed: u16,
    session_id: &String,
    modifiers: &Vec<String>,
) -> (r: DetectedInput)
    ensures
        spec_matches_view(r, spec_legacy_hat_view(slot, d), session_id@, modifiers@),
{
    let uuid = crate::identity::resolve_xinput_uuid(slot);
    let mut raw_code = String::from_str("XInput Button: 0x");
    let hex = crate::text::hex4_upper_string(pressed);
    raw_code.append(hex.as_str());
    let mut device_name = String::from_str("XInput Controller ");
    let slot_dec = crate::text::dec_string(slot as u64);
    device_name.append(slot_dec.as_str());
    DetectedInput {
        input_string: canonical_hat(true, (slot as u64) + 1, d),
        display_name: hat_display(true, (slot as u64) + 1, d),
        device_type: class_name(true),
        axis_value: None,
        modifiers: clone_strings(modifiers),
        is_modifier: false,
        session_id: session_id.clone(),
        device_uuid: Some(uuid),
        raw_axis_code: None,
        raw_button_code: Some(raw_code),
        raw_code_index: None,
        device_name: Some(device_name),
        device_gilrs_id: None,
        device_power_info: None,
        device_is_ff_supported: None,
        all_device_axes: None,
        all_device_buttons: None,
    }
}

fn build_legacy_axis_input(
    slot: u32,
    index: u64,
    positive: bool,
    value: i32,
    session_id: &String,
    modifiers: &Vec<String>,
) -> (r: DetectedInput)
    requires
        1 <= index <= 6,
    ensures
        spec_matches_view(
            r,
            spec_legacy_axis_view(slot, index as nat, positive, value),
            session_id@,
            modifiers@,
        ),
{
    let uuid = crate::identity::resolve_xinput_uuid(slot);
    let mut raw_code = String::from_str("XInput ");
    let name = legacy_axis_name(index);
    raw_code.append(name.as_str());
    let mut device_name = String::from_str("XInput Controller ");
    let slot_dec = crate::text::dec_string(slot as u64);
    device_name.append(slot_dec.as_str());
    DetectedInput {
        input_string: canonical_axis(true, (slot as u64) + 1, index, positive),
        display_name: legacy_axis_display((slot as u64) + 1, index, positive),
        device_type: class_name(true),
        axis_value: Some(value),
        modifiers: clone_strings(modifiers),
        is_modifier: false,
        session_id: session_id.clone(),
        device_uuid: Some(uuid),
        raw_axis_code: Some(raw_code),
        raw_button_code: None,
        raw_code_index: Some(index),
        device_name: Some(device_name),
        device_gilrs_id: None,
        device_power_info: None,
        device_is_ff_supported: None,
        all_device_axes: None,
        all_device_buttons: None,
    }
}

/// The axis table after seeding the six fixed axes of one legacy slot from
/// a snapshot, from `index` up.
pub open spec fn spec_seed_axes(
    table: Seq<(AxisKey, crate::axis::AxisState)>,
    slot: u32,
    st: LegacySlotState,
    index: nat,
) -> Seq<(AxisKey, crate::axis::AxisState)>
    decreases 7 - index,
{
    if index < 1 || index > 6 {
        table
    } else {
        let v = spec_legacy_axis_value(st, index) as i32;
        let k = AxisKey { device: slot, axis: index as u64 };
        spec_seed_axes(spec_table_seed(table, k, v), slot, st, index + 1)
    }
}

/// One bounded-time capture: configuration, per-session axis tables for both
/// backends, previous button masks of the four legacy slots, and the time of
/// the first accepted input.
pub struct CaptureSession {
    pub session_id: String,
    pub start_ms: u64,
    pub initial_timeout_ms: u64,
    pub collect_duration_ms: u64,
    pub first_hit_ms: Option<u64>,
    pub generic_axes: AxisTable,
    pub legacy_axes: AxisTable,
    pub legacy_prev_buttons: Vec<Option<u16>>,
}

/// Whether the session's deadline has passed at `now_ms`: before the first
/// accepted input the initial timeout bounds the wait; afterwards the
/// collection window bounds it, measured from the first hit.
pub open spec fn spec_deadline(
    first_hit_ms: Option<u64>,
    start_ms: u64,
    initial_timeout_ms: u64,
    collect_duration_ms: u64,
    now_ms: u64,
) -> bool {
    match first_hit_ms {
        None => now_ms - start_ms >= initial_timeout_ms,
        Some(f) => now_ms - f >= collect_duration_ms,
    }
}

impl CaptureSession {
    /// Opens a session with the four legacy slots unobserved.
    pub fn new(session_id: String, start_ms: u64, initial_timeout_ms: u64,
        collect_duration_ms: u64) -> (r: CaptureSession)
        ensures
            r.session_id == session_id,
            r.start_ms == start_ms,
            r.initial_timeout_ms == initial_timeout_ms,
            r.collect_duration_ms == collect_duration_ms,
            r.first_hit_ms is None,
            r.generic_axes.entries@.len() == 0,
            r.legacy_axes.entries@.len() == 0,
            r.legacy_prev_buttons@.len() == 4,
            forall|i: int| 0 <= i < 4 ==> r.legacy_prev_buttons@[i] is None,
    {
        let mut prev: Vec<Option<u16>> = Vec::new();
        prev.push(None);
        prev.push(None);
        prev.push(None);
        prev.push(None);
        CaptureSession {
            session_id,
            start_ms,
            initial_timeout_ms,
            collect_duration_ms,
            first_hit_ms: None,
            generic_axes: AxisTable::new(),
            legacy_axes: AxisTable::new(),
            legacy_prev_buttons: prev,
        }
    }

    /// Whether the deadline has passed at `now_ms`; checked at the top of
    /// every tick.
    pub fn deadline_reached(&self, now_ms: u64) -> (r: bool)
        requires
            now_ms >= self.start_ms,
            self.first_hit_ms matches Some(f) ==> now_ms >= f,
        ensures
            r == spec_deadline(
                self.first_hit_ms,
                self.start_ms,
                self.initial_timeout_ms,
                self.collect_duration_ms,
                now_ms,
            ),
    {
        match self.first_hit_ms {
            None => now_ms - self.start_ms >= self.initial_timeout_ms,
            Some(f) => now_ms - f >= self.collect_duration_ms,
        }
    }

    /// Seeds one legacy slot from a pre-loop snapshot: records the button
    /// mask and seeds the six axis states with the snapshot's values, so
    /// that held deflections present at session start do not fire.
    pub fn seed_legacy_slot(&mut self, slot: usize, st: &LegacySlotState)
        requires
            slot < old(self).legacy_prev_buttons@.len(),
            slot < 4,
        ensures
            final(self).legacy_prev_buttons@ == old(self).legacy_prev_buttons@.update(
                slot as int,
                Some(st.buttons),
            ),
            final(self).legacy_axes.entries@ == spec_seed_axes(
                old(self).legacy_axes.entries@,
                slot as u32,
                *st,
                1,
            ),
            final(self).session_id == old(self).session_id,
            final(self).start_ms == old(self).start_ms,
            final(self).initial_timeout_ms == old(self).initial_timeout_ms,
            final(self).collect_duration_ms == old(self).collect_duration_ms,
            final(self).first_hit_ms == old(self).first_hit_ms,
            final(self).generic_axes == old(self).generic_axes,
    {
        self.legacy_prev_buttons[slot] = Some(st.buttons);
        let mut index: u64 = 1;
        while index <= 6
            invariant
                1 <= index <= 7,
                slot < 4,
                spec_seed_axes(old(self).legacy_axes.entries@, slot as u32, *st, 1)
                    == spec_seed_axes(self.legacy_axes.entries@, slot as u32, *st, index as nat),
                self.session_id == old(self).session_id,
                self.start_ms == old(self).start_ms,
                self.initial_timeout_ms == old(self).initial_timeout_ms,
                self.collect_duration_ms == old(self).collect_duration_ms,
                self.first_hit_ms == old(self).first_hit_ms,
                self.generic_axes == old(self).generic_axes,
                self.legacy_prev_buttons@ == old(self).legacy_prev_buttons@.update(
                    slot as int,
                    Some(st.buttons),
                ),
            decreases 7 - index,
        {
            let v = legacy_axis_value(st, index);
            self.legacy_axes.seed(AxisKey { device: slot as u32, axis: index }, v);
            index = index + 1;
        }
    }
}

} // verus!

verus! {

/// The outcome of folding a list of generic events through classification:
/// the axis table afterwards and the detections in event order.
pub open spec fn spec_generic_fold(
    table: Seq<(AxisKey, crate::axis::AxisState)>,
    events: Seq<GenericEvent>,
    streaming: bool,
    devices: Seq<(u32, u32, DeviceEntry)>,
) -> (Seq<(AxisKey, crate::axis::AxisState)>, Seq<DetectionView>)
    decreases events.len(),
{
    if events.len() == 0 {
        (table, Seq::empty())
    } else {
        let out = spec_classify_generic(table, events[0], streaming, devices);
        let rest = spec_generic_fold(out.0, events.drop_first(), streaming, devices);
        (
            rest.0,
            (match out.1 {
                Some(v) => seq![v],
                None => Seq::empty(),
            }) + rest.1,
        )
    }
}

/// The outcome of polling the legacy slots `index` and up: both tables of
/// state (axis table and previous-button masks) afterwards, and the
/// detections in ascending slot order.  A slot whose poll failed (`None`)
/// is skipped and leaves its state untouched.
pub open spec fn spec_legacy_slots(
    table: Seq<(AxisKey, crate::axis::AxisState)>,
    prev: Seq<Option<u16>>,
    slots: Seq<Option<LegacySlotState>>,
    index: nat,
) -> (Seq<(AxisKey, crate::axis::AxisState)>, Seq<Option<u16>>, Seq<DetectionView>)
    decreases slots.len() - index,
{
    if index >= slots.len() || index >= prev.len() {
        (table, prev, Seq::empty())
    } else {
        match slots[index as int] {
            None => spec_legacy_slots(table, prev, slots, index + 1),
            Some(st) => {
                let out = spec_legacy_slot(table, prev[index as int], index as u32, st);
                let rest = spec_legacy_slots(
                    out.0,
                    prev.update(index as int, out.1),
                    slots,
                    index + 1,
                );
                (rest.0, rest.1, out.2 + rest.2)
            },
        }
    }
}

impl CaptureSession {
    /// Polls one legacy slot: diffs the button mask against the previous
    /// poll and runs the six fixed axes through the debouncer.  Returns the
    /// slot's detections in order (button first, then axes); on the very
    /// first poll of a slot only the snapshot is recorded.
    pub fn process_legacy_slot(&mut self, slot: usize, st: &LegacySlotState,
        modifiers: &Vec<String>) -> (r: Vec<DetectedInput>)
        requires
            slot < old(self).legacy_prev_buttons@.len(),
            slot < 4,
        ensures
            ({
                let out = spec_legacy_slot(
                    old(self).legacy_axes.entries@,
                    old(self).legacy_prev_buttons@[slot as int],
                    slot as u32,
                    *st,
                );
                &&& final(self).legacy_axes.entries@ == out.0
                &&& final(self).legacy_prev_buttons@ == old(
                    self,
                ).legacy_prev_buttons@.update(slot as int, out.1)
                &&& r@.len() == out.2.len()
                &&& forall|i: int| 0 <= i < r@.len() ==> spec_matches_view(
                    #[trigger] r@[i],
                    out.2[i],
                    old(self).session_id@,
                    modifiers@,
                )
            }),
            final(self).session_id == old(self).session_id,
            final(self).start_ms == old(self).start_ms,
            final(self).initial_timeout_ms == old(self).initial_timeout_ms,
            final(self).collect_duration_ms == old(self).collect_duration_ms,
            final(self).first_hit_ms == old(self).first_hit_ms,
            final(self).generic_axes == old(self).generic_axes,
    {
        let prev = self.legacy_prev_buttons[slot];
        let pb = match prev {
            None => {
                self.legacy_prev_buttons[slot] = Some(st.buttons);
                return Vec::new();
            },
            Some(pb) => pb,
        };
        let mut r: Vec<DetectedInput> = Vec::new();
        let ghost t0 = self.legacy_axes.entries@;
        let ghost full = spec_legacy_slot(t0, Some(pb), slot as u32, *st);
        let pressed = st.buttons & !pb;
        let number = xinput_button_number(pressed);
        if pressed != 0 && number > 0 {
            r.push(build_legacy_button_input(slot as u32, number, pressed, &self.session_id,
                modifiers));
        } else if pressed != 0 {
            if let Some(d) = xinput_hat_direction(pressed) {
                r.push(build_legacy_hat_input(slot as u32, d, pressed, &self.session_id,
                    modifiers));
            }
        }
        let ghost base = r@.len() as int;
        let ghost axes_full = spec_legacy_axes(t0, slot as u32, *st, 1);
        let ghost mut acc: Seq<DetectionView> = Seq::empty();
        let mut index: u64 = 1;
        while index <= 6
            invariant
                1 <= index <= 7,
                slot < 4,
                self.session_id == old(self).session_id,
                self.start_ms == old(self).start_ms,
                self.initial_timeout_ms == old(self).initial_timeout_ms,
                self.collect_duration_ms == old(self).collect_duration_ms,
                self.first_hit_ms == old(self).first_hit_ms,
                self.generic_axes == old(self).generic_axes,
                self.legacy_prev_buttons == old(self).legacy_prev_buttons,
                axes_full == spec_legacy_axes(t0, slot as u32, *st, 1),
                full == spec_legacy_slot(t0, Some(pb), slot as u32, *st),
                0 <= base <= 1,
                base == 1 ==> spec_matches_view(
                    r@[0],
                    full.2[0],
                    old(self).session_id@,
                    modifiers@,
                ),
                r@.len() == base + acc.len(),
                axes_full.0 == spec_legacy_axes(
                    self.legacy_axes.entries@,
                    slot as u32,
                    *st,
                    index as nat,
                ).0,
                axes_full.1 == acc + spec_legacy_axes(
                    self.legacy_axes.entries@,
                    slot as u32,
                    *st,
                    index as nat,
                ).1,
                forall|i: int| 0 <= i < acc.len() ==> spec_matches_view(
                    #[trigger] r@[base + i],
                    acc[i],
                    old(self).session_id@,
                    modifiers@,
                ),
            decreases 7 - index,
        {
            let ghost cur = self.legacy_axes.entries@;
            let ghost step = spec_legacy_axes(cur, slot as u32, *st, index as nat);
            let v = legacy_axis_value(st, index);
            let fired = self.legacy_axes.observe(AxisKey { device: slot as u32, axis: index },
                v);
            if let Some(dir) = fired {
                r.push(build_legacy_axis_input(slot as u32, index, dir, v, &self.session_id,
                    modifiers));
                proof {
                    let view = spec_legacy_axis_view(slot as u32, index as nat, dir, v);
                    assert(step.1 == seq![view] + spec_legacy_axes(
                        self.legacy_axes.entries@,
                        slot as u32,
                        *st,
                        index as nat + 1,
                    ).1);
                    assert(acc + step.1 =~= acc.push(view) + spec_legacy_axes(
                        self.legacy_axes.entries@,
                        slot as u32,
                        *st,
                        index as nat + 1,
                    ).1);
                    acc = acc.push(view);
                }
            }
            index = index + 1;
        }
        proof {
            assert(spec_legacy_axes(self.legacy_axes.entries@, slot as u32, *st, 7).0
                == self.legacy_axes.entries@);
            assert(spec_legacy_axes(self.legacy_axes.entries@, slot as u32, *st, 7).1
                =~= Seq::<DetectionView>::empty());
            assert(acc + Seq::<DetectionView>::empty() =~= acc);
            assert(axes_full.1 == acc);
            assert(full.0 == axes_full.0);
            assert(full.2 == (if base == 1 {
                seq![full.2[0]]
            } else {
                Seq::<DetectionView>::empty()
            }) + axes_full.1) by {
                assert(full.2 =~= (if base == 1 {
                    seq![full.2[0]]
                } else {
                    Seq::<DetectionView>::empty()
                }) + axes_full.1);
            }
            assert(full.2.len() == base + acc.len());
            assert forall|i: int| 0 <= i < base + acc.len() implies spec_matches_view(
                r@[i],
                full.2[i],
                old(self).session_id@,
                modifiers@,
            ) by {
                if i >= base {
                    assert(full.2[i] == axes_full.1[i - base]);
                    assert(spec_matches_view(
                        r@[base + (i - base)],
                        acc[i - base],
                        old(self).session_id@,
                        modifiers@,
                    ));
                }
            }
        }
        self.legacy_prev_buttons[slot] = Some(st.buttons);
        r
    }
}

} // verus!

verus! {

/// One tick's raw input: the clock, the generic backend's drained events in
/// arrival order, the four legacy slots' polls (`None` where the poll
/// failed), and the modifier set sampled for this tick.
pub struct TickInput {
    pub now_ms: u64,
    pub generic_events: Vec<GenericEvent>,
    pub legacy_slots: Vec<Option<LegacySlotState>>,
    pub modifiers: Vec<String>,
}

/// One tick's outcome: generic events in arrival order first, then the
/// legacy slots in ascending order (when the protocol polls them).
pub open spec fn spec_tick(
    generic: Seq<(AxisKey, crate::axis::AxisState)>,
    legacy: Seq<(AxisKey, crate::axis::AxisState)>,
    prev: Seq<Option<u16>>,
    t: TickInput,
    streaming: bool,
    include_legacy: bool,
    devices: Seq<(u32, u32, DeviceEntry)>,
) -> (
    Seq<(AxisKey, crate::axis::AxisState)>,
    Seq<(AxisKey, crate::axis::AxisState)>,
    Seq<Option<u16>>,
    Seq<DetectionView>,
) {
    let g = spec_generic_fold(generic, t.generic_events@, streaming, devices);
    if include_legacy {
        let l = spec_legacy_slots(legacy, prev, t.legacy_slots@, 0);
        (g.0, l.0, l.1, g.1 + l.2)
    } else {
        (g.0, legacy, prev, g.1)
    }
}

impl CaptureSession {
    fn process_generic_events(&mut self, events: &Vec<GenericEvent>, streaming: bool,
        db: &DeviceDatabase, modifiers: &Vec<String>) -> (r: Vec<DetectedInput>)
        ensures
            ({
                let out = spec_generic_fold(
                    old(self).generic_axes.entries@,
                    events@,
                    streaming,
                    db.devices@,
                );
                &&& final(self).generic_axes.entries@ == out.0
                &&& r@.len() == out.1.len()
                &&& forall|i: int| 0 <= i < r@.len() ==> spec_matches_view(
                    #[trigger] r@[i],
                    out.1[i],
                    old(self).session_id@,
                    modifiers@,
                )
            }),
            final(self).session_id == old(self).session_id,
            final(self).start_ms == old(self).start_ms,
            final(self).initial_timeout_ms == old(self).initial_timeout_ms,
            final(self).collect_duration_ms == old(self).collect_duration_ms,
            final(self).first_hit_ms == old(self).first_hit_ms,
            final(self).legacy_axes == old(self).legacy_axes,
            final(self).legacy_prev_buttons == old(self).legacy_prev_buttons,
    {
        let mut r: Vec<DetectedInput> = Vec::new();
        let ghost t0 = self.generic_axes.entries@;
        let ghost full = spec_generic_fold(t0, events@, streaming, db.devices@);
        let ghost mut acc: Seq<DetectionView> = Seq::empty();
        let n = events.len();
        let mut i: usize = 0;
        proof {
            assert(events@.skip(0) =~= events@);
            assert(Seq::<DetectionView>::empty() + full.1 =~= full.1);
        }
        while i < n
            invariant
                n == events@.len(),
                i <= n,
                full == spec_generic_fold(t0, events@, streaming, db.devices@),
                self.session_id == old(self).session_id,
                self.start_ms == old(self).start_ms,
                self.initial_timeout_ms == old(self).initial_timeout_ms,
                self.collect_duration_ms == old(self).collect_duration_ms,
                self.first_hit_ms == old(self).first_hit_ms,
                self.legacy_axes == old(self).legacy_axes,
                self.legacy_prev_buttons == old(self).legacy_prev_buttons,
                r@.len() == acc.len(),
                full.0 == spec_generic_fold(
                    self.generic_axes.entries@,
                    events@.skip(i as int),
                    streaming,
                    db.devices@,
                ).0,
                full.1 == acc + spec_generic_fold(
                    self.generic_axes.entries@,
                    events@.skip(i as int),
                    streaming,
                    db.devices@,
                ).1,
                forall|k: int| 0 <= k < acc.len() ==> spec_matches_view(
                    #[trigger] r@[k],
                    acc[k],
                    old(self).session_id@,
                    modifiers@,
                ),
            decreases n - i,
        {
            let ghost rem = events@.skip(i as int);
            let ghost cur = self.generic_axes.entries@;
            proof {
                assert(rem[0] == events@[i as int]);
                assert(rem.drop_first() =~= events@.skip(i as int + 1));
            }
            let det = classify_generic_event(&mut self.generic_axes, &events[i], streaming, db,
                &self.session_id, modifiers);
            let ghost out = spec_classify_generic(cur, events@[i as int], streaming, db.devices@);
            if let Some(det) = det {
                let ghost view = out.1->0;
                r.push(det);
                proof {
                    assert(acc + (seq![view] + spec_generic_fold(
                        self.generic_axes.entries@,
                        events@.skip(i as int + 1),
                        streaming,
                        db.devices@,
                    ).1) =~= acc.push(view) + spec_generic_fold(
                        self.generic_axes.entries@,
                        events@.skip(i as int + 1),
                        streaming,
                        db.devices@,
                    ).1);
                    acc = acc.push(view);
                }
            }
            i = i + 1;
        }
        proof {
            assert(events@.skip(n as int) =~= Seq::<GenericEvent>::empty());
            assert(acc + Seq::<DetectionView>::empty() =~= acc);
        }
        r
    }
}

} // verus!

verus! {

impl CaptureSession {
    /// One loop tick: drains the generic backend's events in arrival order,
    /// then — when the protocol polls it — the legacy slots in ascending
    /// order.  Returns every detection of the tick, in that order.
    pub fn process_tick(&mut self, t: &TickInput, streaming: bool, include_legacy: bool,
        db: &DeviceDatabase) -> (r: Vec<DetectedInput>)
        requires
            include_legacy ==> t.legacy_slots@.len() <= 4,
            old(self).legacy_prev_buttons@.len() == 4,
        ensures
            ({
                let out = spec_tick(
                    old(self).generic_axes.entries@,
                    old(self).legacy_axes.entries@,
                    old(self).legacy_prev_buttons@,
                    *t,
                    streaming,
                    include_legacy,
                    db.devices@,
                );
                &&& final(self).generic_axes.entries@ == out.0
                &&& final(self).legacy_axes.entries@ == out.1
                &&& final(self).legacy_prev_buttons@ == out.2
                &&& r@.len() == out.3.len()
                &&& forall|i: int| 0 <= i < r@.len() ==> spec_matches_view(
                    #[trigger] r@[i],
                    out.3[i],
                    old(self).session_id@,
                    t.modifiers@,
                )
            }),
            final(self).legacy_prev_buttons@.len() == 4,
            final(self).session_id == old(self).session_id,
            final(self).start_ms == old(self).start_ms,
            final(self).initial_timeout_ms == old(self).initial_timeout_ms,
            final(self).collect_duration_ms == old(self).collect_duration_ms,
            final(self).first_hit_ms == old(self).first_hit_ms,
    {
        let mut r = self.process_generic_events(&t.generic_events, streaming, db, &t.modifiers);
        if !include_legacy {
            return r;
        }
        let ghost l0 = self.legacy_axes.entries@;
        let ghost p0 = self.legacy_prev_buttons@;
        let ghost lfull = spec_legacy_slots(l0, p0, t.legacy_slots@, 0);
        let ghost gviews = r@.len() as int;
        let ghost gfold = spec_generic_fold(
            old(self).generic_axes.entries@,
            t.generic_events@,
            streaming,
            db.devices@,
        );
        let ghost mut acc: Seq<DetectionView> = Seq::empty();
        let n = t.legacy_slots.len();
        let mut slot: usize = 0;
        proof {
            assert(Seq::<DetectionView>::empty() + lfull.2 =~= lfull.2);
        }
        while slot < n
            invariant
                n == t.legacy_slots@.len(),
                n <= 4,
                slot <= n,
                self.legacy_prev_buttons@.len() == 4,
                lfull == spec_legacy_slots(l0, p0, t.legacy_slots@, 0),
                self.session_id == old(self).session_id,
                self.start_ms == old(self).start_ms,
                self.initial_timeout_ms == old(self).initial_timeout_ms,
                self.collect_duration_ms == old(self).collect_duration_ms,
                self.first_hit_ms == old(self).first_hit_ms,
                self.generic_axes.entries@ == gfold.0,
                gfold == spec_generic_fold(
                    old(self).generic_axes.entries@,
                    t.generic_events@,
                    streaming,
                    db.devices@,
                ),
                r@.len() == gviews + acc.len(),
                gviews >= 0,
                lfull.0 == spec_legacy_slots(
                    self.legacy_axes.entries@,
                    self.legacy_prev_buttons@,
                    t.legacy_slots@,
                    slot as nat,
                ).0,
                lfull.1 == spec_legacy_slots(
                    self.legacy_axes.entries@,
                    self.legacy_prev_buttons@,
                    t.legacy_slots@,
                    slot as nat,
                ).1,
                lfull.2 == acc + spec_legacy_slots(
                    self.legacy_axes.entries@,
                    self.legacy_prev_buttons@,
                    t.legacy_slots@,
                    slot as nat,
                ).2,
                forall|k: int| 0 <= k < acc.len() ==> spec_matches_view(
                    #[trigger] r@[gviews + k],
                    acc[k],
                    old(self).session_id@,
                    t.modifiers@,
                ),
                gviews == gfold.1.len(),
                forall|k: int| 0 <= k < gviews ==> spec_matches_view(
                    #[trigger] r@[k],
                    gfold.1[k],
                    old(self).session_id@,
                    t.modifiers@,
                ),
            decreases n - slot,
        {
            let ghost cur_l = self.legacy_axes.entries@;
            let ghost cur_p = self.legacy_prev_buttons@;
            match &t.legacy_slots[slot] {
                None => {},
                Some(st) => {
                    let ghost sout = spec_legacy_slot(cur_l, cur_p[slot as int], slot as u32,
                        *st);
                    let mut dets = self.process_legacy_slot(slot, st, &t.modifiers);
                    r.append(&mut dets);
                    proof {
                        assert(acc + (sout.2 + spec_legacy_slots(
                            self.legacy_axes.entries@,
                            self.legacy_prev_buttons@,
                            t.legacy_slots@,
                            slot as nat + 1,
                        ).2) =~= (acc + sout.2) + spec_legacy_slots(
                            self.legacy_axes.entries@,
                            self.legacy_prev_buttons@,
                            t.legacy_slots@,
                            slot as nat + 1,
                        ).2);
                        acc = acc + sout.2;
                    }
                },
            }
            slot = slot + 1;
        }
        proof {
            assert(acc + Seq::<DetectionView>::empty() =~= acc);
            assert(lfull.2 == acc);
            let out3 = gfold.1 + lfull.2;
            assert(out3.len() == gviews + acc.len());
            assert forall|i: int| 0 <= i < r@.len() implies spec_matches_view(
                r@[i],
                out3[i],
                old(self).session_id@,
                t.modifiers@,
            ) by {
                if i < gviews {
                    assert(out3[i] == gfold.1[i]);
                } else {
                    assert(out3[i] == lfull.2[i - gviews]);
                    assert(spec_matches_view(
                        r@[gviews + (i - gviews)],
                        acc[i - gviews],
                        old(self).session_id@,
                        t.modifiers@,
                    ));
                }
            }
        }
        r
    }
}

} // verus!

verus! {

// ---------------------------------------------------------------------------
// The three delivery protocols
// ---------------------------------------------------------------------------

/// As `spec_matches_view`, without pinning the modifier set (which is
/// sampled per tick).
pub open spec fn spec_matches_core(det: DetectedInput, view: DetectionView, session_id: Seq<char>)
    -> bool {
    &&& det.input_string@ == view.input_string
    &&& det.display_name@ == view.display_name
    &&& det.device_type@ == spec_class_name(view.gamepad)
    &&& det.axis_value == view.axis_value
    &&& det.device_uuid matches Some(u) && u@ == view.uuid
    &&& det.session_id@ == session_id
    &&& det.is_modifier == false
}

/// The detections a wait-for-one run sees: ticks run in order until the
/// initial timeout passes; the first tick that detects anything ends the
/// run with that tick's detections (the caller takes the first).
pub open spec fn spec_wait_views(
    generic: Seq<(AxisKey, crate::axis::AxisState)>,
    legacy: Seq<(AxisKey, crate::axis::AxisState)>,
    prev: Seq<Option<u16>>,
    ticks: Seq<TickInput>,
    start_ms: u64,
    timeout_ms: u64,
    devices: Seq<(u32, u32, DeviceEntry)>,
) -> Seq<DetectionView>
    decreases ticks.len(),
{
    if ticks.len() == 0 {
        Seq::empty()
    } else if ticks[0].now_ms - start_ms >= timeout_ms {
        Seq::empty()
    } else {
        let out = spec_tick(generic, legacy, prev, ticks[0], false, true, devices);
        if out.3.len() > 0 {
            out.3
        } else {
            spec_wait_views(out.0, out.1, out.2, ticks.drop_first(), start_ms, timeout_ms, devices)
        }
    }
}

/// Wait-for-one: runs the session over the polled ticks and returns the
/// first detected input, or `None` when the timeout passes (or the tick
/// stream ends) with nothing detected.  A timeout is a normal outcome, not
/// an error.
pub fn wait_for_single_input(
    session_id: String,
    timeout_ms: u64,
    start_ms: u64,
    ticks: &Vec<TickInput>,
    db: &DeviceDatabase,
) -> (r: Option<DetectedInput>)
    requires
        forall|i: int| 0 <= i < ticks@.len() ==> (#[trigger] ticks@[i]).now_ms >= start_ms,
        forall|i: int| 0 <= i < ticks@.len() ==> (#[trigger] ticks@[i]).legacy_slots@.len() <= 4,
    ensures
        ({
            let views = spec_wait_views(
                Seq::empty(),
                Seq::empty(),
                seq![None, None, None, None],
                ticks@,
                start_ms,
                timeout_ms,
                db.devices@,
            );
            match r {
                Some(det) => views.len() > 0 && spec_matches_core(det, views[0], session_id@),
                None => views.len() == 0,
            }
        }),
{
    let mut session = CaptureSession::new(session_id, start_ms, timeout_ms, 0);
    let ghost sid = session.session_id@;
    let n = ticks.len();
    let mut i: usize = 0;
    proof {
        assert(session.legacy_prev_buttons@ =~= seq![
            None, None, None, None
        ]);
        assert(session.generic_axes.entries@ =~= Seq::<(AxisKey, crate::axis::AxisState)>::empty());
        assert(session.legacy_axes.entries@ =~= Seq::<(AxisKey, crate::axis::AxisState)>::empty());
        assert(ticks@.skip(0) =~= ticks@);
    }
    let ghost full = spec_wait_views(
        Seq::empty(),
        Seq::empty(),
        seq![None, None, None, None],
        ticks@,
        start_ms,
        timeout_ms,
        db.devices@,
    );
    while i < n
        invariant
            n == ticks@.len(),
            i <= n,
            forall|k: int| 0 <= k < ticks@.len() ==> (#[trigger] ticks@[k]).now_ms >= start_ms,
            forall|k: int| 0 <= k < ticks@.len() ==> (#[trigger] ticks@[k]).legacy_slots@.len()
                <= 4,
            session.session_id@ == sid,
            session.start_ms == start_ms,
            session.initial_timeout_ms == timeout_ms,
            session.first_hit_ms is None,
            session.legacy_prev_buttons@.len() == 4,
            sid == session_id@,
            full == spec_wait_views(
                Seq::empty(),
                Seq::empty(),
                seq![None, None, None, None],
                ticks@,
                start_ms,
                timeout_ms,
                db.devices@,
            ),
            full == spec_wait_views(
                session.generic_axes.entries@,
                session.legacy_axes.entries@,
                session.legacy_prev_buttons@,
                ticks@.skip(i as int),
                start_ms,
                timeout_ms,
                db.devices@,
            ),
        decreases n - i,
    {
        proof {
            assert(ticks@.skip(i as int)[0] == ticks@[i as int]);
            assert(ticks@.skip(i as int).drop_first() =~= ticks@.skip(i as int + 1));
        }
        let t = &ticks[i];
        if session.deadline_reached(t.now_ms) {
            proof {
                assert(ticks@[i as int].now_ms - start_ms >= timeout_ms);
                assert(spec_wait_views(
                    session.generic_axes.entries@,
                    session.legacy_axes.entries@,
                    session.legacy_prev_buttons@,
                    ticks@.skip(i as int),
                    start_ms,
                    timeout_ms,
                    db.devices@,
                ).len() == 0);
                assert(full.len() == 0);
            }
            return None;
        }
        let ghost pre_g = session.generic_axes.entries@;
        let ghost pre_l = session.legacy_axes.entries@;
        let ghost pre_p = session.legacy_prev_buttons@;
        let dets = session.process_tick(t, false, true, db);
        if dets.len() > 0 {
            proof {
                let out = spec_tick(pre_g, pre_l, pre_p, ticks@[i as int], false, true,
                    db.devices@);
                assert(full == out.3);
                assert(spec_matches_view(dets@[0], out.3[0], sid, ticks@[i as int].modifiers@));
                assert(spec_matches_core(dets@[0], full[0], sid));
            }
            let mut dets = dets;
            let det = dets.remove(0);
            return Some(det);
        }
        i = i + 1;
    }
    proof {
        assert(ticks@.skip(n as int) =~= Seq::<TickInput>::empty());
    }
    None
}

} // verus!

verus! {

/// Field-by-field copy of a detected input.
pub fn clone_detected_input(d: &DetectedInput) -> (r: DetectedInput)
    ensures
        r.input_string@ == d.input_string@,
        r.display_name@ == d.display_name@,
        r.device_type@ == d.device_type@,
        r.axis_value == d.axis_value,
        r.modifiers@ == d.modifiers@,
        r.is_modifier == d.is_modifier,
        r.session_id@ == d.session_id@,
        r.device_uuid == d.device_uuid,
        r.raw_axis_code == d.raw_axis_code,
        r.raw_button_code == d.raw_button_code,
        r.raw_code_index == d.raw_code_index,
        r.device_name == d.device_name,
        r.device_gilrs_id == d.device_gilrs_id,
        r.device_power_info == d.device_power_info,
        r.device_is_ff_supported == d.device_is_ff_supported,
        (r.all_device_axes matches Some(v) <==> d.all_device_axes matches Some(w)),
        (r.all_device_buttons matches Some(v) <==> d.all_device_buttons matches Some(w)),
{
    DetectedInput {
        input_string: d.input_string.clone(),
        display_name: d.display_name.clone(),
        device_type: d.device_type.clone(),
        axis_value: d.axis_value,
        modifiers: clone_strings(&d.modifiers),
        is_modifier: d.is_modifier,
        session_id: d.session_id.clone(),
        device_uuid: clone_opt_string(&d.device_uuid),
        raw_axis_code: clone_opt_string(&d.raw_axis_code),
        raw_button_code: clone_opt_string(&d.raw_button_code),
        raw_code_index: d.raw_code_index,
        device_name: clone_opt_string(&d.device_name),
        device_gilrs_id: d.device_gilrs_id,
        device_power_info: clone_opt_string(&d.device_power_info),
        device_is_ff_supported: d.device_is_ff_supported,
        all_device_axes: match &d.all_device_axes {
            Some(v) => Some(clone_strings(v)),
            None => None,
        },
        all_device_buttons: match &d.all_device_buttons {
            Some(v) => Some(clone_strings(v)),
            None => None,
        },
    }
}

/// Whether some already-collected detection has this canonical string.
pub open spec fn spec_has_input_string(acc: Seq<DetectionView>, s: Seq<char>) -> bool {
    exists|i: int| 0 <= i < acc.len() && (#[trigger] acc[i]).input_string == s
}

/// Appends `new` to `acc` keeping only first occurrences of each canonical
/// string (first-seen order wins).
pub open spec fn spec_dedup_append(acc: Seq<DetectionView>, new: Seq<DetectionView>)
    -> Seq<DetectionView>
    decreases new.len(),
{
    if new.len() == 0 {
        acc
    } else {
        let acc2 = if spec_has_input_string(acc, new[0].input_string) {
            acc
        } else {
            acc.push(new[0])
        };
        spec_dedup_append(acc2, new.drop_first())
    }
}

/// Canonical strings stay pairwise distinct through deduplicated appending.
pub open spec fn spec_distinct_strings(acc: Seq<DetectionView>) -> bool {
    forall|i: int, j: int| 0 <= i < j < acc.len() ==> (#[trigger] acc[i]).input_string != (
    #[trigger] acc[j]).input_string
}

/// The collect protocol never holds two detections with the same canonical
/// string: deduplicated appending preserves distinctness.
pub proof fn lemma_dedup_append_distinct(acc: Seq<DetectionView>, new: Seq<DetectionView>)
    requires
        spec_distinct_strings(acc),
    ensures
        spec_distinct_strings(spec_dedup_append(acc, new)),
        spec_dedup_append(acc, new).len() >= acc.len(),
    decreases new.len(),
{
    if new.len() > 0 {
        let acc2 = if spec_has_input_string(acc, new[0].input_string) {
            acc
        } else {
            acc.push(new[0])
        };
        assert(spec_distinct_strings(acc2));
        lemma_dedup_append_distinct(acc2, new.drop_first());
    }
}

/// The detections a collect-burst run accumulates: ticks run in order; the
/// wait deadline bounds the time to the first accepted input and the
/// collection window bounds the rest, measured from the first acceptance;
/// within the run each canonical string is kept once, first occurrence
/// first.  Only the generic backend feeds this protocol.
pub open spec fn spec_collect_run(
    generic: Seq<(AxisKey, crate::axis::AxisState)>,
    ticks: Seq<TickInput>,
    start_ms: u64,
    initial_timeout_ms: u64,
    collect_duration_ms: u64,
    first_hit_ms: Option<u64>,
    acc: Seq<DetectionView>,
    devices: Seq<(u32, u32, DeviceEntry)>,
) -> Seq<DetectionView>
    decreases ticks.len(),
{
    if ticks.len() == 0 {
        acc
    } else if spec_deadline(first_hit_ms, start_ms, initial_timeout_ms, collect_duration_ms,
        ticks[0].now_ms,
    ) {
        acc
    } else {
        let g = spec_generic_fold(generic, ticks[0].generic_events@, false, devices);
        let acc2 = spec_dedup_append(acc, g.1);
        let fh2 = match first_hit_ms {
            Some(f) => Some(f),
            None => if acc2.len() > 0 {
                Some(ticks[0].now_ms)
            } else {
                None
            },
        };
        spec_collect_run(
            g.0,
            ticks.drop_first(),
            start_ms,
            initial_timeout_ms,
            collect_duration_ms,
            fh2,
            acc2,
            devices,
        )
    }
}

/// Collect-burst: accumulates unique canonical inputs across the initial
/// wait and the collection window that follows the first accepted input,
/// and returns them in first-seen order.  An empty list is the normal
/// timed-out outcome, not an error.  The result never holds two entries
/// with the same canonical string.
pub fn collect_input_burst(
    session_id: String,
    initial_timeout_ms: u64,
    collect_duration_ms: u64,
    start_ms: u64,
    ticks: &Vec<TickInput>,
    db: &DeviceDatabase,
) -> (r: Vec<DetectedInput>)
    requires
        forall|i: int| 0 <= i < ticks@.len() ==> (#[trigger] ticks@[i]).now_ms >= start_ms,
        forall|i: int, j: int| 0 <= i <= j < ticks@.len() ==> (#[trigger] ticks@[i]).now_ms <= (
        #[trigger] ticks@[j]).now_ms,
    ensures
        ({
            let views = spec_collect_run(
                Seq::empty(),
                ticks@,
                start_ms,
                initial_timeout_ms,
                collect_duration_ms,
                None,
                Seq::empty(),
                db.devices@,
            );
            &&& r@.len() == views.len()
            &&& forall|i: int| 0 <= i < r@.len() ==> spec_matches_core(
                #[trigger] r@[i],
                views[i],
                session_id@,
            )
        }),
        forall|i: int, j: int| 0 <= i < j < r@.len() ==> (#[trigger] r@[i]).input_string@ != (
        #[trigger] r@[j]).input_string@,
{
    let mut session = CaptureSession::new(session_id, start_ms, initial_timeout_ms,
        collect_duration_ms);
    let ghost sid = session.session_id@;
    let mut collected: Vec<DetectedInput> = Vec::new();
    let ghost mut acc: Seq<DetectionView> = Seq::empty();
    let n = ticks.len();
    let mut i: usize = 0;
    proof {
        assert(session.generic_axes.entries@ =~= Seq::<(AxisKey, crate::axis::AxisState)>::empty());
        assert(ticks@.skip(0) =~= ticks@);
    }
    let ghost full = spec_collect_run(
        Seq::empty(),
        ticks@,
        start_ms,
        initial_timeout_ms,
        collect_duration_ms,
        None,
        Seq::empty(),
        db.devices@,
    );
    while i < n
        invariant
            n == ticks@.len(),
            i <= n,
            forall|k: int| 0 <= k < ticks@.len() ==> (#[trigger] ticks@[k]).now_ms >= start_ms,
            forall|k: int, j: int| 0 <= k <= j < ticks@.len() ==> (#[trigger] ticks@[k]).now_ms
                <= (#[trigger] ticks@[j]).now_ms,
            session.session_id@ == sid,
            sid == session_id@,
            session.start_ms == start_ms,
            session.initial_timeout_ms == initial_timeout_ms,
            session.collect_duration_ms == collect_duration_ms,
            session.legacy_prev_buttons@.len() == 4,
            session.first_hit_ms matches Some(f) ==> (exists|k: int| 0 <= k < i && f == (
            #[trigger] ticks@[k]).now_ms),
            session.first_hit_ms is None ==> acc.len() == 0,
            session.first_hit_ms is Some <==> acc.len() > 0,
            collected@.len() == acc.len(),
            spec_distinct_strings(acc),
            forall|k: int| 0 <= k < acc.len() ==> spec_matches_core(
                #[trigger] collected@[k],
                acc[k],
                sid,
            ),
            full == spec_collect_run(
                Seq::empty(),
                ticks@,
                start_ms,
                initial_timeout_ms,
                collect_duration_ms,
                None,
                Seq::empty(),
                db.devices@,
            ),
            full == spec_collect_run(
                session.generic_axes.entries@,
                ticks@.skip(i as int),
                start_ms,
                initial_timeout_ms,
                collect_duration_ms,
                session.first_hit_ms,
                acc,
                db.devices@,
            ),
        decreases n - i,
    {
        proof {
            assert(ticks@.skip(i as int)[0] == ticks@[i as int]);
            assert(ticks@.skip(i as int).drop_first() =~= ticks@.skip(i as int + 1));
        }
        let t = &ticks[i];
        if let Some(f) = session.first_hit_ms {
            proof {
                let k = choose|k: int| 0 <= k < i && f == ticks@[k].now_ms;
                assert(ticks@[k].now_ms <= ticks@[i as int].now_ms);
            }
        }
        if session.deadline_reached(t.now_ms) {
            proof {
                assert(full == acc);
            }
            return collected;
        }
        let ghost pre_g = session.generic_axes.entries@;
        let ghost pre_fh = session.first_hit_ms;
        let dets = session.process_tick(t, false, false, db);
        let ghost views = spec_generic_fold(
            pre_g,
            ticks@[i as int].generic_events@,
            false,
            db.devices@,
        ).1;
        let ghost acc_start = acc;
        let ghost post_g = session.generic_axes.entries@;
        let m = dets.len();
        let mut j: usize = 0;
        proof {
            assert(views.skip(0) =~= views);
        }
        while j < m
            invariant
                m == views.len(),
                j <= m,
                dets@.len() == m,
                i < ticks@.len(),
                t.now_ms == ticks@[i as int].now_ms,
                sid == session_id@,
                session.session_id@ == sid,
                session.start_ms == start_ms,
                session.initial_timeout_ms == initial_timeout_ms,
                session.collect_duration_ms == collect_duration_ms,
                session.legacy_prev_buttons@.len() == 4,
                session.generic_axes.entries@ == post_g,
                forall|k: int| 0 <= k < m ==> spec_matches_view(
                    #[trigger] dets@[k],
                    views[k],
                    sid,
                    ticks@[i as int].modifiers@,
                ),
                collected@.len() == acc.len(),
                spec_distinct_strings(acc),
                forall|k: int| 0 <= k < acc.len() ==> spec_matches_core(
                    #[trigger] collected@[k],
                    acc[k],
                    sid,
                ),
                spec_dedup_append(acc_start, views) == spec_dedup_append(
                    acc,
                    views.skip(j as int),
                ),
                acc.len() >= acc_start.len(),
                pre_fh is Some ==> session.first_hit_ms == pre_fh,
                pre_fh is None && acc.len() == acc_start.len() ==> session.first_hit_ms
                    == pre_fh,
                pre_fh is None && acc.len() > acc_start.len() ==> session.first_hit_ms == Some(
                    ticks@[i as int].now_ms,
                ),
                pre_fh is Some ==> acc_start.len() > 0,
                pre_fh is None ==> acc_start.len() == 0,
            decreases m - j,
        {
            proof {
                assert(views.skip(j as int)[0] == views[j as int]);
                assert(views.skip(j as int).drop_first() =~= views.skip(j as int + 1));
            }
            let mut found = false;
            let c = collected.len();
            let mut k: usize = 0;
            while k < c
                invariant
                    c == collected@.len(),
                    k <= c,
                    j < m,
                    m == views.len(),
                    dets@.len() == m,
                    collected@.len() == acc.len(),
                    forall|q: int| 0 <= q < acc.len() ==> spec_matches_core(
                        #[trigger] collected@[q],
                        acc[q],
                        sid,
                    ),
                    dets@[j as int].input_string@ == views[j as int].input_string,
                    found <==> (exists|q: int| 0 <= q < k && (#[trigger] acc[q]).input_string
                        == views[j as int].input_string),
                decreases c - k,
            {
                if crate::text::str_eq(collected[k].input_string.as_str(),
                    dets[j].input_string.as_str()) {
                    found = true;
                }
                k = k + 1;
            }
            proof {
                assert(found <==> spec_has_input_string(acc, views[j as int].input_string));
            }
            if !found {
                let det_owned = clone_detected_input(&dets[j]);
                proof {
                    acc = acc.push(views[j as int]);
                }
                collected.push(det_owned);
                if session.first_hit_ms.is_none() {
                    session.first_hit_ms = Some(t.now_ms);
                }
            }
            j = j + 1;
        }
        proof {
            assert(views.skip(m as int) =~= Seq::<DetectionView>::empty());
            assert(spec_dedup_append(acc, views.skip(m as int)) == acc);
            lemma_dedup_append_distinct(acc_start, views);
        }
        i = i + 1;
    }
    proof {
        assert(ticks@.skip(n as int) =~= Seq::<TickInput>::empty());
        assert(full == acc);
    }
    collected
}

} // verus!

verus! {

/// The detections a stream run emits: every detection of every tick until
/// the deadline, duplicates allowed (repeated presses stay visible to the
/// caller); the first emission starts the collection window.
pub open spec fn spec_stream_run(
    generic: Seq<(AxisKey, crate::axis::AxisState)>,
    legacy: Seq<(AxisKey, crate::axis::AxisState)>,
    prev: Seq<Option<u16>>,
    ticks: Seq<TickInput>,
    start_ms: u64,
    initial_timeout_ms: u64,
    collect_duration_ms: u64,
    first_hit_ms: Option<u64>,
    acc: Seq<DetectionView>,
    devices: Seq<(u32, u32, DeviceEntry)>,
) -> Seq<DetectionView>
    decreases ticks.len(),
{
    if ticks.len() == 0 {
        acc
    } else if spec_deadline(first_hit_ms, start_ms, initial_timeout_ms, collect_duration_ms,
        ticks[0].now_ms,
    ) {
        acc
    } else {
        let out = spec_tick(generic, legacy, prev, ticks[0], true, true, devices);
        let acc2 = acc + out.3;
        let fh2 = match first_hit_ms {
            Some(f) => Some(f),
            None => if out.3.len() > 0 {
                Some(ticks[0].now_ms)
            } else {
                None
            },
        };
        spec_stream_run(
            out.0,
            out.1,
            out.2,
            ticks.drop_first(),
            start_ms,
            initial_timeout_ms,
            collect_duration_ms,
            fh2,
            acc2,
            devices,
        )
    }
}

/// Stream: emits every detection as it occurs (duplicates allowed, so
/// repeated presses and double-taps stay visible) and ends with one
/// terminal completion notice carrying the session identifier.  Returns the
/// emitted inputs in order, and the completion notice.
pub fn stream_inputs(
    session_id: String,
    initial_timeout_ms: u64,
    collect_duration_ms: u64,
    start_ms: u64,
    ticks: &Vec<TickInput>,
    db: &DeviceDatabase,
) -> (r: (Vec<DetectedInput>, DetectionComplete))
    requires
        forall|i: int| 0 <= i < ticks@.len() ==> (#[trigger] ticks@[i]).now_ms >= start_ms,
        forall|i: int, j: int| 0 <= i <= j < ticks@.len() ==> (#[trigger] ticks@[i]).now_ms <= (
        #[trigger] ticks@[j]).now_ms,
        forall|i: int| 0 <= i < ticks@.len() ==> (#[trigger] ticks@[i]).legacy_slots@.len() <= 4,
    ensures
        ({
            let views = spec_stream_run(
                Seq::empty(),
                Seq::empty(),
                seq![None, None, None, None],
                ticks@,
                start_ms,
                initial_timeout_ms,
                collect_duration_ms,
                None,
                Seq::empty(),
                db.devices@,
            );
            &&& r.0@.len() == views.len()
            &&& forall|i: int| 0 <= i < r.0@.len() ==> spec_matches_core(
                #[trigger] r.0@[i],
                views[i],
                session_id@,
            )
        }),
        r.1.session_id@ == session_id@,
{
    let mut session = CaptureSession::new(session_id, start_ms, initial_timeout_ms,
        collect_duration_ms);
    let ghost sid = session.session_id@;
    let mut emitted: Vec<DetectedInput> = Vec::new();
    let ghost mut acc: Seq<DetectionView> = Seq::empty();
    let n = ticks.len();
    let mut i: usize = 0;
    proof {
        assert(session.generic_axes.entries@ =~= Seq::<(AxisKey, crate::axis::AxisState)>::empty());
        assert(session.legacy_axes.entries@ =~= Seq::<(AxisKey, crate::axis::AxisState)>::empty());
        assert(session.legacy_prev_buttons@ =~= seq![None, None, None, None]);
        assert(ticks@.skip(0) =~= ticks@);
    }
    let ghost full = spec_stream_run(
        Seq::empty(),
        Seq::empty(),
        seq![None, None, None, None],
        ticks@,
        start_ms,
        initial_timeout_ms,
        collect_duration_ms,
        None,
        Seq::empty(),
        db.devices@,
    );
    while i < n
        invariant
            n == ticks@.len(),
            i <= n,
            forall|k: int| 0 <= k < ticks@.len() ==> (#[trigger] ticks@[k]).now_ms >= start_ms,
            forall|k: int, j: int| 0 <= k <= j < ticks@.len() ==> (#[trigger] ticks@[k]).now_ms
                <= (#[trigger] ticks@[j]).now_ms,
            forall|k: int| 0 <= k < ticks@.len() ==> (#[trigger] ticks@[k]).legacy_slots@.len()
                <= 4,
            session.session_id@ == sid,
            sid == session_id@,
            session.start_ms == start_ms,
            session.initial_timeout_ms == initial_timeout_ms,
            session.collect_duration_ms == collect_duration_ms,
            session.legacy_prev_buttons@.len() == 4,
            session.first_hit_ms matches Some(f) ==> (exists|k: int| 0 <= k < i && f == (
            #[trigger] ticks@[k]).now_ms),
            session.first_hit_ms is None ==> acc.len() == 0,
            session.first_hit_ms is Some <==> acc.len() > 0,
            emitted@.len() == acc.len(),
            forall|k: int| 0 <= k < acc.len() ==> spec_matches_core(
                #[trigger] emitted@[k],
                acc[k],
                sid,
            ),
            full == spec_stream_run(
                Seq::empty(),
                Seq::empty(),
                seq![None, None, None, None],
                ticks@,
                start_ms,
                initial_timeout_ms,
                collect_duration_ms,
                None,
                Seq::empty(),
                db.devices@,
            ),
            full == spec_stream_run(
                session.generic_axes.entries@,
                session.legacy_axes.entries@,
                session.legacy_prev_buttons@,
                ticks@.skip(i as int),
                start_ms,
                initial_timeout_ms,
                collect_duration_ms,
                session.first_hit_ms,
                acc,
                db.devices@,
            ),
        decreases n - i,
    {
        proof {
            assert(ticks@.skip(i as int)[0] == ticks@[i as int]);
            assert(ticks@.skip(i as int).drop_first() =~= ticks@.skip(i as int + 1));
        }
        let t = &ticks[i];
        if let Some(f) = session.first_hit_ms {
            proof {
                let k = choose|k: int| 0 <= k < i && f == ticks@[k].now_ms;
                assert(ticks@[k].now_ms <= ticks@[i as int].now_ms);
            }
        }
        if session.deadline_reached(t.now_ms) {
            proof {
                assert(full == acc);
            }
            let completion = DetectionComplete { session_id: session.session_id };
            return (emitted, completion);
        }
        let ghost pre_g = session.generic_axes.entries@;
        let ghost pre_l = session.legacy_axes.entries@;
        let ghost pre_p = session.legacy_prev_buttons@;
        let mut dets = session.process_tick(t, true, true, db);
        let ghost views = spec_tick(pre_g, pre_l, pre_p, ticks@[i as int], true, true,
            db.devices@).3;
        let had = dets.len() > 0;
        emitted.append(&mut dets);
        proof {
            acc = acc + views;
        }
        if had && session.first_hit_ms.is_none() {
            session.first_hit_ms = Some(t.now_ms);
        }
        i = i + 1;
    }
    proof {
        assert(ticks@.skip(n as int) =~= Seq::<TickInput>::empty());
        assert(full == acc);
    }
    let completion = DetectionComplete { session_id: session.session_id };
    (emitted, completion)
}

} // verus!

verus! {

// ---------------------------------------------------------------------------
// Device enumeration summaries and the shared axis watcher
// ---------------------------------------------------------------------------

/// Enumeration row for one generic-backend device: estimated control counts
/// come from the device class (gamepads: 15 buttons, 6 axes, 1 hat;
/// joysticks: 32 buttons, 6 axes, 1 hat).
pub fn joystick_info_of(d: &DeviceDesc, is_connected: bool, db: &DeviceDatabase) -> (r:
    JoystickInfo)
    ensures
        r.id == d.id,
        r.name@ == spec_friendly_of(*d, db.devices@),
        r.is_connected == is_connected,
        spec_gamepad_of(*d, db.devices@) ==> r.button_count == 15 && r.axis_count == 6
            && r.hat_count == 1,
        !spec_gamepad_of(*d, db.devices@) ==> r.button_count == 32 && r.axis_count == 6
            && r.hat_count == 1,
        r.device_type@ == spec_class_name(spec_gamepad_of(*d, db.devices@)),
{
    let name = friendly_device_name(
        d.map_name.as_ref(),
        d.vendor_id,
        d.product_id,
        d.os_name.as_str(),
        db,
    );
    let gp = is_gamepad(name.as_str());
    let (button_count, axis_count, hat_count) = if gp {
        (15u32, 6u32, 1u32)
    } else {
        (32u32, 6u32, 1u32)
    };
    JoystickInfo {
        id: d.id,
        name,
        is_connected,
        button_count,
        axis_count,
        hat_count,
        device_type: class_name(gp),
    }
}

/// Detailed row for one generic-backend device, with its stable identity;
/// joysticks are estimated at 7 axes here.
pub fn device_info_of(d: &DeviceDesc, is_connected: bool, db: &DeviceDatabase) -> (r: DeviceInfo)
    ensures
        r.uuid@ == spec_uuid_of(*d),
        r.name@ == spec_friendly_of(*d, db.devices@),
        r.is_connected == is_connected,
        r.device_type@ == spec_class_name(spec_gamepad_of(*d, db.devices@)),
        spec_gamepad_of(*d, db.devices@) ==> r.button_count == 15 && r.axis_count == 6
            && r.hat_count == 1,
        !spec_gamepad_of(*d, db.devices@) ==> r.button_count == 32 && r.axis_count == 7
            && r.hat_count == 1,
{
    let name = friendly_device_name(
        d.map_name.as_ref(),
        d.vendor_id,
        d.product_id,
        d.os_name.as_str(),
        db,
    );
    let gp = is_gamepad(name.as_str());
    let uuid = resolve_device_uuid(d.signature.as_slice(), d.os_name.as_str(), d.id as u64);
    let (button_count, axis_count, hat_count) = if gp {
        (15u32, 6u32, 1u32)
    } else {
        (32u32, 7u32, 1u32)
    };
    DeviceInfo {
        uuid,
        name,
        axis_count,
        button_count,
        hat_count,
        device_type: class_name(gp),
        is_connected,
    }
}

/// An off-center axis reading seen by the shared watcher.
pub struct AxisMovement {
    pub axis_id: u64,
    pub value_milli: i32,
}

/// One drained event as the axis watcher sees it: the device's stable
/// identity, the 0-based axis code index when it could be read, and the
/// deflection.
pub struct AxisWatchEvent {
    pub device_uuid: String,
    pub axis_index: Option<u32>,
    pub value_milli: i32,
}

/// The deadzone below which the watcher ignores a reading (0.15).
pub const WATCH_DEADZONE_MILLI: i32 = 150;

/// The most recent qualifying movement among `events` from index `i` on:
/// on the watched device, outside the deadzone, with a readable index
/// (reported 1-based).
pub open spec fn spec_latest_movement(
    events: Seq<AxisWatchEvent>,
    target: Seq<char>,
    i: int,
) -> Option<(u64, i32)>
    decreases events.len() - i,
{
    if i < 0 || i >= events.len() {
        None
    } else {
        let rest = spec_latest_movement(events, target, i + 1);
        if rest is Some {
            rest
        } else {
            let ev = events[i];
            if ev.device_uuid@ == target && crate::axis::spec_abs_diff(ev.value_milli as int, 0)
                > WATCH_DEADZONE_MILLI as int && ev.axis_index is Some {
                Some((((ev.axis_index->0 + 1) as u64), ev.value_milli))
            } else {
                None
            }
        }
    }
}

/// Scans one drain of the shared watcher's queue for the most recent
/// off-center reading of the watched device.
pub fn latest_axis_movement(events: &Vec<AxisWatchEvent>, target_uuid: &str) -> (r: Option<
    AxisMovement,
>)
    ensures
        match r {
            Some(m) => spec_latest_movement(events@, target_uuid@, 0) == Some(
                (m.axis_id, m.value_milli),
            ),
            None => spec_latest_movement(events@, target_uuid@, 0) is None,
        },
{
    let n = events.len();
    let mut latest: Option<AxisMovement> = None;
    let mut i: usize = 0;
    while i < n
        invariant
            n == events@.len(),
            i <= n,
            match latest {
                Some(m) => spec_latest_movement(events@, target_uuid@, 0) == if
                    spec_latest_movement(events@, target_uuid@, i as int) is Some {
                    spec_latest_movement(events@, target_uuid@, i as int)
                } else {
                    Some((m.axis_id, m.value_milli))
                },
                None => spec_latest_movement(events@, target_uuid@, 0) == spec_latest_movement(
                    events@,
                    target_uuid@,
                    i as int,
                ),
            },
        decreases n - i,
    {
        let ev = &events[i];
        if crate::text::str_eq(ev.device_uuid.as_str(), target_uuid) {
            let v = ev.value_milli;
            let off_center = v > WATCH_DEADZONE_MILLI || v < -WATCH_DEADZONE_MILLI;
            if off_center {
                if let Some(idx) = ev.axis_index {
                    latest = Some(
                        AxisMovement { axis_id: (idx as u64) + 1, value_milli: v },
                    );
                }
            }
        }
        i = i + 1;
    }
    latest
}

} // verus!
