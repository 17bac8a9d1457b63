//! Input classification: device class from the device name, and the
//! canonical input-string grammar `{prefix}{instance}_{kind}{index}_{direction}`
//! together with the human-readable display labels.

use vstd::prelude::*;
use crate::text::{
    contains_str, dec_string, lower_seq, lower_string, spec_contains, spec_dec,
};

verus! {

/// Whether the (lowercased) name carries one of the joystick/HOTAS
/// indicators, which are checked before any gamepad indicator so that a name
/// holding both is classified as a joystick.
pub open spec fn spec_has_joystick_keyword(s: Seq<char>) -> bool {
    ||| spec_contains(s, "joystick"@)
    ||| spec_contains(s, "hotas"@)
    ||| spec_contains(s, "throttle"@)
    ||| spec_contains(s, "gladiator"@)
    ||| spec_contains(s, "warthog"@)
    ||| spec_contains(s, "t16000"@)
    ||| spec_contains(s, "vkb"@)
    ||| spec_contains(s, "vkbsim"@)
    ||| spec_contains(s, "virpil"@)
    ||| spec_contains(s, "thrustmaster"@)
    ||| spec_contains(s, "saitek"@)
    ||| spec_contains(s, "x52"@)
    ||| spec_contains(s, "x56"@)
}

/// Whether the (lowercased) name carries one of the gamepad indicators.
pub open spec fn spec_has_gamepad_keyword(s: Seq<char>) -> bool {
    ||| spec_contains(s, "xbox"@)
    ||| spec_contains(s, "playstation"@)
    ||| spec_contains(s, "dualshock"@)
    ||| spec_contains(s, "dualsense"@)
    ||| spec_contains(s, "ps3"@)
    ||| spec_contains(s, "ps4"@)
    ||| spec_contains(s, "ps5"@)
    ||| spec_contains(s, "controller for windows"@)
    ||| spec_contains(s, "gamepad"@)
    ||| spec_contains(s, "xinput"@)
}

/// A device is a gamepad exactly when its name carries a gamepad indicator
/// and no joystick indicator; generic devices that match neither default to
/// joystick, the tool's primary hardware.
pub open spec fn spec_is_gamepad_name(name: Seq<char>) -> bool {
    &&& !spec_has_joystick_keyword(lower_seq(name))
    &&& spec_has_gamepad_keyword(lower_seq(name))
}

/// Classifies a device name: true for gamepads, false for joysticks.
pub fn is_gamepad(name: &str) -> (r: bool)
    ensures
        r == spec_is_gamepad_name(name@),
{
    let lowered = lower_string(name);
    let low = lowered.as_str();
    if contains_str(low, "joystick") || contains_str(low, "hotas") || contains_str(
        low,
        "throttle",
    ) || contains_str(low, "gladiator") || contains_str(low, "warthog") || contains_str(
        low,
        "t16000",
    ) || contains_str(low, "vkb") || contains_str(low, "vkbsim") || contains_str(low, "virpil")
        || contains_str(low, "thrustmaster") || contains_str(low, "saitek") || contains_str(
        low,
        "x52",
    ) || contains_str(low, "x56") {
        return false;
    }
    if contains_str(low, "xbox") || contains_str(low, "playstation") || contains_str(
        low,
        "dualshock",
    ) || contains_str(low, "dualsense") || contains_str(low, "ps3") || contains_str(low, "ps4")
        || contains_str(low, "ps5") || contains_str(low, "controller for windows") || contains_str(
        low,
        "gamepad",
    ) || contains_str(low, "xinput") {
        return true;
    }
    false
}

/// The canonical device prefix: "gp" for gamepads, "js" for joysticks.
pub open spec fn spec_prefix(gamepad: bool) -> Seq<char> {
    if gamepad {
        "gp"@
    } else {
        "js"@
    }
}

/// The device class display word: "Gamepad" or "Joystick".
pub open spec fn spec_class_name(gamepad: bool) -> Seq<char> {
    if gamepad {
        "Gamepad"@
    } else {
        "Joystick"@
    }
}

/// The device class display word as a string.
pub fn class_name(gamepad: bool) -> (r: String)
    ensures
        r@ == spec_class_name(gamepad),
{
    if gamepad {
        String::from_str("Gamepad")
    } else {
        String::from_str("Joystick")
    }
}

/// A D-pad / hat direction.
#[derive(Clone, Copy, PartialEq, Eq, Structural, Debug)]
pub enum HatDirection {
    Up,
    Down,
    Left,
    Right,
}

/// The lowercase canonical suffix of a hat direction.
pub open spec fn spec_hat_dir(d: HatDirection) -> Seq<char> {
    match d {
        HatDirection::Up => "up"@,
        HatDirection::Down => "down"@,
        HatDirection::Left => "left"@,
        HatDirection::Right => "right"@,
    }
}

/// The uppercase display word of a hat direction.
pub open spec fn spec_hat_dir_display(d: HatDirection) -> Seq<char> {
    match d {
        HatDirection::Up => "UP"@,
        HatDirection::Down => "DOWN"@,
        HatDirection::Left => "LEFT"@,
        HatDirection::Right => "RIGHT"@,
    }
}

/// Canonical string for a button: `{prefix}{instance}_button{index}`.
pub open spec fn spec_canonical_button(gamepad: bool, instance: nat, index: nat) -> Seq<char> {
    spec_prefix(gamepad) + spec_dec(instance) + "_button"@ + spec_dec(index)
}

/// Canonical string for an axis trigger:
/// `{prefix}{instance}_axis{index}_{positive|negative}`.
pub open spec fn spec_canonical_axis(gamepad: bool, instance: nat, index: nat, positive: bool)
    -> Seq<char> {
    spec_prefix(gamepad) + spec_dec(instance) + "_axis"@ + spec_dec(index) + (if positive {
        "_positive"@
    } else {
        "_negative"@
    })
}

/// Canonical string for a hat direction: `{prefix}{instance}_hat1_{dir}`.
pub open spec fn spec_canonical_hat(gamepad: bool, instance: nat, d: HatDirection) -> Seq<char> {
    spec_prefix(gamepad) + spec_dec(instance) + "_hat1_"@ + spec_hat_dir(d)
}

fn prefix_string(gamepad: bool, instance: u64) -> (r: String)
    ensures
        r@ == spec_prefix(gamepad) + spec_dec(instance as nat),
{
    let mut r = if gamepad {
        String::from_str("gp")
    } else {
        String::from_str("js")
    };
    let inst = dec_string(instance);
    r.append(inst.as_str());
    r
}

/// Builds the canonical button string.
pub fn canonical_button(gamepad: bool, instance: u64, index: u64) -> (r: String)
    ensures
        r@ == spec_canonical_button(gamepad, instance as nat, index as nat),
{
    let mut r = prefix_string(gamepad, instance);
    r.append("_button");
    let idx = dec_string(index);
    r.append(idx.as_str());
    r
}

/// Builds the canonical axis-trigger string.
pub fn canonical_axis(gamepad: bool, instance: u64, index: u64, positive: bool) -> (r: String)
    ensures
        r@ == spec_canonical_axis(gamepad, instance as nat, index as nat, positive),
{
    let mut r = prefix_string(gamepad, instance);
    r.append("_axis");
    let idx = dec_string(index);
    r.append(idx.as_str());
    if positive {
        r.append("_positive");
    } else {
        r.append("_negative");
    }
    r
}

/// Builds the canonical hat string.
pub fn canonical_hat(gamepad: bool, instance: u64, d: HatDirection) -> (r: String)
    ensures
        r@ == spec_canonical_hat(gamepad, instance as nat, d),
{
    let mut r = prefix_string(gamepad, instance);
    r.append("_hat1_");
    match d {
        HatDirection::Up => r.append("up"),
        HatDirection::Down => r.append("down"),
        HatDirection::Left => r.append("left"),
        HatDirection::Right => r.append("right"),
    }
    r
}

/// The fixed display name of an axis index: X, Y, RotX, RotY, Z, RotZ for
/// the first six, `Axis{index}` beyond them.
pub open spec fn spec_axis_display(index: nat) -> Seq<char> {
    if index == 1 {
        "X"@
    } else if index == 2 {
        "Y"@
    } else if index == 3 {
        "RotX"@
    } else if index == 4 {
        "RotY"@
    } else if index == 5 {
        "Z"@
    } else if index == 6 {
        "RotZ"@
    } else {
        "Axis"@ + spec_dec(index)
    }
}

/// The display name of an axis index.
pub fn axis_display(index: u64) -> (r: String)
    ensures
        r@ == spec_axis_display(index as nat),
{
    if index == 1 {
        String::from_str("X")
    } else if index == 2 {
        String::from_str("Y")
    } else if index == 3 {
        String::from_str("RotX")
    } else if index == 4 {
        String::from_str("RotY")
    } else if index == 5 {
        String::from_str("Z")
    } else if index == 6 {
        String::from_str("RotZ")
    } else {
        let mut r = String::from_str("Axis");
        let idx = dec_string(index);
        r.append(idx.as_str());
        r
    }
}

/// Display label for a button: `{Class} {instance} - Button {index}`.
pub open spec fn spec_button_display(gamepad: bool, instance: nat, index: nat) -> Seq<char> {
    spec_class_name(gamepad) + " "@ + spec_dec(instance) + " - Button "@ + spec_dec(index)
}

pub fn button_display(gamepad: bool, instance: u64, index: u64) -> (r: String)
    ensures
        r@ == spec_button_display(gamepad, instance as nat, index as nat),
{
    let mut r = class_name(gamepad);
    r.append(" ");
    let inst = dec_string(instance);
    r.append(inst.as_str());
    r.append(" - Button ");
    let idx = dec_string(index);
    r.append(idx.as_str());
    r
}

/// Display label for a hat press: `{Class} {instance} - Hat 1 {DIR}`.
pub open spec fn spec_hat_display(gamepad: bool, instance: nat, d: HatDirection) -> Seq<char> {
    spec_class_name(gamepad) + " "@ + spec_dec(instance) + " - Hat 1 "@ + spec_hat_dir_display(d)
}

pub fn hat_display(gamepad: bool, instance: u64, d: HatDirection) -> (r: String)
    ensures
        r@ == spec_hat_display(gamepad, instance as nat, d),
{
    let mut r = class_name(gamepad);
    r.append(" ");
    let inst = dec_string(instance);
    r.append(inst.as_str());
    r.append(" - Hat 1 ");
    match d {
        HatDirection::Up => r.append("UP"),
        HatDirection::Down => r.append("DOWN"),
        HatDirection::Left => r.append("LEFT"),
        HatDirection::Right => r.append("RIGHT"),
    }
    r
}

/// Display label for an axis trigger:
/// `{Class} {instance} - {AxisName} {+|-} (Axis {index})`.
pub open spec fn spec_axis_trigger_display(
    gamepad: bool,
    instance: nat,
    index: nat,
    positive: bool,
) -> Seq<char> {
    spec_class_name(gamepad) + " "@ + spec_dec(instance) + " - "@ + spec_axis_display(index) + (
    if positive {
        " + (Axis "@
    } else {
        " - (Axis "@
    }) + spec_dec(index) + ")"@
}

pub fn axis_trigger_display(gamepad: bool, instance: u64, index: u64, positive: bool) -> (r:
    String)
    ensures
        r@ == spec_axis_trigger_display(gamepad, instance as nat, index as nat, positive),
{
    let mut r = class_name(gamepad);
    r.append(" ");
    let inst = dec_string(instance);
    r.append(inst.as_str());
    r.append(" - ");
    let axis = axis_display(index);
    r.append(axis.as_str());
    if positive {
        r.append(" + (Axis ");
    } else {
        r.append(" - (Axis ");
    }
    let idx = dec_string(index);
    r.append(idx.as_str());
    r.append(")");
    r
}

} // verus!
