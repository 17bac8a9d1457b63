//! Keybinding profiles: the action-map data model, the canonical-input
//! parsing used to classify bindings, display formatting, XML
//! serialisation, and the default/override merge view.

use vstd::prelude::*;
use crate::xml_events::XmlEvent;
use crate::text::{
    all_spaces, spec_all_spaces, spec_ends_with, spec_split, spec_starts_with, spec_trim,
    split_char, starts_with_str, trim_str, upper_seq, upper_string,
};

verus! {

/// The entire keybinding file: profile name, customised action maps, the
/// category labels, and the device products named in its header.
pub struct ActionMaps {
    pub profile_name: String,
    pub action_maps: Vec<ActionMap>,
    pub categories: Vec<Category>,
    pub devices: DeviceInfo,
}

/// The master list of all available actions with their defaults.
pub struct AllBinds {
    pub action_maps: Vec<AllBindsActionMap>,
}

/// An action map of the master list, with its UI metadata.
pub struct AllBindsActionMap {
    pub name: String,
    pub version: String,
    pub ui_label: String,
    pub ui_category: String,
    pub actions: Vec<AllBindsAction>,
}

/// An action of the master list: UI metadata and the default binding for
/// each input class.
pub struct AllBindsAction {
    pub name: String,
    pub ui_label: String,
    pub ui_description: String,
    pub category: String,
    pub activation_mode: String,
    pub on_hold: bool,
    pub default_keyboard: String,
    pub default_mouse: String,
    pub default_gamepad: String,
    pub default_joystick: String,
}

/// Device products named in the profile header.
pub struct DeviceInfo {
    pub keyboards: Vec<String>,
    pub mice: Vec<String>,
    pub joysticks: Vec<String>,
}

/// One category label.
pub struct Category {
    pub label: String,
}

/// A group of actions.
pub struct ActionMap {
    pub name: String,
    pub actions: Vec<Action>,
}

/// An action with its customised bindings.
pub struct Action {
    pub name: String,
    pub rebinds: Vec<Rebind>,
}

/// One binding of an action: the canonical input string, an optional
/// multi-tap count and an optional activation mode.
pub struct Rebind {
    pub input: String,
    pub multi_tap: Option<u32>,
    pub activation_mode: String,
}

/// The input class a binding belongs to, parsed from its device prefix.
#[derive(Clone, Copy, PartialEq, Eq, Structural, Debug)]
pub enum InputType {
    Keyboard,
    Mouse,
    Joystick,
    Gamepad,
    Unknown,
}

/// The index of the first occurrence of `c` in `s`, or `s.len()` when `c`
/// does not occur.
pub open spec fn spec_find(s: Seq<char>, c: char) -> nat
    decreases s.len(),
{
    if s.len() == 0 {
        0
    } else if s[0] == c {
        0
    } else {
        1 + spec_find(s.drop_first(), c)
    }
}

pub proof fn lemma_find_bounds(s: Seq<char>, c: char)
    ensures
        spec_find(s, c) <= s.len(),
        spec_find(s, c) < s.len() ==> s[spec_find(s, c) as int] == c,
        forall|k: int| 0 <= k < spec_find(s, c) ==> s[k] != c,
    decreases s.len(),
{
    if s.len() > 0 && s[0] != c {
        lemma_find_bounds(s.drop_first(), c);
        assert forall|k: int| 0 <= k < spec_find(s, c) implies s[k] != c by {
            if k > 0 {
                assert(s.drop_first()[k - 1] == s[k]);
            }
        }
    }
}

/// Splits at the first occurrence of `c`, when there is one.
pub open spec fn spec_split_once(s: Seq<char>, c: char) -> Option<(Seq<char>, Seq<char>)> {
    let i = spec_find(s, c);
    if i < s.len() {
        Some((s.take(i as int), s.skip(i as int + 1)))
    } else {
        None
    }
}

/// The input class named by a device prefix, checked in the fixed order
/// keyboard, mouse, joystick, gamepad.
pub open spec fn spec_prefix_type(part: Seq<char>) -> InputType {
    if spec_starts_with(part, "kb"@) {
        InputType::Keyboard
    } else if spec_starts_with(part, "mouse"@) {
        InputType::Mouse
    } else if spec_starts_with(part, "js"@) {
        InputType::Joystick
    } else if spec_starts_with(part, "gp"@) {
        InputType::Gamepad
    } else {
        InputType::Unknown
    }
}

/// The class of the first `+`-separated part that names a device.
pub open spec fn spec_parts_type(parts: Seq<Seq<char>>) -> InputType
    decreases parts.len(),
{
    if parts.len() == 0 {
        InputType::Unknown
    } else {
        let t = spec_prefix_type(spec_trim(parts[0]));
        if t != InputType::Unknown {
            t
        } else {
            spec_parts_type(parts.drop_first())
        }
    }
}

/// Whether the trimmed input is an unbound placeholder: a first underscore
/// followed by nothing but whitespace (`js1_ `, `kb_`).
pub open spec fn spec_unbound_placeholder(input: Seq<char>) -> bool {
    let i = spec_find(input, '_');
    i < input.len() && spec_all_spaces(input.skip(i as int + 1))
}

/// The input class of a binding string: unbound placeholders are Unknown;
/// a string with modifiers (`+`) takes the class of the first part that
/// names a device; otherwise the whole string's prefix decides.
pub open spec fn spec_input_type(raw: Seq<char>) -> InputType {
    let input = spec_trim(raw);
    if spec_unbound_placeholder(input) {
        InputType::Unknown
    } else if spec_find(input, '+') < input.len() {
        spec_parts_type(spec_split(input, '+'))
    } else {
        spec_prefix_type(input)
    }
}

fn prefix_type(part: &str) -> (r: InputType)
    ensures
        r == spec_prefix_type(part@),
{
    if starts_with_str(part, "kb") {
        InputType::Keyboard
    } else if starts_with_str(part, "mouse") {
        InputType::Mouse
    } else if starts_with_str(part, "js") {
        InputType::Joystick
    } else if starts_with_str(part, "gp") {
        InputType::Gamepad
    } else {
        InputType::Unknown
    }
}

/// Scans `+`-separated parts for the first device prefix.
fn scan_parts(parts: &Vec<String>) -> (r: InputType)
    ensures
        r == spec_parts_type(parts@.map_values(|p: String| p@)),
{
    let ghost mapped = parts@.map_values(|p: String| p@);
    let n = parts.len();
    let mut j: usize = 0;
    proof {
        assert(mapped.skip(0) =~= mapped);
    }
    while j < n
        invariant
            n == parts@.len(),
            j <= n,
            mapped == parts@.map_values(|p: String| p@),
            spec_parts_type(mapped) == spec_parts_type(mapped.skip(j as int)),
        decreases n - j,
    {
        proof {
            assert(mapped.skip(j as int)[0] == mapped[j as int]);
            assert(mapped[j as int] == parts@[j as int]@);
            assert(mapped.skip(j as int).drop_first() =~= mapped.skip(j as int + 1));
        }
        let part = trim_str(parts[j].as_str());
        let t = prefix_type(part);
        if !matches!(t, InputType::Unknown) {
            return t;
        }
        j = j + 1;
    }
    proof {
        assert(mapped.skip(n as int) =~= Seq::<Seq<char>>::empty());
    }
    InputType::Unknown
}

impl Rebind {
    /// Parses the input class from the binding string.
    #[verifier::rlimit(100)]
    pub fn get_input_type(&self) -> (r: InputType)
        ensures
            r == spec_input_type(self.input@),
    {
        let input = trim_str(self.input.as_str());
        let len = input.unicode_len();
        proof {
            lemma_find_bounds(input@, '_');
            lemma_find_bounds(input@, '+');
        }
        match crate::text::find_char(input, '_') {
            Some(i) => {
                proof {
                    assert(spec_find(input@, '_') == i as nat) by {
                        lemma_find_bounds(input@, '_');
                        if spec_find(input@, '_') < i as nat {
                            assert(input@[spec_find(input@, '_') as int] == '_');
                        }
                        if spec_find(input@, '_') > i as nat {
                            assert(input@[i as int] != '_');
                        }
                    }
                }
                let after = input.substring_char(i + 1, len);
                assert(after@ =~= input@.skip(i as int + 1));
                if all_spaces(after) {
                    return InputType::Unknown;
                }
            },
            None => {
                proof {
                    if spec_find(input@, '_') < input@.len() {
                        assert(input@[spec_find(input@, '_') as int] == '_');
                    }
                }
            },
        }
        let has_plus = match crate::text::find_char(input, '+') {
            Some(i) => {
                proof {
                    if spec_find(input@, '+') > i as nat {
                        assert(input@[i as int] != '+');
                    }
                }
                true
            },
            None => {
                proof {
                    if spec_find(input@, '+') < input@.len() {
                        assert(input@[spec_find(input@, '+') as int] == '+');
                    }
                }
                false
            },
        };
        if has_plus {
            let parts = split_char(input, '+');
            proof {
                assert(parts@.map_values(|p: String| p@) =~= spec_split(input@, '+'));
            }
            scan_parts(&parts)
        } else {
            prefix_type(input)
        }
    }
}

} // verus!

verus! {

/// The index of the first `c` in `s` (or the length when absent), as an
/// executable search.
fn find_index(s: &str, c: char) -> (r: usize)
    ensures
        r as nat == spec_find(s@, c),
{
    proof {
        lemma_find_bounds(s@, c);
    }
    match crate::text::find_char(s, c) {
        Some(i) => {
            proof {
                if spec_find(s@, c) < i as nat {
                    assert(s@[spec_find(s@, c) as int] == c);
                }
                if spec_find(s@, c) > i as nat {
                    assert(s@[i as int] != c);
                }
            }
            i
        },
        None => {
            proof {
                if spec_find(s@, c) < s@.len() {
                    assert(s@[spec_find(s@, c) as int] == c);
                }
            }
            s.unicode_len()
        },
    }
}

/// Whether an uppercased prefix names a keyboard modifier.
pub open spec fn spec_is_modifier_name(m: Seq<char>) -> bool {
    ||| m == "LALT"@
    ||| m == "RALT"@
    ||| m == "LCTRL"@
    ||| m == "RCTRL"@
    ||| m == "LSHIFT"@
    ||| m == "RSHIFT"@
}

/// The display word of a keyboard modifier.
pub open spec fn spec_modifier_display(m: Seq<char>) -> Seq<char> {
    if m == "LALT"@ {
        "Left Alt"@
    } else if m == "RALT"@ {
        "Right Alt"@
    } else if m == "LCTRL"@ {
        "Left Ctrl"@
    } else if m == "RCTRL"@ {
        "Right Ctrl"@
    } else if m == "LSHIFT"@ {
        "Left Shift"@
    } else if m == "RSHIFT"@ {
        "Right Shift"@
    } else {
        m
    }
}

/// Strips leading `modifier+` prefixes: the uppercased modifiers in order,
/// and what remains of the input.
pub open spec fn spec_extract_mods(s: Seq<char>) -> (Seq<Seq<char>>, Seq<char>)
    decreases s.len(),
{
    match spec_split_once(s, '+') {
        Some((pre, rest)) => {
            let mu = upper_seq(spec_trim(pre));
            if spec_is_modifier_name(mu) {
                let r = spec_extract_mods(rest);
                (seq![mu] + r.0, r.1)
            } else {
                (Seq::empty(), s)
            }
        },
        None => (Seq::empty(), s),
    }
}

/// `_` replaced by a space, pointwise.
pub open spec fn spec_underscore_to_space(s: Seq<char>) -> Seq<char> {
    s.map_values(|c: char| if c == '_' { ' ' } else { c })
}

/// A binding fragment made readable: `buttonN` becomes `Button N`, anything
/// else is uppercased with underscores as spaces.
pub open spec fn spec_format_binding(b: Seq<char>) -> Seq<char> {
    let clean = spec_trim(b);
    if spec_starts_with(clean, "button"@) {
        "Button "@ + spec_trim(clean.skip("button"@.len() as int))
    } else {
        upper_seq(spec_underscore_to_space(clean))
    }
}

/// The device-and-binding part of a display name: the text before the
/// first underscore picks the device word, the rest is the formatted
/// binding; joystick instances read the third character of the prefix.
pub open spec fn spec_base_display(rem: Seq<char>) -> Seq<char> {
    match spec_split_once(rem, '_') {
        None => rem,
        Some((device, binding0)) => {
            let binding = spec_trim(binding0);
            if binding.len() == 0 {
                "Unbound"@
            } else {
                let d2 = device.take(if device.len() < 2 {
                    device.len() as int
                } else {
                    2
                });
                if d2 == "kb"@ {
                    "Keyboard - "@ + spec_format_binding(binding)
                } else if d2 == "js"@ {
                    "Joystick "@ + (if device.len() >= 3 {
                        seq![device[2]]
                    } else {
                        "1"@
                    }) + " - "@ + spec_format_binding(binding)
                } else if d2 == "mo"@ {
                    "Mouse - "@ + spec_format_binding(binding)
                } else if d2 == "gp"@ {
                    "Gamepad - "@ + spec_format_binding(binding)
                } else {
                    device + " - "@ + spec_format_binding(binding)
                }
            }
        },
    }
}

/// The modifier prefix of a display name: each modifier's display word
/// followed by ` + `; empty when there are no modifiers.
pub open spec fn spec_mods_prefix(mods: Seq<Seq<char>>) -> Seq<char>
    decreases mods.len(),
{
    if mods.len() == 0 {
        Seq::empty()
    } else {
        spec_modifier_display(mods[0]) + " + "@ + spec_mods_prefix(mods.drop_first())
    }
}

/// The human-readable description of a binding string.
pub open spec fn spec_display_name(raw: Seq<char>) -> Seq<char> {
    let input = spec_trim(raw);
    if input.len() == 0 || spec_ends_with(input, "_ "@) || spec_ends_with(input, "_  "@)
        || spec_ends_with(input, "_"@) {
        "Unbound"@
    } else {
        let pair = spec_extract_mods(input);
        spec_mods_prefix(pair.0) + spec_base_display(pair.1)
    }
}

fn format_binding_exec(b: &str) -> (r: String)
    ensures
        r@ == spec_format_binding(b@),
{
    let clean = trim_str(b);
    proof {
        reveal_strlit("button");
    }
    if starts_with_str(clean, "button") {
        let len = clean.unicode_len();
        let num = clean.substring_char(6, len);
        assert(num@ =~= clean@.skip("button"@.len() as int));
        let mut r = String::from_str("Button ");
        let t = trim_str(num);
        r.append(t);
        r
    } else {
        let len = clean.unicode_len();
        let mut mapped = String::new();
        let mut i: usize = 0;
        while i < len
            invariant
                len == clean@.len(),
                i <= len,
                mapped@ =~= spec_underscore_to_space(clean@.take(i as int)),
            decreases len - i,
        {
            let c = clean.get_char(i);
            let m = if c == '_' {
                ' '
            } else {
                c
            };
            crate::text::push_char(&mut mapped, m);
            i = i + 1;
            assert(mapped@ =~= spec_underscore_to_space(clean@.take(i as int)));
        }
        assert(clean@.take(len as int) =~= clean@);
        upper_string(mapped.as_str())
    }
}

#[verifier::rlimit(100)]
fn base_display_exec(rem: &str) -> (r: String)
    ensures
        r@ == spec_base_display(rem@),
{
    let len = rem.unicode_len();
    let i = find_index(rem, '_');
    if i >= len {
        return rem.to_owned();
    }
    let device = rem.substring_char(0, i);
    let binding0 = rem.substring_char(i + 1, len);
    assert(device@ == rem@.take(i as int));
    assert(binding0@ =~= rem@.skip(i as int + 1));
    let binding = trim_str(binding0);
    let blen = binding.unicode_len();
    if blen == 0 {
        return String::from_str("Unbound");
    }
    let dlen = device.unicode_len();
    let d2 = if dlen < 2 {
        device
    } else {
        device.substring_char(0, 2)
    };
    proof {
        if dlen < 2 {
            assert(device@.take(device@.len() as int) =~= device@);
        }
    }
    let fb = format_binding_exec(binding0);
    proof {
        crate::text::lemma_trim_idempotent(binding0@);
    }
    if crate::text::str_eq(d2, "kb") {
        let mut r = String::from_str("Keyboard - ");
        r.append(fb.as_str());
        r
    } else if crate::text::str_eq(d2, "js") {
        let mut r = String::from_str("Joystick ");
        if dlen >= 3 {
            crate::text::push_char(&mut r, device.get_char(2));
            assert(r@ =~= "Joystick "@ + seq![device@[2]]);
        } else {
            r.append("1");
        }
        r.append(" - ");
        r.append(fb.as_str());
        r
    } else if crate::text::str_eq(d2, "mo") {
        let mut r = String::from_str("Mouse - ");
        r.append(fb.as_str());
        r
    } else if crate::text::str_eq(d2, "gp") {
        let mut r = String::from_str("Gamepad - ");
        r.append(fb.as_str());
        r
    } else {
        let mut r = device.to_owned();
        r.append(" - ");
        r.append(fb.as_str());
        r
    }
}

/// Consumes leading `modifier+` prefixes: the rendered modifier prefix
/// (each display word followed by ` + `) and the remaining input.
fn mods_prefix_exec<'a>(s: &'a str) -> (r: (String, &'a str))
    ensures
        r.0@ == spec_mods_prefix(spec_extract_mods(s@).0),
        r.1@ == spec_extract_mods(s@).1,
    decreases s@.len(),
{
    let rlen = s.unicode_len();
    let i = find_index(s, '+');
    if i >= rlen {
        return (String::new(), s);
    }
    let pre = s.substring_char(0, i);
    let rest = s.substring_char(i + 1, rlen);
    assert(pre@ == s@.take(i as int));
    assert(rest@ =~= s@.skip(i as int + 1));
    let mu = upper_string(trim_str(pre));
    let m = mu.as_str();
    let is_lalt = crate::text::str_eq(m, "LALT");
    let is_ralt = crate::text::str_eq(m, "RALT");
    let is_lctrl = crate::text::str_eq(m, "LCTRL");
    let is_rctrl = crate::text::str_eq(m, "RCTRL");
    let is_lshift = crate::text::str_eq(m, "LSHIFT");
    let is_rshift = crate::text::str_eq(m, "RSHIFT");
    if !(is_lalt || is_ralt || is_lctrl || is_rctrl || is_lshift || is_rshift) {
        assert(!spec_is_modifier_name(mu@));
        return (String::new(), s);
    }
    let mut disp = if is_lalt {
        String::from_str("Left Alt")
    } else if is_ralt {
        String::from_str("Right Alt")
    } else if is_lctrl {
        String::from_str("Left Ctrl")
    } else if is_rctrl {
        String::from_str("Right Ctrl")
    } else if is_lshift {
        String::from_str("Left Shift")
    } else {
        String::from_str("Right Shift")
    };
    assert(disp@ == spec_modifier_display(mu@));
    let tail = mods_prefix_exec(rest);
    disp.append(" + ");
    disp.append(tail.0.as_str());
    proof {
        let t0 = spec_extract_mods(rest@).0;
        assert(spec_extract_mods(s@).0 == seq![mu@] + t0);
        assert((seq![mu@] + t0)[0] == mu@);
        assert((seq![mu@] + t0).drop_first() =~= t0);
        assert(disp@ =~= spec_mods_prefix(spec_extract_mods(s@).0));
    }
    (disp, tail.1)
}

impl Rebind {
    /// Formats one binding fragment: `buttonN` becomes `Button N`, anything
    /// else is uppercased with underscores as spaces.
    pub fn format_binding(binding: &str) -> (r: String)
        ensures
            r@ == spec_format_binding(binding@),
    {
        format_binding_exec(binding)
    }

    /// A human-readable description of the binding: modifiers spelled out,
    /// the device named, the binding fragment formatted; unbound
    /// placeholders read `Unbound`.
    #[verifier::rlimit(100)]
    pub fn get_display_name(&self) -> (r: String)
        ensures
            r@ == spec_display_name(self.input@),
    {
        let input = trim_str(self.input.as_str());
        let len = input.unicode_len();
        if len == 0 || crate::text::ends_with_str(input, "_ ") || crate::text::ends_with_str(
            input,
            "_  ",
        ) || crate::text::ends_with_str(input, "_") {
            return String::from_str("Unbound");
        }
        let pair = mods_prefix_exec(input);
        let mut acc = pair.0;
        let base = base_display_exec(pair.1);
        acc.append(base.as_str());
        acc
    }
}

} // verus!

verus! {

/// Keybindings organised for display.
pub struct OrganizedKeybindings {
    pub profile_name: String,
    pub categories: Vec<String>,
    pub devices: DeviceInfo,
    pub action_maps: Vec<OrganizedActionMap>,
}

pub struct OrganizedActionMap {
    pub name: String,
    pub display_name: String,
    pub actions: Vec<OrganizedAction>,
}

pub struct OrganizedAction {
    pub name: String,
    pub display_name: String,
    pub bindings: Vec<BindingInfo>,
}

/// One binding prepared for display.
pub struct BindingInfo {
    pub input: String,
    pub input_type: String,
    pub display_name: String,
    pub activation_mode: String,
    pub multi_tap: Option<u32>,
}

/// The default/override merge view of the master list and the user's
/// customisations.
pub struct MergedBindings {
    pub action_maps: Vec<MergedActionMap>,
}

pub struct MergedActionMap {
    pub name: String,
    pub ui_label: String,
    pub ui_category: String,
    pub actions: Vec<MergedAction>,
}

pub struct MergedAction {
    pub name: String,
    pub ui_label: String,
    pub ui_description: String,
    pub category: String,
    pub is_customized: bool,
    pub on_hold: bool,
    pub bindings: Vec<MergedBinding>,
}

pub struct MergedBinding {
    pub input: String,
    pub display_name: String,
    pub input_type: String,
    pub is_default: bool,
    pub multi_tap: Option<u32>,
    pub activation_mode: String,
    pub original_default: Option<String>,
}

/// Which devices an unbind profile clears.
pub struct DeviceSelection {
    pub keyboard: bool,
    pub mouse: bool,
    pub gamepad: bool,
    pub joystick1: bool,
    pub joystick2: bool,
}

/// Whether some binding of some action in `maps` has the given class.
pub open spec fn spec_has_binding_of_type(maps: Seq<ActionMap>, t: InputType) -> bool {
    exists|i: int, j: int, k: int|
        0 <= i < maps.len() && 0 <= j < (#[trigger] maps[i]).actions@.len() && 0 <= k < (
        #[trigger] maps[i].actions@[j]).rebinds@.len() && spec_input_type(
            (#[trigger] maps[i].actions@[j].rebinds@[k]).input@,
        ) == t
}

fn has_binding_of_type(maps: &Vec<ActionMap>, t: InputType) -> (r: bool)
    ensures
        r == spec_has_binding_of_type(maps@, t),
{
    let n = maps.len();
    let mut i: usize = 0;
    while i < n
        invariant
            n == maps@.len(),
            i <= n,
            forall|a: int, b: int, c: int|
                0 <= a < i && 0 <= b < (#[trigger] maps@[a]).actions@.len() && 0 <= c < (
                #[trigger] maps@[a].actions@[b]).rebinds@.len() ==> spec_input_type(
                    (#[trigger] maps@[a].actions@[b].rebinds@[c]).input@,
                ) != t,
        decreases n - i,
    {
        let an = maps[i].actions.len();
        let mut j: usize = 0;
        while j < an
            invariant
                n == maps@.len(),
                i < n,
                an == maps@[i as int].actions@.len(),
                j <= an,
                forall|b: int, c: int|
                    0 <= b < j && 0 <= c < (#[trigger] maps@[i as int].actions@[b]).rebinds@.len()
                        ==> spec_input_type(
                        (#[trigger] maps@[i as int].actions@[b].rebinds@[c]).input@,
                    ) != t,
            decreases an - j,
        {
            let rn = maps[i].actions[j].rebinds.len();
            let mut k: usize = 0;
            while k < rn
                invariant
                    n == maps@.len(),
                    i < n,
                    j < maps@[i as int].actions@.len(),
                    rn == maps@[i as int].actions@[j as int].rebinds@.len(),
                    k <= rn,
                    forall|c: int| 0 <= c < k ==> spec_input_type(
                        (#[trigger] maps@[i as int].actions@[j as int].rebinds@[c]).input@,
                    ) != t,
                decreases rn - k,
            {
                let ty = maps[i].actions[j].rebinds[k].get_input_type();
                if ty == t {
                    return true;
                }
                k = k + 1;
            }
            j = j + 1;
        }
        i = i + 1;
    }
    false
}

impl ActionMaps {
    /// Whether the profile customises any keyboard binding.
    pub fn has_keyboard_bindings(&self) -> (r: bool)
        ensures
            r == spec_has_binding_of_type(self.action_maps@, InputType::Keyboard),
    {
        has_binding_of_type(&self.action_maps, InputType::Keyboard)
    }

    /// Whether the profile customises any mouse binding.
    pub fn has_mouse_bindings(&self) -> (r: bool)
        ensures
            r == spec_has_binding_of_type(self.action_maps@, InputType::Mouse),
    {
        has_binding_of_type(&self.action_maps, InputType::Mouse)
    }

    /// A fresh action map with the given name and actions.
    pub fn new_empty_action_map(name: String, actions: Vec<Action>) -> (r: ActionMap)
        ensures
            r.name == name,
            r.actions == actions,
    {
        ActionMap { name, actions }
    }
}

} // verus!

verus! {

impl ActionMaps {
    /// Parses a keybinding profile from XML: reads the document's event
    /// stream and folds the parser over it, so the result is exactly
    /// `spec_parse_profile` of some reader-shaped event stream.  A
    /// malformed document fails with an `XML parsing error:` message.
    pub fn from_xml(xml: &str) -> (r: Result<ActionMaps, String>)
        ensures
            exists|events: Seq<XmlEvent>| #[trigger] spec_event_stream(events)
                && spec_profile_result_matches(r, events),
            r matches Err(m) ==> spec_starts_with(m@, "XML parsing error: "@),
    {
        let events = crate::xml_events::read_xml_events(xml);
        let r = Self::from_events(&events);
        proof {
            assert(spec_event_stream(events@));
            assert(spec_profile_result_matches(r, events@));
            lemma_parse_profile_err_prefix(events@, spec_profile_init());
        }
        r
    }
}

impl AllBinds {
    /// Parses the master action list from XML: reads the document's event
    /// stream and folds the parser over it, so the result is exactly
    /// `spec_parse_binds` of some reader-shaped event stream.  A malformed
    /// document fails with an `XML parsing error:` message.
    pub fn from_xml(xml: &str) -> (r: Result<AllBinds, String>)
        ensures
            exists|events: Seq<XmlEvent>| #[trigger] spec_event_stream(events)
                && spec_binds_result_matches(r, events),
            r matches Err(m) ==> spec_starts_with(m@, "XML parsing error: "@),
    {
        let events = crate::xml_events::read_xml_events(xml);
        let r = Self::from_events(&events);
        proof {
            assert(spec_event_stream(events@));
            assert(spec_binds_result_matches(r, events@));
            lemma_parse_binds_err_prefix(events@, spec_binds_init());
        }
        r
    }
}

} // verus!

verus! {

/// The XML fragment of one rebind: the input attribute, a `multiTap`
/// attribute when the count is present, and a self-closing tag.
pub open spec fn spec_rebind_xml(r: Rebind) -> Seq<char> {
    "   <rebind input=\""@ + r.input@ + "\""@ + (match r.multi_tap {
        Some(n) => " multiTap=\""@ + crate::text::spec_dec(n as nat) + "\""@,
        None => Seq::empty(),
    }) + "/>\n"@
}

/// The rebind fragments of an action, in order, from index `i` up.
pub open spec fn spec_rebinds_xml(rebinds: Seq<Rebind>, i: int) -> Seq<char>
    decreases rebinds.len() - i,
{
    if i < 0 || i >= rebinds.len() {
        Seq::empty()
    } else {
        spec_rebind_xml(rebinds[i]) + spec_rebinds_xml(rebinds, i + 1)
    }
}

/// Whether a rebind is a real customisation: its trimmed input is not
/// empty, not a lone space, and not an explicit unbind (ending in `_` or
/// `_ `).
pub open spec fn spec_real_rebind(r: Rebind) -> bool {
    let trimmed = spec_trim(r.input@);
    trimmed.len() != 0 && trimmed != " "@ && !spec_ends_with(trimmed, "_ "@) && !spec_ends_with(
        trimmed,
        "_"@,
    )
}

/// Whether an action is exported: it has rebinds and at least one is real.
pub open spec fn spec_action_exported(a: Action) -> bool {
    a.rebinds@.len() > 0 && exists|k: int| 0 <= k < a.rebinds@.len() && spec_real_rebind(
        #[trigger] a.rebinds@[k],
    )
}

/// The XML fragment of one exported action: every rebind it holds.
pub open spec fn spec_action_xml(a: Action) -> Seq<char> {
    "  <action name=\""@ + a.name@ + "\">\n"@ + spec_rebinds_xml(a.rebinds@, 0)
        + "  </action>\n"@
}

/// The fragments of the exported actions of a map, from index `i` up.
pub open spec fn spec_actions_xml(actions: Seq<Action>, i: int) -> Seq<char>
    decreases actions.len() - i,
{
    if i < 0 || i >= actions.len() {
        Seq::empty()
    } else {
        (if spec_action_exported(actions[i]) {
            spec_action_xml(actions[i])
        } else {
            Seq::empty()
        }) + spec_actions_xml(actions, i + 1)
    }
}

/// Whether an action map is exported: some action of it is.
pub open spec fn spec_map_exported(m: ActionMap) -> bool {
    exists|k: int| 0 <= k < m.actions@.len() && spec_action_exported(#[trigger] m.actions@[k])
}

/// The XML fragment of one exported action map.
pub open spec fn spec_actionmap_xml(m: ActionMap) -> Seq<char> {
    " <actionmap name=\""@ + m.name@ + "\">\n"@ + spec_actions_xml(m.actions@, 0)
        + " </actionmap>\n"@
}

/// The fragments of the exported action maps, from index `i` up.
pub open spec fn spec_actionmaps_xml(maps: Seq<ActionMap>, i: int) -> Seq<char>
    decreases maps.len() - i,
{
    if i < 0 || i >= maps.len() {
        Seq::empty()
    } else {
        (if spec_map_exported(maps[i]) {
            spec_actionmap_xml(maps[i])
        } else {
            Seq::empty()
        }) + spec_actionmaps_xml(maps, i + 1)
    }
}

/// The joystick instance lines `1..=n`, from `i` up.
pub open spec fn spec_joystick_lines(i: nat, n: nat) -> Seq<char>
    decreases n + 1 - i,
{
    if i < 1 || i > n {
        Seq::empty()
    } else {
        "   <joystick instance=\""@ + crate::text::spec_dec(i) + "\"/>\n"@
            + spec_joystick_lines(i + 1, n)
    }
}

/// The category lines of the header, from index `i` up.
pub open spec fn spec_category_lines(cats: Seq<Category>, i: int) -> Seq<char>
    decreases cats.len() - i,
{
    if i < 0 || i >= cats.len() {
        Seq::empty()
    } else {
        "   <category label=\""@ + cats[i].label@ + "\"/>\n"@ + spec_category_lines(cats, i + 1)
    }
}

/// The whole exported profile: declaration, root element, header with
/// devices and categories, the empty modifiers element, and every exported
/// action map.
pub open spec fn spec_profile_xml(m: ActionMaps) -> Seq<char> {
    let has_kb = spec_has_binding_of_type(m.action_maps@, InputType::Keyboard);
    let has_mouse = spec_has_binding_of_type(m.action_maps@, InputType::Mouse);
    let js_count: nat = if m.devices.joysticks@.len() < 2 {
        2
    } else {
        m.devices.joysticks@.len() as nat
    };
    "<?xml version=\"1.0\" encoding=\"UTF-8\"?>\n"@
        + "<ActionMaps version=\"1\" optionsVersion=\"2\" rebindVersion=\"2\" profileName=\""@
        + m.profile_name@ + "\">\n"@ + " <CustomisationUIHeader label=\""@ + m.profile_name@
        + "\" description=\"\" image=\"\">\n"@ + "  <devices>\n"@ + (if has_kb {
        "   <keyboard instance=\"1\"/>\n"@
    } else {
        Seq::empty()
    }) + (if has_mouse {
        "   <mouse instance=\"1\"/>\n"@
    } else {
        Seq::empty()
    }) + spec_joystick_lines(1, js_count) + "  </devices>\n"@ + (if m.categories@.len() > 0 {
        "  <categories>\n"@ + spec_category_lines(m.categories@, 0) + "  </categories>\n"@
    } else {
        Seq::empty()
    }) + " </CustomisationUIHeader>\n"@ + " <modifiers />\n"@ + spec_actionmaps_xml(
        m.action_maps@,
        0,
    ) + "</ActionMaps>\n"@
}

} // verus!

verus! {

fn real_rebind(r: &Rebind) -> (b: bool)
    ensures
        b == spec_real_rebind(*r),
{
    let trimmed = trim_str(r.input.as_str());
    let len = trimmed.unicode_len();
    if len == 0 {
        return false;
    }
    if crate::text::str_eq(trimmed, " ") {
        return false;
    }
    if crate::text::ends_with_str(trimmed, "_ ") {
        return false;
    }
    if crate::text::ends_with_str(trimmed, "_") {
        return false;
    }
    true
}

fn action_exported(a: &Action) -> (b: bool)
    ensures
        b == spec_action_exported(*a),
{
    let n = a.rebinds.len();
    if n == 0 {
        return false;
    }
    let mut k: usize = 0;
    while k < n
        invariant
            n == a.rebinds@.len(),
            k <= n,
            forall|q: int| 0 <= q < k ==> !spec_real_rebind(#[trigger] a.rebinds@[q]),
        decreases n - k,
    {
        if real_rebind(&a.rebinds[k]) {
            return true;
        }
        k = k + 1;
    }
    false
}

fn rebind_xml(out: &mut String, r: &Rebind)
    ensures
        final(out)@ == old(out)@ + spec_rebind_xml(*r),
{
    out.append("   <rebind input=\"");
    out.append(r.input.as_str());
    out.append("\"");
    if let Some(n) = r.multi_tap {
        out.append(" multiTap=\"");
        let d = crate::text::dec_string(n as u64);
        out.append(d.as_str());
        out.append("\"");
    }
    out.append("/>\n");
    assert(final(out)@ =~= old(out)@ + spec_rebind_xml(*r));
}

fn action_xml(out: &mut String, a: &Action)
    ensures
        final(out)@ == old(out)@ + spec_action_xml(*a),
{
    out.append("  <action name=\"");
    out.append(a.name.as_str());
    out.append("\">\n");
    let n = a.rebinds.len();
    let mut i: usize = 0;
    let ghost base = out@;
    proof {
        assert(base + Seq::<char>::empty() =~= base);
    }
    while i < n
        invariant
            n == a.rebinds@.len(),
            i <= n,
            out@ + spec_rebinds_xml(a.rebinds@, i as int) == base + spec_rebinds_xml(
                a.rebinds@,
                0,
            ),
        decreases n - i,
    {
        let ghost before = out@;
        rebind_xml(out, &a.rebinds[i]);
        proof {
            assert((before + spec_rebind_xml(a.rebinds@[i as int])) + spec_rebinds_xml(
                a.rebinds@,
                i as int + 1,
            ) =~= before + spec_rebinds_xml(a.rebinds@, i as int));
        }
        i = i + 1;
    }
    proof {
        assert(spec_rebinds_xml(a.rebinds@, n as int) =~= Seq::<char>::empty());
        assert(out@ + Seq::<char>::empty() =~= out@);
    }
    out.append("  </action>\n");
    assert(final(out)@ =~= old(out)@ + spec_action_xml(*a));
}

fn actionmap_xml(out: &mut String, m: &ActionMap)
    ensures
        final(out)@ == old(out)@ + spec_actionmap_xml(*m),
{
    out.append(" <actionmap name=\"");
    out.append(m.name.as_str());
    out.append("\">\n");
    let n = m.actions.len();
    let mut i: usize = 0;
    let ghost base = out@;
    proof {
        assert(base + Seq::<char>::empty() =~= base);
    }
    while i < n
        invariant
            n == m.actions@.len(),
            i <= n,
            out@ + spec_actions_xml(m.actions@, i as int) == base + spec_actions_xml(
                m.actions@,
                0,
            ),
        decreases n - i,
    {
        let ghost before = out@;
        if action_exported(&m.actions[i]) {
            action_xml(out, &m.actions[i]);
        }
        proof {
            let frag = if spec_action_exported(m.actions@[i as int]) {
                spec_action_xml(m.actions@[i as int])
            } else {
                Seq::<char>::empty()
            };
            assert(out@ =~= before + frag);
            assert((before + frag) + spec_actions_xml(m.actions@, i as int + 1) =~= before
                + spec_actions_xml(m.actions@, i as int));
        }
        i = i + 1;
    }
    proof {
        assert(spec_actions_xml(m.actions@, n as int) =~= Seq::<char>::empty());
        assert(out@ + Seq::<char>::empty() =~= out@);
    }
    out.append(" </actionmap>\n");
    assert(final(out)@ =~= old(out)@ + spec_actionmap_xml(*m));
}

impl ActionMaps {
    /// Serialises the profile to the keybinding XML format: only actions
    /// with at least one real customisation are exported, with every
    /// rebind they hold.
    pub fn to_xml(&self) -> (r: String)
        ensures
            r@ == spec_profile_xml(*self),
    {
        let mut out = String::new();
        out.append("<?xml version=\"1.0\" encoding=\"UTF-8\"?>\n");
        out.append(
            "<ActionMaps version=\"1\" optionsVersion=\"2\" rebindVersion=\"2\" profileName=\"",
        );
        out.append(self.profile_name.as_str());
        out.append("\">\n");
        out.append(" <CustomisationUIHeader label=\"");
        out.append(self.profile_name.as_str());
        out.append("\" description=\"\" image=\"\">\n");
        out.append("  <devices>\n");
        let has_kb = self.has_keyboard_bindings();
        let has_mouse = self.has_mouse_bindings();
        if has_kb {
            out.append("   <keyboard instance=\"1\"/>\n");
        }
        if has_mouse {
            out.append("   <mouse instance=\"1\"/>\n");
        }
        let js_len = self.devices.joysticks.len();
        let js_count: usize = if js_len < 2 {
            2
        } else {
            js_len
        };
        let mut idx: usize = 0;
        let ghost base = out@;
        proof {
            assert(base + Seq::<char>::empty() =~= base);
        }
        while idx < js_count
            invariant
                idx <= js_count,
                out@ + spec_joystick_lines(idx as nat + 1, js_count as nat) == base
                    + spec_joystick_lines(1, js_count as nat),
            decreases js_count - idx,
        {
            let ghost before = out@;
            let instance = idx + 1;
            out.append("   <joystick instance=\"");
            let d = crate::text::dec_string(instance as u64);
            out.append(d.as_str());
            out.append("\"/>\n");
            proof {
                let frag = "   <joystick instance=\""@ + crate::text::spec_dec(instance as nat)
                    + "\"/>\n"@;
                assert(out@ =~= before + frag);
                assert((before + frag) + spec_joystick_lines(instance as nat + 1, js_count as nat)
                    =~= before + spec_joystick_lines(instance as nat, js_count as nat));
            }
            idx = idx + 1;
        }
        proof {
            assert(spec_joystick_lines(js_count as nat + 1, js_count as nat)
                =~= Seq::<char>::empty());
            assert(out@ + Seq::<char>::empty() =~= out@);
        }
        out.append("  </devices>\n");
        if self.categories.len() > 0 {
            out.append("  <categories>\n");
            let n = self.categories.len();
            let mut k: usize = 0;
            let ghost cbase = out@;
            proof {
                assert(cbase + Seq::<char>::empty() =~= cbase);
            }
            while k < n
                invariant
                    n == self.categories@.len(),
                    k <= n,
                    out@ + spec_category_lines(self.categories@, k as int) == cbase
                        + spec_category_lines(self.categories@, 0),
                decreases n - k,
            {
                let ghost before = out@;
                out.append("   <category label=\"");
                out.append(self.categories[k].label.as_str());
                out.append("\"/>\n");
                proof {
                    let frag = "   <category label=\""@ + self.categories@[k as int].label@
                        + "\"/>\n"@;
                    assert(out@ =~= before + frag);
                    assert((before + frag) + spec_category_lines(
                        self.categories@,
                        k as int + 1,
                    ) =~= before + spec_category_lines(self.categories@, k as int));
                }
                k = k + 1;
            }
            proof {
                assert(spec_category_lines(self.categories@, n as int) =~= Seq::<char>::empty());
                assert(out@ + Seq::<char>::empty() =~= out@);
            }
            out.append("  </categories>\n");
        }
        out.append(" </CustomisationUIHeader>\n");
        out.append(" <modifiers />\n");
        let n = self.action_maps.len();
        let mut k: usize = 0;
        let ghost mbase = out@;
        proof {
            assert(mbase + Seq::<char>::empty() =~= mbase);
        }
        while k < n
            invariant
                n == self.action_maps@.len(),
                k <= n,
                out@ + spec_actionmaps_xml(self.action_maps@, k as int) == mbase
                    + spec_actionmaps_xml(self.action_maps@, 0),
            decreases n - k,
        {
            let ghost before = out@;
            let exported = {
                let m = &self.action_maps[k];
                let an = m.actions.len();
                let mut j: usize = 0;
                let mut found = false;
                while j < an
                    invariant
                        k < n,
                        n == self.action_maps@.len(),
                        m.actions@ == self.action_maps@[k as int].actions@,
                        an == self.action_maps@[k as int].actions@.len(),
                        j <= an,
                        found <==> (exists|q: int| 0 <= q < j && spec_action_exported(
                            #[trigger] self.action_maps@[k as int].actions@[q],
                        )),
                    decreases an - j,
                {
                    if action_exported(&m.actions[j]) {
                        found = true;
                        assert(spec_action_exported(
                            self.action_maps@[k as int].actions@[j as int],
                        ));
                    }
                    j = j + 1;
                }
                found
            };
            assert(exported == spec_map_exported(self.action_maps@[k as int]));
            if exported {
                actionmap_xml(&mut out, &self.action_maps[k]);
            }
            proof {
                let frag = if spec_map_exported(self.action_maps@[k as int]) {
                    spec_actionmap_xml(self.action_maps@[k as int])
                } else {
                    Seq::<char>::empty()
                };
                assert(out@ =~= before + frag);
                assert((before + frag) + spec_actionmaps_xml(self.action_maps@, k as int + 1)
                    =~= before + spec_actionmaps_xml(self.action_maps@, k as int));
            }
            k = k + 1;
        }
        proof {
            assert(spec_actionmaps_xml(self.action_maps@, n as int) =~= Seq::<char>::empty());
            assert(out@ + Seq::<char>::empty() =~= out@);
        }
        out.append("</ActionMaps>\n");
        assert(out@ =~= spec_profile_xml(*self));
        out
    }
}

} // verus!

verus! {

/// The blank rebind lines of one action in an unbind profile: one per
/// selected device; the two menu-critical UI actions keep an escape-key
/// binding so menu navigation always works.
pub open spec fn spec_unbind_rebinds(a: AllBindsAction, devices: DeviceSelection) -> Seq<char> {
    if a.name@ == "ui_toggle_pause"@ || a.name@ == "ui_back"@ {
        "   <rebind input=\"kb1_escape\" activationMode=\"press\"/>\n"@
    } else {
        (if devices.keyboard {
            "   <rebind input=\"kb1_ \"/>\n"@
        } else {
            Seq::empty()
        }) + (if devices.mouse {
            "   <rebind input=\"mouse1_ \"/>\n"@
        } else {
            Seq::empty()
        }) + (if devices.gamepad {
            "   <rebind input=\"gp1_ \"/>\n"@
        } else {
            Seq::empty()
        }) + (if devices.joystick1 {
            "   <rebind input=\"js1_ \"/>\n"@
        } else {
            Seq::empty()
        }) + (if devices.joystick2 {
            "   <rebind input=\"js2_ \"/>\n"@
        } else {
            Seq::empty()
        })
    }
}

/// The unbind fragment of one action.
pub open spec fn spec_unbind_action_xml(a: AllBindsAction, devices: DeviceSelection)
    -> Seq<char> {
    "  <action name=\""@ + a.name@ + "\">\n"@ + spec_unbind_rebinds(a, devices)
        + "  </action>\n"@
}

/// The unbind fragments of a map's actions, from index `i` up.
pub open spec fn spec_unbind_actions_xml(
    actions: Seq<AllBindsAction>,
    devices: DeviceSelection,
    i: int,
) -> Seq<char>
    decreases actions.len() - i,
{
    if i < 0 || i >= actions.len() {
        Seq::empty()
    } else {
        spec_unbind_action_xml(actions[i], devices) + spec_unbind_actions_xml(
            actions,
            devices,
            i + 1,
        )
    }
}

/// The unbind fragment of one action map.
pub open spec fn spec_unbind_map_xml(m: AllBindsActionMap, devices: DeviceSelection)
    -> Seq<char> {
    " <actionmap name=\""@ + m.name@ + "\">\n"@ + spec_unbind_actions_xml(m.actions@, devices, 0)
        + " </actionmap>\n"@
}

/// The unbind fragments of the maps, from index `i` up.
pub open spec fn spec_unbind_maps_xml(
    maps: Seq<AllBindsActionMap>,
    devices: DeviceSelection,
    i: int,
) -> Seq<char>
    decreases maps.len() - i,
{
    if i < 0 || i >= maps.len() {
        Seq::empty()
    } else {
        spec_unbind_map_xml(maps[i], devices) + spec_unbind_maps_xml(maps, devices, i + 1)
    }
}

/// The whole unbind profile for the selected devices.
pub open spec fn spec_unbind_profile_xml(binds: AllBinds, devices: DeviceSelection)
    -> Seq<char> {
    "<?xml version=\"1.0\" encoding=\"UTF-8\"?>\n"@
        + "<ActionMaps version=\"1\" optionsVersion=\"2\" rebindVersion=\"2\" profileName=\"UNBIND_ALL_DEVICES\">\n"@
        + " <CustomisationUIHeader label=\"UNBIND_ALL_DEVICES\" description=\"Clears all bindings for selected devices\" image=\"\">\n"@
        + "  <devices>\n"@ + (if devices.keyboard {
        "   <keyboard instance=\"1\"/>\n"@
    } else {
        Seq::empty()
    }) + (if devices.mouse {
        "   <mouse instance=\"1\"/>\n"@
    } else {
        Seq::empty()
    }) + (if devices.joystick1 {
        "   <joystick instance=\"1\"/>\n"@
    } else {
        Seq::empty()
    }) + (if devices.joystick2 {
        "   <joystick instance=\"2\"/>\n"@
    } else {
        Seq::empty()
    }) + "  </devices>\n"@ + " </CustomisationUIHeader>\n"@ + " <modifiers />\n"@
        + spec_unbind_maps_xml(binds.action_maps@, devices, 0) + "</ActionMaps>\n"@
}

#[verifier::rlimit(100)]
#[verifier::spinoff_prover]
fn unbind_action_xml(out: &mut String, a: &AllBindsAction, devices: &DeviceSelection)
    ensures
        final(out)@ == old(out)@ + spec_unbind_action_xml(*a, *devices),
{
    out.append("  <action name=\"");
    out.append(a.name.as_str());
    out.append("\">\n");
    if crate::text::str_eq(a.name.as_str(), "ui_toggle_pause") || crate::text::str_eq(
        a.name.as_str(),
        "ui_back",
    ) {
        out.append("   <rebind input=\"kb1_escape\" activationMode=\"press\"/>\n");
    } else {
        if devices.keyboard {
            out.append("   <rebind input=\"kb1_ \"/>\n");
        }
        if devices.mouse {
            out.append("   <rebind input=\"mouse1_ \"/>\n");
        }
        if devices.gamepad {
            out.append("   <rebind input=\"gp1_ \"/>\n");
        }
        if devices.joystick1 {
            out.append("   <rebind input=\"js1_ \"/>\n");
        }
        if devices.joystick2 {
            out.append("   <rebind input=\"js2_ \"/>\n");
        }
    }
    out.append("  </action>\n");
    assert(final(out)@ =~= old(out)@ + spec_unbind_action_xml(*a, *devices));
}

fn unbind_map_xml(out: &mut String, m: &AllBindsActionMap, devices: &DeviceSelection)
    ensures
        final(out)@ == old(out)@ + spec_unbind_map_xml(*m, *devices),
{
    out.append(" <actionmap name=\"");
    out.append(m.name.as_str());
    out.append("\">\n");
    let n = m.actions.len();
    let mut i: usize = 0;
    let ghost base = out@;
    proof {
        assert(base + Seq::<char>::empty() =~= base);
    }
    while i < n
        invariant
            n == m.actions@.len(),
            i <= n,
            out@ + spec_unbind_actions_xml(m.actions@, *devices, i as int) == base
                + spec_unbind_actions_xml(m.actions@, *devices, 0),
        decreases n - i,
    {
        let ghost before = out@;
        unbind_action_xml(out, &m.actions[i], devices);
        proof {
            assert((before + spec_unbind_action_xml(m.actions@[i as int], *devices))
                + spec_unbind_actions_xml(m.actions@, *devices, i as int + 1) =~= before
                + spec_unbind_actions_xml(m.actions@, *devices, i as int));
        }
        i = i + 1;
    }
    proof {
        assert(spec_unbind_actions_xml(m.actions@, *devices, n as int) =~= Seq::<char>::empty());
        assert(out@ + Seq::<char>::empty() =~= out@);
    }
    out.append(" </actionmap>\n");
    assert(final(out)@ =~= old(out)@ + spec_unbind_map_xml(*m, *devices));
}

/// Builds a profile that explicitly clears every binding of the selected
/// devices, keeping an escape-key binding on the two menu-critical UI
/// actions.
pub fn generate_unbind_xml(all_binds: &AllBinds, devices: &DeviceSelection) -> (r: Result<
    String,
    String,
>)
    ensures
        r matches Ok(xml) && xml@ == spec_unbind_profile_xml(*all_binds, *devices),
{
    let mut out = String::new();
    out.append("<?xml version=\"1.0\" encoding=\"UTF-8\"?>\n");
    out.append(
        "<ActionMaps version=\"1\" optionsVersion=\"2\" rebindVersion=\"2\" profileName=\"UNBIND_ALL_DEVICES\">\n",
    );
    out.append(
        " <CustomisationUIHeader label=\"UNBIND_ALL_DEVICES\" description=\"Clears all bindings for selected devices\" image=\"\">\n",
    );
    out.append("  <devices>\n");
    if devices.keyboard {
        out.append("   <keyboard instance=\"1\"/>\n");
    }
    if devices.mouse {
        out.append("   <mouse instance=\"1\"/>\n");
    }
    if devices.joystick1 {
        out.append("   <joystick instance=\"1\"/>\n");
    }
    if devices.joystick2 {
        out.append("   <joystick instance=\"2\"/>\n");
    }
    out.append("  </devices>\n");
    out.append(" </CustomisationUIHeader>\n");
    out.append(" <modifiers />\n");
    let n = all_binds.action_maps.len();
    let mut i: usize = 0;
    let ghost base = out@;
    proof {
        assert(base + Seq::<char>::empty() =~= base);
    }
    while i < n
        invariant
            n == all_binds.action_maps@.len(),
            i <= n,
            out@ + spec_unbind_maps_xml(all_binds.action_maps@, *devices, i as int) == base
                + spec_unbind_maps_xml(all_binds.action_maps@, *devices, 0),
        decreases n - i,
    {
        let ghost before = out@;
        unbind_map_xml(&mut out, &all_binds.action_maps[i], devices);
        proof {
            assert((before + spec_unbind_map_xml(all_binds.action_maps@[i as int], *devices))
                + spec_unbind_maps_xml(all_binds.action_maps@, *devices, i as int + 1) =~= before
                + spec_unbind_maps_xml(all_binds.action_maps@, *devices, i as int));
        }
        i = i + 1;
    }
    proof {
        assert(spec_unbind_maps_xml(all_binds.action_maps@, *devices, n as int)
            =~= Seq::<char>::empty());
        assert(out@ + Seq::<char>::empty() =~= out@);
    }
    out.append("</ActionMaps>\n");
    assert(out@ =~= spec_unbind_profile_xml(*all_binds, *devices));
    Ok(out)
}

} // verus!

verus! {

/// The display word of an input class.
pub open spec fn spec_type_name(t: InputType) -> Seq<char> {
    match t {
        InputType::Keyboard => "Keyboard"@,
        InputType::Mouse => "Mouse"@,
        InputType::Joystick => "Joystick"@,
        InputType::Gamepad => "Gamepad"@,
        InputType::Unknown => "Unknown"@,
    }
}

fn input_class_word(t: InputType) -> (r: String)
    ensures
        r@ == spec_type_name(t),
{
    match t {
        InputType::Keyboard => String::from_str("Keyboard"),
        InputType::Mouse => String::from_str("Mouse"),
        InputType::Joystick => String::from_str("Joystick"),
        InputType::Gamepad => String::from_str("Gamepad"),
        InputType::Unknown => String::from_str("Unknown"),
    }
}

/// Whether a binding is an explicit clear: device prefix, one underscore,
/// and nothing but whitespace after it (`js1_ `), at least three
/// characters long.
pub open spec fn spec_cleared_binding(input: Seq<char>) -> bool {
    let trimmed = spec_trim(input);
    trimmed.len() >= 3 && spec_split(trimmed, '_').len() == 2 && spec_all_spaces(
        spec_split(trimmed, '_')[1],
    )
}

fn cleared_binding(input: &str) -> (r: bool)
    ensures
        r == spec_cleared_binding(input@),
{
    let trimmed = trim_str(input);
    if trimmed.unicode_len() < 3 {
        return false;
    }
    let parts = split_char(trimmed, '_');
    if parts.len() != 2 {
        return false;
    }
    all_spaces(parts[1].as_str())
}

/// The default binding text of an action for one input class.
pub open spec fn spec_default_of(a: AllBindsAction, t: InputType) -> Seq<char> {
    match t {
        InputType::Keyboard => a.default_keyboard@,
        InputType::Mouse => a.default_mouse@,
        InputType::Joystick => a.default_joystick@,
        InputType::Gamepad => a.default_gamepad@,
        InputType::Unknown => Seq::empty(),
    }
}

/// The canonical prefix used when a default binding is spelled out in
/// full: `kb_`, `mouse1_`, `js1_` or `gp1_`.
pub open spec fn spec_default_prefix(t: InputType) -> Seq<char> {
    match t {
        InputType::Keyboard => "kb_"@,
        InputType::Mouse => "mouse1_"@,
        InputType::Joystick => "js1_"@,
        InputType::Gamepad => "gp1_"@,
        InputType::Unknown => Seq::empty(),
    }
}

/// The display of the default a cleared binding overrides, when the action
/// has one for that class.
pub open spec fn spec_original_default(a: AllBindsAction, t: InputType) -> Option<Seq<char>> {
    if t == InputType::Unknown {
        None
    } else {
        let d = spec_trim(spec_default_of(a, t));
        if d.len() == 0 {
            None
        } else {
            Some(spec_display_name(spec_default_prefix(t) + d))
        }
    }
}

/// The view of one merged binding row.
pub struct MergedBindingView {
    pub input: Seq<char>,
    pub display_name: Seq<char>,
    pub input_type: Seq<char>,
    pub is_default: bool,
    pub multi_tap: Option<u32>,
    pub activation_mode: Seq<char>,
    pub original_default: Option<Seq<char>>,
}

/// The merged row of one user rebind: cleared bindings count as defaults
/// and display the default they override (or `Unbound`); live bindings
/// display themselves.
pub open spec fn spec_user_binding_view(a: AllBindsAction, r: Rebind) -> MergedBindingView {
    let t = spec_input_type(r.input@);
    let cleared = spec_cleared_binding(r.input@);
    let od = if cleared {
        spec_original_default(a, t)
    } else {
        None
    };
    MergedBindingView {
        input: r.input@,
        display_name: if cleared {
            match od {
                Some(d) => d,
                None => "Unbound"@,
            }
        } else {
            spec_display_name(r.input@)
        },
        input_type: spec_type_name(t),
        is_default: cleared,
        multi_tap: r.multi_tap,
        activation_mode: r.activation_mode@,
        original_default: od,
    }
}

/// The merged row of one default binding spelled out in full.
pub open spec fn spec_default_binding_view(a: AllBindsAction, t: InputType)
    -> MergedBindingView {
    let input = spec_default_prefix(t) + spec_trim(spec_default_of(a, t));
    MergedBindingView {
        input: input,
        display_name: spec_display_name(input),
        input_type: spec_type_name(spec_input_type(input)),
        is_default: true,
        multi_tap: None,
        activation_mode: Seq::empty(),
        original_default: None,
    }
}

/// The placeholder row shown when an action has no binding at all.
pub open spec fn spec_placeholder_binding_view() -> MergedBindingView {
    MergedBindingView {
        input: "kb_ "@,
        display_name: "Unbound"@,
        input_type: "Unknown"@,
        is_default: true,
        multi_tap: None,
        activation_mode: Seq::empty(),
        original_default: None,
    }
}

/// The merged rows of the user's rebinds, in order, from index `i` up.
pub open spec fn spec_user_binding_views(a: AllBindsAction, rebinds: Seq<Rebind>, i: int)
    -> Seq<MergedBindingView>
    decreases rebinds.len() - i,
{
    if i < 0 || i >= rebinds.len() {
        Seq::empty()
    } else {
        seq![spec_user_binding_view(a, rebinds[i])] + spec_user_binding_views(a, rebinds, i + 1)
    }
}

/// Whether some row of `views` carries the given input-class word.
pub open spec fn spec_views_have_type(views: Seq<MergedBindingView>, tname: Seq<char>) -> bool {
    exists|i: int| 0 <= i < views.len() && (#[trigger] views[i]).input_type == tname
}

/// Appends the default row for class `t` when the rows do not carry that
/// class yet and the action has a non-blank default for it.
pub open spec fn spec_with_default(
    a: AllBindsAction,
    views: Seq<MergedBindingView>,
    t: InputType,
) -> Seq<MergedBindingView> {
    if !spec_views_have_type(views, spec_type_name(t)) && spec_trim(spec_default_of(a, t)).len()
        > 0 {
        views.push(spec_default_binding_view(a, t))
    } else {
        views
    }
}

/// The full merged binding list of one action: the user's rows (when any),
/// then defaults for the classes not customised, in the fixed order
/// keyboard, gamepad, joystick, mouse, and the placeholder when nothing
/// remains.
pub open spec fn spec_merged_bindings(a: AllBindsAction, user: Option<Seq<Rebind>>) -> Seq<
    MergedBindingView,
> {
    let base = match user {
        Some(rs) => spec_user_binding_views(a, rs, 0),
        None => Seq::empty(),
    };
    let b1 = spec_with_default(a, base, InputType::Keyboard);
    let b2 = spec_with_default(a, b1, InputType::Gamepad);
    let b3 = spec_with_default(a, b2, InputType::Joystick);
    let b4 = spec_with_default(a, b3, InputType::Mouse);
    if b4.len() == 0 {
        seq![spec_placeholder_binding_view()]
    } else {
        b4
    }
}

/// Whether one exec merged row presents one view faithfully.
pub open spec fn spec_mb_matches(b: MergedBinding, v: MergedBindingView) -> bool {
    &&& b.input@ == v.input
    &&& b.display_name@ == v.display_name
    &&& b.input_type@ == v.input_type
    &&& b.is_default == v.is_default
    &&& b.multi_tap == v.multi_tap
    &&& b.activation_mode@ == v.activation_mode
    &&& (match (b.original_default, v.original_default) {
        (Some(s), Some(t)) => s@ == t,
        (None, None) => true,
        _ => false,
    })
}

} // verus!

verus! {

fn original_default_of(a: &AllBindsAction, t: InputType) -> (r: Option<String>)
    ensures
        match r {
            Some(s) => spec_original_default(*a, t) == Some(s@),
            None => spec_original_default(*a, t) is None,
        },
{
    let d = match t {
        InputType::Keyboard => trim_str(a.default_keyboard.as_str()),
        InputType::Mouse => trim_str(a.default_mouse.as_str()),
        InputType::Joystick => trim_str(a.default_joystick.as_str()),
        InputType::Gamepad => trim_str(a.default_gamepad.as_str()),
        InputType::Unknown => {
            return None;
        },
    };
    if d.unicode_len() == 0 {
        return None;
    }
    let mut input = match t {
        InputType::Keyboard => String::from_str("kb_"),
        InputType::Mouse => String::from_str("mouse1_"),
        InputType::Joystick => String::from_str("js1_"),
        InputType::Gamepad => String::from_str("gp1_"),
        InputType::Unknown => String::new(),
    };
    input.append(d);
    let probe = Rebind { input, multi_tap: None, activation_mode: String::new() };
    Some(probe.get_display_name())
}

fn user_binding_row(a: &AllBindsAction, r: &Rebind) -> (b: MergedBinding)
    ensures
        spec_mb_matches(b, spec_user_binding_view(*a, *r)),
{
    let t = r.get_input_type();
    let cleared = cleared_binding(r.input.as_str());
    let od = if cleared {
        original_default_of(a, t)
    } else {
        None
    };
    let display_name = if cleared {
        match &od {
            Some(d) => d.clone(),
            None => String::from_str("Unbound"),
        }
    } else {
        r.get_display_name()
    };
    MergedBinding {
        input: r.input.clone(),
        display_name,
        input_type: input_class_word(t),
        is_default: cleared,
        multi_tap: r.multi_tap,
        activation_mode: r.activation_mode.clone(),
        original_default: od,
    }
}

fn default_binding_row(a: &AllBindsAction, t: InputType) -> (b: MergedBinding)
    requires
        t != InputType::Unknown,
    ensures
        spec_mb_matches(b, spec_default_binding_view(*a, t)),
{
    let d = match t {
        InputType::Keyboard => trim_str(a.default_keyboard.as_str()),
        InputType::Mouse => trim_str(a.default_mouse.as_str()),
        InputType::Joystick => trim_str(a.default_joystick.as_str()),
        InputType::Gamepad => trim_str(a.default_gamepad.as_str()),
        InputType::Unknown => trim_str(""),
    };
    let mut input = match t {
        InputType::Keyboard => String::from_str("kb_"),
        InputType::Mouse => String::from_str("mouse1_"),
        InputType::Joystick => String::from_str("js1_"),
        InputType::Gamepad => String::from_str("gp1_"),
        InputType::Unknown => String::new(),
    };
    input.append(d);
    let probe = Rebind {
        input: input.clone(),
        multi_tap: None,
        activation_mode: String::new(),
    };
    let display_name = probe.get_display_name();
    let ty = probe.get_input_type();
    MergedBinding {
        input,
        display_name,
        input_type: input_class_word(ty),
        is_default: true,
        multi_tap: None,
        activation_mode: String::new(),
        original_default: None,
    }
}

fn rows_have_type(rows: &Vec<MergedBinding>, views: Ghost<Seq<MergedBindingView>>, word: &str)
    -> (r: bool)
    requires
        rows@.len() == views@.len(),
        forall|k: int| 0 <= k < rows@.len() ==> spec_mb_matches(#[trigger] rows@[k], views@[k]),
    ensures
        r == spec_views_have_type(views@, word@),
{
    let n = rows.len();
    let mut i: usize = 0;
    while i < n
        invariant
            n == rows@.len(),
            rows@.len() == views@.len(),
            forall|k: int| 0 <= k < rows@.len() ==> spec_mb_matches(
                #[trigger] rows@[k],
                views@[k],
            ),
            i <= n,
            forall|k: int| 0 <= k < i ==> (#[trigger] views@[k]).input_type != word@,
        decreases n - i,
    {
        if crate::text::str_eq(rows[i].input_type.as_str(), word) {
            assert(views@[i as int].input_type == word@);
            return true;
        }
        i = i + 1;
    }
    false
}

/// Builds the merged binding list of one action from the user's rebinds
/// (when the action is customised) and the action's defaults.
fn merged_bindings_of(a: &AllBindsAction, user: Option<&Vec<Rebind>>) -> (r: Vec<MergedBinding>)
    ensures
        ({
            let views = spec_merged_bindings(
                *a,
                match user {
                    Some(rs) => Some(rs@),
                    None => None,
                },
            );
            r@.len() == views.len() && forall|k: int| 0 <= k < r@.len() ==> spec_mb_matches(
                #[trigger] r@[k],
                views[k],
            )
        }),
{
    let mut rows: Vec<MergedBinding> = Vec::new();
    let ghost base_views: Seq<MergedBindingView> = match user {
        Some(rs) => spec_user_binding_views(*a, rs@, 0),
        None => Seq::empty(),
    };
    let ghost mut views: Seq<MergedBindingView> = Seq::empty();
    if let Some(rs) = user {
        let n = rs.len();
        let mut i: usize = 0;
        while i < n
            invariant
                n == rs@.len(),
                i <= n,
                rows@.len() == views.len(),
                forall|k: int| 0 <= k < rows@.len() ==> spec_mb_matches(
                    #[trigger] rows@[k],
                    views[k],
                ),
                base_views == spec_user_binding_views(*a, rs@, 0),
                base_views == views + spec_user_binding_views(*a, rs@, i as int),
            decreases n - i,
        {
            let row = user_binding_row(a, &rs[i]);
            rows.push(row);
            proof {
                let v = spec_user_binding_view(*a, rs@[i as int]);
                assert(views + (seq![v] + spec_user_binding_views(*a, rs@, i as int + 1))
                    =~= views.push(v) + spec_user_binding_views(*a, rs@, i as int + 1));
                views = views.push(v);
            }
            i = i + 1;
        }
        proof {
            assert(spec_user_binding_views(*a, rs@, n as int) =~= Seq::<MergedBindingView>::empty());
            assert(views + Seq::<MergedBindingView>::empty() =~= views);
            assert(views == base_views);
        }
    }
    proof {
        assert(views == base_views);
    }
    let kb_word = input_class_word(InputType::Keyboard);
    if !rows_have_type(&rows, Ghost(views), kb_word.as_str()) && trim_str(
        a.default_keyboard.as_str(),
    ).unicode_len() > 0 {
        rows.push(default_binding_row(a, InputType::Keyboard));
        proof {
            views = spec_with_default(*a, views, InputType::Keyboard);
        }
    } else {
        proof {
            assert(spec_with_default(*a, views, InputType::Keyboard) == views);
        }
    }
    let gp_word = input_class_word(InputType::Gamepad);
    if !rows_have_type(&rows, Ghost(views), gp_word.as_str()) && trim_str(
        a.default_gamepad.as_str(),
    ).unicode_len() > 0 {
        rows.push(default_binding_row(a, InputType::Gamepad));
        proof {
            views = spec_with_default(*a, views, InputType::Gamepad);
        }
    } else {
        proof {
            assert(spec_with_default(*a, views, InputType::Gamepad) == views);
        }
    }
    let js_word = input_class_word(InputType::Joystick);
    if !rows_have_type(&rows, Ghost(views), js_word.as_str()) && trim_str(
        a.default_joystick.as_str(),
    ).unicode_len() > 0 {
        rows.push(default_binding_row(a, InputType::Joystick));
        proof {
            views = spec_with_default(*a, views, InputType::Joystick);
        }
    } else {
        proof {
            assert(spec_with_default(*a, views, InputType::Joystick) == views);
        }
    }
    let mouse_word = input_class_word(InputType::Mouse);
    if !rows_have_type(&rows, Ghost(views), mouse_word.as_str()) && trim_str(
        a.default_mouse.as_str(),
    ).unicode_len() > 0 {
        rows.push(default_binding_row(a, InputType::Mouse));
        proof {
            views = spec_with_default(*a, views, InputType::Mouse);
        }
    } else {
        proof {
            assert(spec_with_default(*a, views, InputType::Mouse) == views);
        }
    }
    if rows.len() == 0 {
        rows.push(
            MergedBinding {
                input: String::from_str("kb_ "),
                display_name: String::from_str("Unbound"),
                input_type: String::from_str("Unknown"),
                is_default: true,
                multi_tap: None,
                activation_mode: String::new(),
                original_default: None,
            },
        );
        proof {
            views = seq![spec_placeholder_binding_view()];
        }
    }
    rows
}

} // verus!

verus! {

/// A UI label when one is present and is not a localisation key (leading
/// `@`); otherwise the raw name.
pub open spec fn spec_label_or_name(ui_label: Seq<char>, name: Seq<char>) -> Seq<char> {
    if ui_label.len() > 0 && ui_label[0] != '@' {
        ui_label
    } else {
        name
    }
}

fn label_or_name(ui_label: &String, name: &String) -> (r: String)
    ensures
        r@ == spec_label_or_name(ui_label@, name@),
{
    let s = ui_label.as_str();
    if s.unicode_len() > 0 && s.get_char(0) != '@' {
        ui_label.clone()
    } else {
        name.clone()
    }
}

/// The rebinds of the last user action matching the name, if any.
pub open spec fn spec_find_action_last(actions: Seq<Action>, aname: Seq<char>) -> Option<
    Seq<Rebind>,
>
    decreases actions.len(),
{
    if actions.len() == 0 {
        None
    } else if actions.last().name@ == aname {
        Some(actions.last().rebinds@)
    } else {
        spec_find_action_last(actions.drop_last(), aname)
    }
}

/// The rebinds the user holds for the named action of the named map; when
/// several user entries collide, the one written last wins.
pub open spec fn spec_find_user(
    user: Seq<ActionMap>,
    mname: Seq<char>,
    aname: Seq<char>,
) -> Option<Seq<Rebind>>
    decreases user.len(),
{
    if user.len() == 0 {
        None
    } else {
        let m = user.last();
        if m.name@ == mname && spec_find_action_last(m.actions@, aname) is Some {
            spec_find_action_last(m.actions@, aname)
        } else {
            spec_find_user(user.drop_last(), mname, aname)
        }
    }
}

fn find_action_last<'a>(actions: &'a Vec<Action>, aname: &str) -> (r: Option<&'a Vec<Rebind>>)
    ensures
        match r {
            Some(v) => spec_find_action_last(actions@, aname@) == Some(v@),
            None => spec_find_action_last(actions@, aname@) is None,
        },
{
    let n = actions.len();
    let mut i: usize = n;
    proof {
        assert(actions@.take(n as int) =~= actions@);
    }
    while i > 0
        invariant
            n == actions@.len(),
            i <= n,
            spec_find_action_last(actions@, aname@) == spec_find_action_last(
                actions@.take(i as int),
                aname@,
            ),
        decreases i,
    {
        proof {
            assert(actions@.take(i as int).last() == actions@[i as int - 1]);
            assert(actions@.take(i as int).drop_last() =~= actions@.take(i as int - 1));
        }
        if crate::text::str_eq(actions[i - 1].name.as_str(), aname) {
            return Some(&actions[i - 1].rebinds);
        }
        i = i - 1;
    }
    proof {
        assert(actions@.take(0) =~= Seq::<Action>::empty());
    }
    None
}

fn find_user<'a>(user: &'a Vec<ActionMap>, mname: &str, aname: &str) -> (r: Option<&'a Vec<
    Rebind,
>>)
    ensures
        match r {
            Some(v) => spec_find_user(user@, mname@, aname@) == Some(v@),
            None => spec_find_user(user@, mname@, aname@) is None,
        },
{
    let n = user.len();
    let mut i: usize = n;
    proof {
        assert(user@.take(n as int) =~= user@);
    }
    while i > 0
        invariant
            n == user@.len(),
            i <= n,
            spec_find_user(user@, mname@, aname@) == spec_find_user(
                user@.take(i as int),
                mname@,
                aname@,
            ),
        decreases i,
    {
        proof {
            assert(user@.take(i as int).last() == user@[i as int - 1]);
            assert(user@.take(i as int).drop_last() =~= user@.take(i as int - 1));
        }
        if crate::text::str_eq(user[i - 1].name.as_str(), mname) {
            if let Some(v) = find_action_last(&user[i - 1].actions, aname) {
                return Some(v);
            }
        }
        i = i - 1;
    }
    proof {
        assert(user@.take(0) =~= Seq::<ActionMap>::empty());
    }
    None
}

/// Whether one merged action presents one master action faithfully under
/// the user's customisations: metadata carried over, the label chosen by
/// the localisation rule, customisation flagged exactly when the user
/// holds rebinds for it, and the binding rows as the merge defines them.
pub open spec fn spec_merged_action_ok(
    r: MergedAction,
    a: AllBindsAction,
    user: Option<Seq<ActionMap>>,
    mname: Seq<char>,
) -> bool {
    let found = match user {
        Some(maps) => spec_find_user(maps, mname, a.name@),
        None => None,
    };
    let views = spec_merged_bindings(a, found);
    &&& r.name@ == a.name@
    &&& r.ui_label@ == spec_label_or_name(a.ui_label@, a.name@)
    &&& r.ui_description@ == a.ui_description@
    &&& r.category@ == a.category@
    &&& r.is_customized == (match found {
        Some(rs) => rs.len() > 0,
        None => false,
    })
    &&& r.on_hold == a.on_hold
    &&& r.bindings@.len() == views.len()
    &&& forall|k: int| 0 <= k < r.bindings@.len() ==> spec_mb_matches(
        #[trigger] r.bindings@[k],
        views[k],
    )
}

impl AllBinds {
    /// Merges the master action list with the user's customisations: every
    /// master action appears, carrying the user's rows where the user
    /// customised it and the defaults everywhere else.  Labels fall back to
    /// the raw action-map and action names when no displayable UI label is
    /// present.
    pub fn merge_with_user_bindings(&self, user_bindings: Option<&ActionMaps>) -> (r:
        MergedBindings)
        ensures
            r.action_maps@.len() == self.action_maps@.len(),
            forall|i: int| 0 <= i < r.action_maps@.len() ==> {
                let rm = #[trigger] r.action_maps@[i];
                let am = self.action_maps@[i];
                rm.name@ == am.name@ && rm.ui_category@ == am.ui_category@ && rm.ui_label@
                    == spec_label_or_name(am.ui_label@, am.name@) && rm.actions@.len()
                    == am.actions@.len() && forall|j: int|
                    0 <= j < rm.actions@.len() ==> spec_merged_action_ok(
                        #[trigger] rm.actions@[j],
                        am.actions@[j],
                        match user_bindings {
                            Some(u) => Some(u.action_maps@),
                            None => None,
                        },
                        am.name@,
                    )
            },
    {
        let mut merged_maps: Vec<MergedActionMap> = Vec::new();
        let n = self.action_maps.len();
        let mut i: usize = 0;
        while i < n
            invariant
                n == self.action_maps@.len(),
                i <= n,
                merged_maps@.len() == i,
                forall|q: int| 0 <= q < i ==> {
                    let rm = #[trigger] merged_maps@[q];
                    let am = self.action_maps@[q];
                    rm.name@ == am.name@ && rm.ui_category@ == am.ui_category@ && rm.ui_label@
                        == spec_label_or_name(am.ui_label@, am.name@) && rm.actions@.len()
                        == am.actions@.len() && forall|j: int|
                        0 <= j < rm.actions@.len() ==> spec_merged_action_ok(
                            #[trigger] rm.actions@[j],
                            am.actions@[j],
                            match user_bindings {
                                Some(u) => Some(u.action_maps@),
                                None => None,
                            },
                            am.name@,
                        )
                },
            decreases n - i,
        {
            let am = &self.action_maps[i];
            let mut actions: Vec<MergedAction> = Vec::new();
            let an = am.actions.len();
            let mut j: usize = 0;
            while j < an
                invariant
                    i < n,
                    n == self.action_maps@.len(),
                    am.name@ == self.action_maps@[i as int].name@,
                    am.actions@ == self.action_maps@[i as int].actions@,
                    an == am.actions@.len(),
                    j <= an,
                    actions@.len() == j,
                    forall|q: int| 0 <= q < j ==> spec_merged_action_ok(
                        #[trigger] actions@[q],
                        self.action_maps@[i as int].actions@[q],
                        match user_bindings {
                            Some(u) => Some(u.action_maps@),
                            None => None,
                        },
                        self.action_maps@[i as int].name@,
                    ),
                decreases an - j,
            {
                let a = &am.actions[j];
                let found = match user_bindings {
                    Some(u) => find_user(&u.action_maps, am.name.as_str(), a.name.as_str()),
                    None => None,
                };
                let is_customized = match found {
                    Some(rs) => rs.len() > 0,
                    None => false,
                };
                let bindings = merged_bindings_of(a, found);
                let merged = MergedAction {
                    name: a.name.clone(),
                    ui_label: label_or_name(&a.ui_label, &a.name),
                    ui_description: a.ui_description.clone(),
                    category: a.category.clone(),
                    is_customized,
                    on_hold: a.on_hold,
                    bindings,
                };
                actions.push(merged);
                j = j + 1;
            }
            let merged_map = MergedActionMap {
                name: am.name.clone(),
                ui_label: label_or_name(&am.ui_label, &am.name),
                ui_category: am.ui_category.clone(),
                actions,
            };
            merged_maps.push(merged_map);
            i = i + 1;
        }
        MergedBindings { action_maps: merged_maps }
    }
}

} // verus!

verus! {

// ---------------------------------------------------------------------------
// Parsing profiles from the document event stream
// ---------------------------------------------------------------------------

/// The view of one parsed rebind.
pub struct RebindView {
    pub input: Seq<char>,
    pub multi_tap: Option<u32>,
    pub activation_mode: Seq<char>,
}

/// The view of one parsed action.
pub struct ActionView {
    pub name: Seq<char>,
    pub rebinds: Seq<RebindView>,
}

/// The view of one parsed action map.
pub struct ActionMapView {
    pub name: Seq<char>,
    pub actions: Seq<ActionView>,
}

/// The view of a whole parsed profile.
pub struct ProfileView {
    pub profile_name: Seq<char>,
    pub action_maps: Seq<ActionMapView>,
    pub categories: Seq<Seq<char>>,
    pub keyboards: Seq<Seq<char>>,
    pub mice: Seq<Seq<char>>,
    pub joysticks: Seq<Seq<char>>,
}

pub open spec fn spec_view_of_rebind(r: Rebind) -> RebindView {
    RebindView { input: r.input@, multi_tap: r.multi_tap, activation_mode: r.activation_mode@ }
}

pub open spec fn spec_view_of_action(a: Action) -> ActionView {
    ActionView { name: a.name@, rebinds: a.rebinds@.map_values(|r: Rebind| spec_view_of_rebind(r)) }
}

pub open spec fn spec_view_of_map(m: ActionMap) -> ActionMapView {
    ActionMapView {
        name: m.name@,
        actions: m.actions@.map_values(|a: Action| spec_view_of_action(a)),
    }
}

pub open spec fn spec_view_of_profile(m: ActionMaps) -> ProfileView {
    ProfileView {
        profile_name: m.profile_name@,
        action_maps: m.action_maps@.map_values(|am: ActionMap| spec_view_of_map(am)),
        categories: m.categories@.map_values(|c: Category| c.label@),
        keyboards: m.devices.keyboards@.map_values(|s: String| s@),
        mice: m.devices.mice@.map_values(|s: String| s@),
        joysticks: m.devices.joysticks@.map_values(|s: String| s@),
    }
}

/// The parser state between events: what has been finished, and the action
/// map and action currently open.
pub struct ProfileParse {
    pub profile: ProfileView,
    pub current_map: Option<ActionMapView>,
    pub current_action: Option<ActionView>,
}

/// The state before any event: everything empty, nothing open.
pub open spec fn spec_profile_init() -> ProfileParse {
    ProfileParse {
        profile: ProfileView {
            profile_name: Seq::empty(),
            action_maps: Seq::empty(),
            categories: Seq::empty(),
            keyboards: Seq::empty(),
            mice: Seq::empty(),
            joysticks: Seq::empty(),
        },
        current_map: None,
        current_action: None,
    }
}

/// An attribute's value, or the empty text when the tag lacks it.
pub open spec fn spec_attr_or_empty(attrs: Seq<(String, String)>, name: Seq<char>) -> Seq<char> {
    match crate::xml_events::spec_attr_value(attrs, name) {
        Some(v) => v,
        None => Seq::empty(),
    }
}

/// The multi-tap count parsed from an attribute: present exactly when the
/// attribute exists, is all digits and fits.
pub open spec fn spec_multi_tap_of(v: Option<Seq<char>>) -> Option<u32> {
    match v {
        Some(s) => if s.len() > 0 && crate::text::all_dec_digits(s)
            && crate::text::spec_dec_value(s) <= u32::MAX {
            Some(crate::text::spec_dec_value(s) as u32)
        } else {
            None
        },
        None => None,
    }
}

/// One parser step: what each non-terminal event does to the state.
/// `ActionMaps` sets the profile name; `category` and `options` extend the
/// header lists; `actionmap` and `action` open fresh containers (discarding
/// any still open); `rebind` appends to the open action; the two closing
/// tags finish the open action or map (an action closed outside a map is
/// dropped).  Anything else changes nothing.
pub open spec fn spec_profile_step(st: ProfileParse, ev: XmlEvent) -> ProfileParse {
    match ev {
        XmlEvent::Open { name, attrs } => {
            if name@ == "ActionMaps"@ {
                match crate::xml_events::spec_attr_value(attrs@, "profileName"@) {
                    Some(v) => ProfileParse {
                        profile: ProfileView { profile_name: v, ..st.profile },
                        ..st
                    },
                    None => st,
                }
            } else if name@ == "category"@ {
                match crate::xml_events::spec_attr_value(attrs@, "label"@) {
                    Some(l) => if l.len() > 0 {
                        ProfileParse {
                            profile: ProfileView {
                                categories: st.profile.categories.push(l),
                                ..st.profile
                            },
                            ..st
                        }
                    } else {
                        st
                    },
                    None => st,
                }
            } else if name@ == "options"@ {
                let ty = spec_attr_or_empty(attrs@, "type"@);
                let product = spec_attr_or_empty(attrs@, "Product"@);
                if product.len() > 0 {
                    if ty == "keyboard"@ {
                        ProfileParse {
                            profile: ProfileView {
                                keyboards: st.profile.keyboards.push(product),
                                ..st.profile
                            },
                            ..st
                        }
                    } else if ty == "mouse"@ {
                        ProfileParse {
                            profile: ProfileView {
                                mice: st.profile.mice.push(product),
                                ..st.profile
                            },
                            ..st
                        }
                    } else if ty == "joystick"@ {
                        ProfileParse {
                            profile: ProfileView {
                                joysticks: st.profile.joysticks.push(product),
                                ..st.profile
                            },
                            ..st
                        }
                    } else {
                        st
                    }
                } else {
                    st
                }
            } else if name@ == "actionmap"@ {
                ProfileParse {
                    current_map: Some(
                        ActionMapView {
                            name: spec_attr_or_empty(attrs@, "name"@),
                            actions: Seq::empty(),
                        },
                    ),
                    ..st
                }
            } else if name@ == "action"@ {
                ProfileParse {
                    current_action: Some(
                        ActionView {
                            name: spec_attr_or_empty(attrs@, "name"@),
                            rebinds: Seq::empty(),
                        },
                    ),
                    ..st
                }
            } else if name@ == "rebind"@ {
                match st.current_action {
                    Some(a) => ProfileParse {
                        current_action: Some(
                            ActionView {
                                name: a.name,
                                rebinds: a.rebinds.push(
                                    RebindView {
                                        input: spec_attr_or_empty(attrs@, "input"@),
                                        multi_tap: spec_multi_tap_of(
                                            crate::xml_events::spec_attr_value(
                                                attrs@,
                                                "multiTap"@,
                                            ),
                                        ),
                                        activation_mode: spec_attr_or_empty(
                                            attrs@,
                                            "activationMode"@,
                                        ),
                                    },
                                ),
                            },
                        ),
                        ..st
                    },
                    None => st,
                }
            } else {
                st
            }
        },
        XmlEvent::Close { name } => {
            if name@ == "action"@ {
                match st.current_action {
                    Some(a) => match st.current_map {
                        Some(m) => ProfileParse {
                            current_map: Some(
                                ActionMapView { name: m.name, actions: m.actions.push(a) },
                            ),
                            current_action: None,
                            ..st
                        },
                        None => ProfileParse { current_action: None, ..st },
                    },
                    None => st,
                }
            } else if name@ == "actionmap"@ {
                match st.current_map {
                    Some(m) => ProfileParse {
                        profile: ProfileView {
                            action_maps: st.profile.action_maps.push(m),
                            ..st.profile
                        },
                        current_map: None,
                        ..st
                    },
                    None => st,
                }
            } else {
                st
            }
        },
        _ => st,
    }
}

/// The fold of the parser over an event stream: the finished profile at the
/// end marker (or at stream end), the error text at a malformed event.
pub open spec fn spec_parse_profile(events: Seq<XmlEvent>, st: ProfileParse) -> Result<
    ProfileView,
    Seq<char>,
>
    decreases events.len(),
{
    if events.len() == 0 {
        Ok(st.profile)
    } else {
        match events[0] {
            XmlEvent::EndOfDocument => Ok(st.profile),
            XmlEvent::Malformed { message } => Err("XML parsing error: "@ + message@),
            _ => spec_parse_profile(events.drop_first(), spec_profile_step(st, events[0])),
        }
    }
}

} // verus!

verus! {

/// The shape of a stream the document reader returns: at least the
/// terminal event, which comes last and only last.
pub open spec fn spec_event_stream(events: Seq<XmlEvent>) -> bool {
    &&& events.len() >= 1
    &&& crate::xml_events::spec_terminal_event(events.last())
    &&& forall|i: int| 0 <= i < events.len() - 1 ==> !crate::xml_events::spec_terminal_event(
        #[trigger] events[i],
    )
}

/// Whether a parse result is the fold of the parser over the events.
pub open spec fn spec_profile_result_matches(
    r: Result<ActionMaps, String>,
    events: Seq<XmlEvent>,
) -> bool {
    match (r, spec_parse_profile(events, spec_profile_init())) {
        (Ok(m), Ok(v)) => spec_view_of_profile(m) == v,
        (Err(e), Err(msg)) => e@ == msg,
        _ => false,
    }
}

/// Every parse error carries the parse-error prefix.
pub proof fn lemma_parse_profile_err_prefix(events: Seq<XmlEvent>, st: ProfileParse)
    ensures
        spec_parse_profile(events, st) matches Err(msg) ==> spec_starts_with(
            msg,
            "XML parsing error: "@,
        ),
    decreases events.len(),
{
    if events.len() > 0 {
        match events[0] {
            XmlEvent::Malformed { message } => {
                assert(("XML parsing error: "@ + message@).subrange(
                    0,
                    "XML parsing error: "@.len() as int,
                ) =~= "XML parsing error: "@);
            },
            XmlEvent::EndOfDocument => {},
            _ => {
                lemma_parse_profile_err_prefix(events.drop_first(), spec_profile_step(
                    st,
                    events[0],
                ));
            },
        }
    }
}

impl ActionMaps {
    /// Builds a profile from a document's events: exactly the fold of
    /// `spec_profile_step` up to the first terminal event (or the stream's
    /// end), failing with the malformed event's message.
    pub fn from_events(events: &Vec<XmlEvent>) -> (r: Result<ActionMaps, String>)
        ensures
            spec_profile_result_matches(r, events@),
    {
        let mut profile_name = String::new();
        let mut action_maps: Vec<ActionMap> = Vec::new();
        let mut categories: Vec<Category> = Vec::new();
        let mut keyboards: Vec<String> = Vec::new();
        let mut mice: Vec<String> = Vec::new();
        let mut joysticks: Vec<String> = Vec::new();
        let mut current_map: Option<ActionMap> = None;
        let mut current_action: Option<Action> = None;
        let ghost mut st = spec_profile_init();
        let ghost full = spec_parse_profile(events@, spec_profile_init());
        let n = events.len();
        let mut i: usize = 0;
        proof {
            assert(events@.skip(0) =~= events@);
            assert(Seq::<ActionMap>::empty().map_values(|am: ActionMap| spec_view_of_map(am))
                =~= Seq::<ActionMapView>::empty());
            assert(Seq::<Category>::empty().map_values(|c: Category| c.label@)
                =~= Seq::<Seq<char>>::empty());
            assert(Seq::<String>::empty().map_values(|s: String| s@)
                =~= Seq::<Seq<char>>::empty());
        }
        while i < n
            invariant
                n == events@.len(),
                i <= n,
                full == spec_parse_profile(events@, spec_profile_init()),
                full == spec_parse_profile(events@.skip(i as int), st),
                profile_name@ == st.profile.profile_name,
                action_maps@.map_values(|am: ActionMap| spec_view_of_map(am))
                    == st.profile.action_maps,
                categories@.map_values(|c: Category| c.label@) == st.profile.categories,
                keyboards@.map_values(|s: String| s@) == st.profile.keyboards,
                mice@.map_values(|s: String| s@) == st.profile.mice,
                joysticks@.map_values(|s: String| s@) == st.profile.joysticks,
                (match current_map {
                    Some(m) => st.current_map matches Some(v) && m.name@ == v.name
                        && m.actions@.map_values(|a: Action| spec_view_of_action(a)) == v.actions,
                    None => st.current_map is None,
                }),
                (match current_action {
                    Some(a) => st.current_action matches Some(v) && a.name@ == v.name
                        && a.rebinds@.map_values(|r: Rebind| spec_view_of_rebind(r)) == v.rebinds,
                    None => st.current_action is None,
                }),
            decreases n - i,
        {
            proof {
                assert(events@.skip(i as int)[0] == events@[i as int]);
                assert(events@.skip(i as int).drop_first() =~= events@.skip(i as int + 1));
            }
            let ghost prev = st;
            match &events[i] {
                XmlEvent::EndOfDocument => {
                    return Ok(
                        ActionMaps {
                            profile_name,
                            action_maps,
                            categories,
                            devices: DeviceInfo { keyboards, mice, joysticks },
                        },
                    );
                },
                XmlEvent::Malformed { message } => {
                    let mut m = String::from_str("XML parsing error: ");
                    m.append(message.as_str());
                    assert(m@ =~= "XML parsing error: "@ + message@);
                    return Err(m);
                },
                XmlEvent::Open { name, attrs } => {
                    proof {
                        st = spec_profile_step(prev, events@[i as int]);
                    }
                    if crate::text::str_eq(name.as_str(), "ActionMaps") {
                        if let Some(v) = crate::xml_events::attr_value(attrs, "profileName") {
                            profile_name = v;
                        }
                    } else if crate::text::str_eq(name.as_str(), "category") {
                        if let Some(label) = crate::xml_events::attr_value(attrs, "label") {
                            if label.unicode_len() > 0 {
                                let ghost old_cats = categories@;
                                categories.push(Category { label });
                                proof {
                                    assert(categories@.map_values(|c: Category| c.label@)
                                        =~= old_cats.map_values(|c: Category| c.label@).push(
                                        categories@.last().label@,
                                    ));
                                }
                            }
                        }
                    } else if crate::text::str_eq(name.as_str(), "options") {
                        let device_type = match crate::xml_events::attr_value(attrs, "type") {
                            Some(v) => v,
                            None => String::new(),
                        };
                        let product = match crate::xml_events::attr_value(attrs, "Product") {
                            Some(v) => v,
                            None => String::new(),
                        };
                        if product.unicode_len() > 0 {
                            if crate::text::str_eq(device_type.as_str(), "keyboard") {
                                let ghost old_v = keyboards@;
                                keyboards.push(product);
                                proof {
                                    assert(keyboards@.map_values(|s: String| s@)
                                        =~= old_v.map_values(|s: String| s@).push(
                                        keyboards@.last()@,
                                    ));
                                }
                            } else if crate::text::str_eq(device_type.as_str(), "mouse") {
                                let ghost old_v = mice@;
                                mice.push(product);
                                proof {
                                    assert(mice@.map_values(|s: String| s@)
                                        =~= old_v.map_values(|s: String| s@).push(mice@.last()@));
                                }
                            } else if crate::text::str_eq(device_type.as_str(), "joystick") {
                                let ghost old_v = joysticks@;
                                joysticks.push(product);
                                proof {
                                    assert(joysticks@.map_values(|s: String| s@)
                                        =~= old_v.map_values(|s: String| s@).push(
                                        joysticks@.last()@,
                                    ));
                                }
                            }
                        }
                    } else if crate::text::str_eq(name.as_str(), "actionmap") {
                        let map_name = match crate::xml_events::attr_value(attrs, "name") {
                            Some(v) => v,
                            None => String::new(),
                        };
                        current_map = Some(ActionMap { name: map_name, actions: Vec::new() });
                        proof {
                            assert(Seq::<Action>::empty().map_values(
                                |a: Action| spec_view_of_action(a),
                            ) =~= Seq::<ActionView>::empty());
                        }
                    } else if crate::text::str_eq(name.as_str(), "action") {
                        let action_name = match crate::xml_events::attr_value(attrs, "name") {
                            Some(v) => v,
                            None => String::new(),
                        };
                        current_action = Some(Action { name: action_name, rebinds: Vec::new() });
                        proof {
                            assert(Seq::<Rebind>::empty().map_values(
                                |r: Rebind| spec_view_of_rebind(r),
                            ) =~= Seq::<RebindView>::empty());
                        }
                    } else if crate::text::str_eq(name.as_str(), "rebind") {
                        let input = match crate::xml_events::attr_value(attrs, "input") {
                            Some(v) => v,
                            None => String::new(),
                        };
                        let multi_tap = match crate::xml_events::attr_value(attrs, "multiTap") {
                            Some(v) => crate::text::parse_dec_u32(v.as_str()),
                            None => None,
                        };
                        proof {
                            assert(multi_tap == spec_multi_tap_of(
                                crate::xml_events::spec_attr_value(attrs@, "multiTap"@),
                            ));
                        }
                        let activation_mode = match crate::xml_events::attr_value(
                            attrs,
                            "activationMode",
                        ) {
                            Some(v) => v,
                            None => String::new(),
                        };
                        if let Some(action) = &mut current_action {
                            let ghost old_r = action.rebinds@;
                            action.rebinds.push(Rebind { input, multi_tap, activation_mode });
                            proof {
                                assert(action.rebinds@.map_values(
                                    |r: Rebind| spec_view_of_rebind(r),
                                ) =~= old_r.map_values(|r: Rebind| spec_view_of_rebind(r)).push(
                                    spec_view_of_rebind(action.rebinds@.last()),
                                ));
                            }
                        }
                    }
                },
                XmlEvent::Close { name } => {
                    proof {
                        st = spec_profile_step(prev, events@[i as int]);
                    }
                    if crate::text::str_eq(name.as_str(), "action") {
                        let finished = current_action;
                        current_action = None;
                        if let Some(action) = finished {
                            if let Some(map) = &mut current_map {
                                let ghost old_a = map.actions@;
                                map.actions.push(action);
                                proof {
                                    assert(map.actions@.map_values(
                                        |a: Action| spec_view_of_action(a),
                                    ) =~= old_a.map_values(|a: Action| spec_view_of_action(a)).push(
                                        spec_view_of_action(map.actions@.last()),
                                    ));
                                }
                            }
                        }
                    } else if crate::text::str_eq(name.as_str(), "actionmap") {
                        let finished = current_map;
                        current_map = None;
                        if let Some(map) = finished {
                            let ghost old_m = action_maps@;
                            action_maps.push(map);
                            proof {
                                assert(action_maps@.map_values(|am: ActionMap| spec_view_of_map(am))
                                    =~= old_m.map_values(|am: ActionMap| spec_view_of_map(am)).push(
                                    spec_view_of_map(action_maps@.last()),
                                ));
                            }
                        }
                    }
                },
                XmlEvent::Other => {
                    proof {
                        st = spec_profile_step(prev, events@[i as int]);
                    }
                },
            }
            i = i + 1;
        }
        proof {
            assert(events@.skip(n as int) =~= Seq::<XmlEvent>::empty());
        }
        Ok(
            ActionMaps {
                profile_name,
                action_maps,
                categories,
                devices: DeviceInfo { keyboards, mice, joysticks },
            },
        )
    }
}

} // verus!

verus! {

/// The view of one parsed master-list action.
pub struct AllBindsActionView {
    pub name: Seq<char>,
    pub ui_label: Seq<char>,
    pub ui_description: Seq<char>,
    pub category: Seq<char>,
    pub activation_mode: Seq<char>,
    pub on_hold: bool,
    pub default_keyboard: Seq<char>,
    pub default_mouse: Seq<char>,
    pub default_gamepad: Seq<char>,
    pub default_joystick: Seq<char>,
}

/// The view of one parsed master-list action map.
pub struct AllBindsMapView {
    pub name: Seq<char>,
    pub version: Seq<char>,
    pub ui_label: Seq<char>,
    pub ui_category: Seq<char>,
    pub actions: Seq<AllBindsActionView>,
}

pub open spec fn spec_view_of_binds_action(a: AllBindsAction) -> AllBindsActionView {
    AllBindsActionView {
        name: a.name@,
        ui_label: a.ui_label@,
        ui_description: a.ui_description@,
        category: a.category@,
        activation_mode: a.activation_mode@,
        on_hold: a.on_hold,
        default_keyboard: a.default_keyboard@,
        default_mouse: a.default_mouse@,
        default_gamepad: a.default_gamepad@,
        default_joystick: a.default_joystick@,
    }
}

pub open spec fn spec_view_of_binds_map(m: AllBindsActionMap) -> AllBindsMapView {
    AllBindsMapView {
        name: m.name@,
        version: m.version@,
        ui_label: m.ui_label@,
        ui_category: m.ui_category@,
        actions: m.actions@.map_values(|a: AllBindsAction| spec_view_of_binds_action(a)),
    }
}

/// The master-list parser state: the finished maps and the one still open.
pub struct BindsParse {
    pub maps: Seq<AllBindsMapView>,
    pub current: Option<AllBindsMapView>,
}

pub open spec fn spec_binds_init() -> BindsParse {
    BindsParse { maps: Seq::empty(), current: None }
}

/// One master-list parser step: `actionmap` opens a fresh map (discarding
/// any still open), `action` appends to the open map and is dropped outside
/// one, the closing tag finishes the open map; anything else changes
/// nothing.
pub open spec fn spec_binds_step(st: BindsParse, ev: XmlEvent) -> BindsParse {
    match ev {
        XmlEvent::Open { name, attrs } => {
            if name@ == "actionmap"@ {
                BindsParse {
                    current: Some(
                        AllBindsMapView {
                            name: spec_attr_or_empty(attrs@, "name"@),
                            version: spec_attr_or_empty(attrs@, "version"@),
                            ui_label: spec_attr_or_empty(attrs@, "UILabel"@),
                            ui_category: spec_attr_or_empty(attrs@, "UICategory"@),
                            actions: Seq::empty(),
                        },
                    ),
                    ..st
                }
            } else if name@ == "action"@ {
                match st.current {
                    Some(m) => BindsParse {
                        current: Some(
                            AllBindsMapView {
                                actions: m.actions.push(
                                    AllBindsActionView {
                                        name: spec_attr_or_empty(attrs@, "name"@),
                                        ui_label: spec_attr_or_empty(attrs@, "UILabel"@),
                                        ui_description: spec_attr_or_empty(
                                            attrs@,
                                            "UIDescription"@,
                                        ),
                                        category: spec_attr_or_empty(attrs@, "Category"@),
                                        activation_mode: spec_attr_or_empty(
                                            attrs@,
                                            "activationMode"@,
                                        ),
                                        on_hold: (match crate::xml_events::spec_attr_value(
                                            attrs@,
                                            "onHold"@,
                                        ) {
                                            Some(v) => v == "1"@,
                                            None => false,
                                        }),
                                        default_keyboard: spec_attr_or_empty(attrs@, "keyboard"@),
                                        default_mouse: spec_attr_or_empty(attrs@, "mouse"@),
                                        default_gamepad: spec_attr_or_empty(attrs@, "gamepad"@),
                                        default_joystick: spec_attr_or_empty(attrs@, "joystick"@),
                                    },
                                ),
                                ..m
                            },
                        ),
                        ..st
                    },
                    None => st,
                }
            } else {
                st
            }
        },
        XmlEvent::Close { name } => {
            if name@ == "actionmap"@ {
                match st.current {
                    Some(m) => BindsParse { maps: st.maps.push(m), current: None },
                    None => st,
                }
            } else {
                st
            }
        },
        _ => st,
    }
}

/// The fold of the master-list parser over an event stream.
pub open spec fn spec_parse_binds(events: Seq<XmlEvent>, st: BindsParse) -> Result<
    Seq<AllBindsMapView>,
    Seq<char>,
>
    decreases events.len(),
{
    if events.len() == 0 {
        Ok(st.maps)
    } else {
        match events[0] {
            XmlEvent::EndOfDocument => Ok(st.maps),
            XmlEvent::Malformed { message } => Err("XML parsing error: "@ + message@),
            _ => spec_parse_binds(events.drop_first(), spec_binds_step(st, events[0])),
        }
    }
}

/// Whether a master-list parse result is the fold of the parser over the
/// events.
pub open spec fn spec_binds_result_matches(r: Result<AllBinds, String>, events: Seq<XmlEvent>)
    -> bool {
    match (r, spec_parse_binds(events, spec_binds_init())) {
        (Ok(b), Ok(v)) => b.action_maps@.map_values(
            |m: AllBindsActionMap| spec_view_of_binds_map(m),
        ) == v,
        (Err(e), Err(msg)) => e@ == msg,
        _ => false,
    }
}

/// Every master-list parse error carries the parse-error prefix.
pub proof fn lemma_parse_binds_err_prefix(events: Seq<XmlEvent>, st: BindsParse)
    ensures
        spec_parse_binds(events, st) matches Err(msg) ==> spec_starts_with(
            msg,
            "XML parsing error: "@,
        ),
    decreases events.len(),
{
    if events.len() > 0 {
        match events[0] {
            XmlEvent::Malformed { message } => {
                assert(("XML parsing error: "@ + message@).subrange(
                    0,
                    "XML parsing error: "@.len() as int,
                ) =~= "XML parsing error: "@);
            },
            XmlEvent::EndOfDocument => {},
            _ => {
                lemma_parse_binds_err_prefix(events.drop_first(), spec_binds_step(st, events[0]));
            },
        }
    }
}

impl AllBinds {
    /// Builds the master list from a document's events: exactly the fold of
    /// `spec_binds_step` up to the first terminal event (or the stream's
    /// end), failing with the malformed event's message.
    pub fn from_events(events: &Vec<XmlEvent>) -> (r: Result<AllBinds, String>)
        ensures
            spec_binds_result_matches(r, events@),
    {
        let mut action_maps: Vec<AllBindsActionMap> = Vec::new();
        let mut current_map: Option<AllBindsActionMap> = None;
        let ghost mut st = spec_binds_init();
        let ghost full = spec_parse_binds(events@, spec_binds_init());
        let n = events.len();
        let mut i: usize = 0;
        proof {
            assert(events@.skip(0) =~= events@);
            assert(Seq::<AllBindsActionMap>::empty().map_values(
                |m: AllBindsActionMap| spec_view_of_binds_map(m),
            ) =~= Seq::<AllBindsMapView>::empty());
        }
        while i < n
            invariant
                n == events@.len(),
                i <= n,
                full == spec_parse_binds(events@, spec_binds_init()),
                full == spec_parse_binds(events@.skip(i as int), st),
                action_maps@.map_values(|m: AllBindsActionMap| spec_view_of_binds_map(m))
                    == st.maps,
                (match current_map {
                    Some(m) => st.current matches Some(v) && m.name@ == v.name && m.version@
                        == v.version && m.ui_label@ == v.ui_label && m.ui_category@
                        == v.ui_category && m.actions@.map_values(
                        |a: AllBindsAction| spec_view_of_binds_action(a),
                    ) == v.actions,
                    None => st.current is None,
                }),
            decreases n - i,
        {
            proof {
                assert(events@.skip(i as int)[0] == events@[i as int]);
                assert(events@.skip(i as int).drop_first() =~= events@.skip(i as int + 1));
            }
            let ghost prev = st;
            match &events[i] {
                XmlEvent::EndOfDocument => {
                    return Ok(AllBinds { action_maps });
                },
                XmlEvent::Malformed { message } => {
                    let mut m = String::from_str("XML parsing error: ");
                    m.append(message.as_str());
                    assert(m@ =~= "XML parsing error: "@ + message@);
                    return Err(m);
                },
                XmlEvent::Open { name, attrs } => {
                    proof {
                        st = spec_binds_step(prev, events@[i as int]);
                    }
                    if crate::text::str_eq(name.as_str(), "actionmap") {
                        let map_name = match crate::xml_events::attr_value(attrs, "name") {
                            Some(v) => v,
                            None => String::new(),
                        };
                        let version = match crate::xml_events::attr_value(attrs, "version") {
                            Some(v) => v,
                            None => String::new(),
                        };
                        let ui_label = match crate::xml_events::attr_value(attrs, "UILabel") {
                            Some(v) => v,
                            None => String::new(),
                        };
                        let ui_category = match crate::xml_events::attr_value(
                            attrs,
                            "UICategory",
                        ) {
                            Some(v) => v,
                            None => String::new(),
                        };
                        current_map = Some(
                            AllBindsActionMap {
                                name: map_name,
                                version,
                                ui_label,
                                ui_category,
                                actions: Vec::new(),
                            },
                        );
                        proof {
                            assert(Seq::<AllBindsAction>::empty().map_values(
                                |a: AllBindsAction| spec_view_of_binds_action(a),
                            ) =~= Seq::<AllBindsActionView>::empty());
                        }
                    } else if crate::text::str_eq(name.as_str(), "action") {
                        if let Some(map) = &mut current_map {
                            let action_name = match crate::xml_events::attr_value(attrs, "name") {
                                Some(v) => v,
                                None => String::new(),
                            };
                            let ui_label = match crate::xml_events::attr_value(attrs, "UILabel") {
                                Some(v) => v,
                                None => String::new(),
                            };
                            let ui_description = match crate::xml_events::attr_value(
                                attrs,
                                "UIDescription",
                            ) {
                                Some(v) => v,
                                None => String::new(),
                            };
                            let category = match crate::xml_events::attr_value(
                                attrs,
                                "Category",
                            ) {
                                Some(v) => v,
                                None => String::new(),
                            };
                            let activation_mode = match crate::xml_events::attr_value(
                                attrs,
                                "activationMode",
                            ) {
                                Some(v) => v,
                                None => String::new(),
                            };
                            let on_hold = match crate::xml_events::attr_value(attrs, "onHold") {
                                Some(v) => crate::text::str_eq(v.as_str(), "1"),
                                None => false,
                            };
                            let default_keyboard = match crate::xml_events::attr_value(
                                attrs,
                                "keyboard",
                            ) {
                                Some(v) => v,
                                None => String::new(),
                            };
                            let default_mouse = match crate::xml_events::attr_value(
                                attrs,
                                "mouse",
                            ) {
                                Some(v) => v,
                                None => String::new(),
                            };
                            let default_gamepad = match crate::xml_events::attr_value(
                                attrs,
                                "gamepad",
                            ) {
                                Some(v) => v,
                                None => String::new(),
                            };
                            let default_joystick = match crate::xml_events::attr_value(
                                attrs,
                                "joystick",
                            ) {
                                Some(v) => v,
                                None => String::new(),
                            };
                            let ghost old_a = map.actions@;
                            map.actions.push(
                                AllBindsAction {
                                    name: action_name,
                                    ui_label,
                                    ui_description,
                                    category,
                                    activation_mode,
                                    on_hold,
                                    default_keyboard,
                                    default_mouse,
                                    default_gamepad,
                                    default_joystick,
                                },
                            );
                            proof {
                                assert(map.actions@.map_values(
                                    |a: AllBindsAction| spec_view_of_binds_action(a),
                                ) =~= old_a.map_values(
                                    |a: AllBindsAction| spec_view_of_binds_action(a),
                                ).push(spec_view_of_binds_action(map.actions@.last())));
                            }
                        }
                    }
                },
                XmlEvent::Close { name } => {
                    proof {
                        st = spec_binds_step(prev, events@[i as int]);
                    }
                    if crate::text::str_eq(name.as_str(), "actionmap") {
                        let finished = current_map;
                        current_map = None;
                        if let Some(map) = finished {
                            let ghost old_m = action_maps@;
                            action_maps.push(map);
                            proof {
                                assert(action_maps@.map_values(
                                    |m: AllBindsActionMap| spec_view_of_binds_map(m),
                                ) =~= old_m.map_values(
                                    |m: AllBindsActionMap| spec_view_of_binds_map(m),
                                ).push(spec_view_of_binds_map(action_maps@.last())));
                            }
                        }
                    }
                },
                XmlEvent::Other => {
                    proof {
                        st = spec_binds_step(prev, events@[i as int]);
                    }
                },
            }
            i = i + 1;
        }
        proof {
            assert(events@.skip(n as int) =~= Seq::<XmlEvent>::empty());
        }
        Ok(AllBinds { action_maps })
    }
}

} // verus!

verus! {

/// ASCII uppercase letter.
pub open spec fn spec_uc(c: char) -> bool {
    'A' <= c && c <= 'Z'
}

/// ASCII lowercase letter.
pub open spec fn spec_lc(c: char) -> bool {
    'a' <= c && c <= 'z'
}

/// The camel-case split from position `i` on, given whether the previous
/// character was lowercase or uppercase: a space goes in before an
/// uppercase letter that follows a lowercase one, or that starts a new
/// word inside an acronym run (next character lowercase); the first
/// character is uppercased.
pub open spec fn spec_camel(s: Seq<char>, i: int, prev_lower: bool, prev_upper: bool)
    -> Seq<char>
    decreases s.len() - i,
{
    if i < 0 || i >= s.len() {
        Seq::empty()
    } else {
        let c = s[i];
        if i == 0 {
            seq![crate::text::upper_char(c)] + spec_camel(s, 1, spec_lc(c), spec_uc(c))
        } else if spec_uc(c) {
            let space = prev_lower || (prev_upper && i + 1 < s.len() && spec_lc(s[i + 1]));
            (if space {
                seq![' ']
            } else {
                Seq::empty()
            }) + seq![c] + spec_camel(s, i + 1, false, true)
        } else {
            seq![c] + spec_camel(s, i + 1, true, false)
        }
    }
}

/// Splits PascalCase or camelCase into space-separated words.
pub fn split_camel_case(s: &str) -> (r: String)
    ensures
        r@ == spec_camel(s@, 0, false, false),
{
    let len = s.unicode_len();
    let mut out = String::new();
    let mut prev_lower = false;
    let mut prev_upper = false;
    let mut i: usize = 0;
    while i < len
        invariant
            len == s@.len(),
            i <= len,
            i == 0 ==> out@ == Seq::<char>::empty() && !prev_lower && !prev_upper,
            spec_camel(s@, 0, false, false) == out@ + spec_camel(
                s@,
                i as int,
                prev_lower,
                prev_upper,
            ),
        decreases len - i,
    {
        let c = s.get_char(i);
        let ghost before = out@;
        if i == 0 {
            crate::text::push_char(&mut out, crate::text::to_upper_char(c));
            prev_upper = 'A' <= c && c <= 'Z';
            prev_lower = 'a' <= c && c <= 'z';
            proof {
                assert(before + (seq![crate::text::upper_char(c)] + spec_camel(
                    s@,
                    1,
                    spec_lc(c),
                    spec_uc(c),
                )) =~= before.push(crate::text::upper_char(c)) + spec_camel(
                    s@,
                    1,
                    spec_lc(c),
                    spec_uc(c),
                ));
            }
        } else if 'A' <= c && c <= 'Z' {
            let space = prev_lower || (prev_upper && i + 1 < len && {
                let nc = s.get_char(i + 1);
                'a' <= nc && nc <= 'z'
            });
            if space {
                crate::text::push_char(&mut out, ' ');
            }
            crate::text::push_char(&mut out, c);
            prev_upper = true;
            prev_lower = false;
            proof {
                assert(out@ =~= before + (if space {
                    seq![' ']
                } else {
                    Seq::<char>::empty()
                }) + seq![c]);
                assert(before + ((if space {
                    seq![' ']
                } else {
                    Seq::<char>::empty()
                }) + seq![c] + spec_camel(s@, i as int + 1, false, true)) =~= out@ + spec_camel(
                    s@,
                    i as int + 1,
                    false,
                    true,
                ));
            }
        } else {
            crate::text::push_char(&mut out, c);
            prev_upper = false;
            prev_lower = true;
            proof {
                assert(before + (seq![c] + spec_camel(s@, i as int + 1, true, false)) =~= out@
                    + spec_camel(s@, i as int + 1, true, false));
            }
        }
        i = i + 1;
    }
    proof {
        assert(spec_camel(s@, len as int, prev_lower, prev_upper) =~= Seq::<char>::empty());
        assert(out@ + Seq::<char>::empty() =~= out@);
    }
    out
}

} // verus!

verus! {

/// A word capitalised for display: direction words and single axis letters
/// go fully uppercase, the ratio token `1to1` becomes `1:1`, anything else
/// gets an uppercase first letter and a lowercase rest.
pub open spec fn spec_capitalize(word: Seq<char>) -> Seq<char> {
    if word.len() == 0 {
        Seq::empty()
    } else {
        let lw = crate::text::lower_seq(word);
        if lw == "up"@ || lw == "down"@ || lw == "left"@ || lw == "right"@ || lw == "x"@ || lw
            == "y"@ || lw == "z"@ {
            crate::text::upper_seq(word)
        } else if lw == "1to1"@ {
            "1:1"@
        } else {
            seq![crate::text::upper_char(word[0])] + crate::text::lower_seq(word.skip(1))
        }
    }
}

/// Capitalises one word for display.
pub fn capitalize_word(word: &str) -> (r: String)
    ensures
        r@ == spec_capitalize(word@),
{
    let len = word.unicode_len();
    if len == 0 {
        return String::new();
    }
    let lw = crate::text::lower_string(word);
    let l = lw.as_str();
    if crate::text::str_eq(l, "up") || crate::text::str_eq(l, "down") || crate::text::str_eq(
        l,
        "left",
    ) || crate::text::str_eq(l, "right") || crate::text::str_eq(l, "x") || crate::text::str_eq(
        l,
        "y",
    ) || crate::text::str_eq(l, "z") {
        return crate::text::upper_string(word);
    }
    if crate::text::str_eq(l, "1to1") {
        return String::from_str("1:1");
    }
    let mut r = String::new();
    crate::text::push_char(&mut r, crate::text::to_upper_char(word.get_char(0)));
    let rest = word.substring_char(1, len);
    assert(rest@ =~= word@.skip(1));
    let rest_lower = crate::text::lower_string(rest);
    r.append(rest_lower.as_str());
    assert(r@ =~= seq![crate::text::upper_char(word@[0])] + crate::text::lower_seq(word@.skip(1)));
    r
}

/// Whether a part is all capitals and digits (a preserved abbreviation).
pub open spec fn spec_all_caps(p: Seq<char>) -> bool {
    forall|k: int| 0 <= k < p.len() ==> spec_uc(#[trigger] p[k]) || crate::text::is_dec_digit(
        p[k],
    )
}

/// Whether a part mixes upper and lower case (camel or Pascal case).
pub open spec fn spec_mixed_case(p: Seq<char>) -> bool {
    (exists|k: int| 0 <= k < p.len() && spec_uc(#[trigger] p[k])) && (exists|k: int|
        0 <= k < p.len() && spec_lc(#[trigger] p[k]))
}

/// One underscore-separated part made displayable.
pub open spec fn spec_display_part(p: Seq<char>) -> Seq<char> {
    if p.len() == 0 {
        Seq::empty()
    } else if spec_all_caps(p) {
        p
    } else if spec_mixed_case(p) {
        spec_camel(p, 0, false, false)
    } else {
        spec_capitalize(p)
    }
}

fn display_part(p: &str) -> (r: String)
    ensures
        r@ == spec_display_part(p@),
{
    let len = p.unicode_len();
    if len == 0 {
        return String::new();
    }
    let mut all_caps = true;
    let mut any_upper = false;
    let mut any_lower = false;
    let mut i: usize = 0;
    while i < len
        invariant
            len == p@.len(),
            i <= len,
            all_caps == (forall|k: int| 0 <= k < i ==> spec_uc(#[trigger] p@[k])
                || crate::text::is_dec_digit(p@[k])),
            any_upper == (exists|k: int| 0 <= k < i && spec_uc(#[trigger] p@[k])),
            any_lower == (exists|k: int| 0 <= k < i && spec_lc(#[trigger] p@[k])),
        decreases len - i,
    {
        let c = p.get_char(i);
        if !(('A' <= c && c <= 'Z') || ('0' <= c && c <= '9')) {
            all_caps = false;
        }
        if 'A' <= c && c <= 'Z' {
            any_upper = true;
        }
        if 'a' <= c && c <= 'z' {
            any_lower = true;
        }
        i = i + 1;
    }
    if all_caps {
        p.to_owned()
    } else if any_upper && any_lower {
        split_camel_case(p)
    } else {
        capitalize_word(p)
    }
}

/// The parts joined with single spaces.
pub open spec fn spec_join_space(parts: Seq<Seq<char>>) -> Seq<char>
    decreases parts.len(),
{
    if parts.len() == 0 {
        Seq::empty()
    } else if parts.len() == 1 {
        parts[0]
    } else {
        parts[0] + " "@ + spec_join_space(parts.drop_first())
    }
}

/// A raw action or action-map name made displayable: the common `v_`,
/// `pc_`, `ui_` and `spectate_` prefixes fall away, known technical
/// abbreviations go uppercase, and the underscore-separated parts are
/// capitalised (camel-case parts split into words), joined with spaces and
/// trimmed.
pub open spec fn spec_format_display_name(name: Seq<char>) -> Seq<char> {
    if name.len() == 0 {
        Seq::empty()
    } else {
        let cleaned = crate::text::spec_strip_prefix_all(
            crate::text::spec_strip_prefix_all(
                crate::text::spec_strip_prefix_all(
                    crate::text::spec_strip_prefix_all(name, "v_"@),
                    "pc_"@,
                ),
                "ui_"@,
            ),
            "spectate_"@,
        );
        let replaced = crate::text::spec_replace_all(
            crate::text::spec_replace_all(
                crate::text::spec_replace_all(
                    crate::text::spec_replace_all(
                        crate::text::spec_replace_all(
                            crate::text::spec_replace_all(
                                crate::text::spec_replace_all(
                                    crate::text::spec_replace_all(
                                        crate::text::spec_replace_all(
                                            crate::text::spec_replace_all(
                                                cleaned,
                                                "mfd"@,
                                                "MFD"@,
                                            ),
                                            "fps"@,
                                            "FPS"@,
                                        ),
                                        "esp"@,
                                        "ESP"@,
                                    ),
                                    "vjoy"@,
                                    "VJoy"@,
                                ),
                                "mgv"@,
                                "MGV"@,
                            ),
                            "hud"@,
                            "HUD"@,
                        ),
                        "ifcs"@,
                        "IFCS"@,
                    ),
                    "vtol"@,
                    "VTOL"@,
                ),
                "ptu"@,
                "PTU"@,
            ),
            "atc"@,
            "ATC"@,
        );
        let parts = crate::text::spec_split(replaced, '_').map_values(
            |p: Seq<char>| spec_display_part(p),
        );
        crate::text::spec_trim(spec_join_space(parts))
    }
}

/// Formats a raw action or action-map name for display.
pub fn format_display_name(name: &str) -> (r: String)
    ensures
        r@ == spec_format_display_name(name@),
{
    if name.unicode_len() == 0 {
        return String::new();
    }
    let c1 = crate::text::strip_prefix_all(name, "v_");
    let c2 = crate::text::strip_prefix_all(c1, "pc_");
    let c3 = crate::text::strip_prefix_all(c2, "ui_");
    let cleaned = crate::text::strip_prefix_all(c3, "spectate_");
    let r1 = crate::text::replace_all(cleaned, "mfd", "MFD");
    let r2 = crate::text::replace_all(r1.as_str(), "fps", "FPS");
    let r3 = crate::text::replace_all(r2.as_str(), "esp", "ESP");
    let r4 = crate::text::replace_all(r3.as_str(), "vjoy", "VJoy");
    let r5 = crate::text::replace_all(r4.as_str(), "mgv", "MGV");
    let r6 = crate::text::replace_all(r5.as_str(), "hud", "HUD");
    let r7 = crate::text::replace_all(r6.as_str(), "ifcs", "IFCS");
    let r8 = crate::text::replace_all(r7.as_str(), "vtol", "VTOL");
    let r9 = crate::text::replace_all(r8.as_str(), "ptu", "PTU");
    let replaced = crate::text::replace_all(r9.as_str(), "atc", "ATC");
    let parts = crate::text::split_char(replaced.as_str(), '_');
    let ghost part_views = crate::text::spec_split(replaced@, '_').map_values(
        |p: Seq<char>| spec_display_part(p),
    );
    let n = parts.len();
    let mut joined = String::new();
    let mut i: usize = 0;
    proof {
        assert(part_views.skip(0) =~= part_views);
        assert(Seq::<char>::empty() + spec_join_space(part_views) =~= spec_join_space(
            part_views,
        ));
    }
    while i < n
        invariant
            n == parts@.len(),
            i <= n,
            n == crate::text::spec_split(replaced@, '_').len(),
            forall|k: int| 0 <= k < n ==> (#[trigger] parts@[k])@ == crate::text::spec_split(
                replaced@,
                '_',
            )[k],
            part_views == crate::text::spec_split(replaced@, '_').map_values(
                |p: Seq<char>| spec_display_part(p),
            ),
            spec_join_space(part_views) == joined@ + spec_join_space(part_views.skip(i as int)),
        decreases n - i,
    {
        proof {
            assert(part_views.skip(i as int)[0] == part_views[i as int]);
            assert(part_views.skip(i as int).drop_first() =~= part_views.skip(i as int + 1));
        }
        let ghost before = joined@;
        let d = display_part(parts[i].as_str());
        joined.append(d.as_str());
        if i + 1 < n {
            joined.append(" ");
            proof {
                assert(part_views.skip(i as int).len() >= 2);
                assert(spec_join_space(part_views.skip(i as int)) == part_views[i as int] + " "@
                    + spec_join_space(part_views.skip(i as int + 1)));
                assert(before + (part_views[i as int] + " "@ + spec_join_space(
                    part_views.skip(i as int + 1),
                )) =~= joined@ + spec_join_space(part_views.skip(i as int + 1)));
            }
        } else {
            proof {
                assert(part_views.skip(i as int).len() == 1);
                assert(spec_join_space(part_views.skip(i as int)) == part_views[i as int]);
                assert(before + part_views[i as int] =~= joined@);
                assert(part_views.skip(i as int + 1) =~= Seq::<Seq<char>>::empty());
                assert(joined@ + Seq::<char>::empty() =~= joined@);
            }
        }
        i = i + 1;
    }
    proof {
        if n == 0 {
            assert(false) by {
                crate::text::lemma_split_nonempty(replaced@, '_');
            }
        }
        assert(part_views.skip(n as int) =~= Seq::<Seq<char>>::empty());
    }
    let trimmed = crate::text::trim_str(joined.as_str());
    trimmed.to_owned()
}

} // verus!

verus! {

/// Whether one display row presents one rebind faithfully.
pub open spec fn spec_binding_info_ok(b: BindingInfo, r: Rebind) -> bool {
    &&& b.input@ == r.input@
    &&& b.input_type@ == spec_type_name(spec_input_type(r.input@))
    &&& b.display_name@ == spec_display_name(r.input@)
    &&& b.activation_mode@ == r.activation_mode@
    &&& b.multi_tap == r.multi_tap
}

/// Whether one organised action presents one action faithfully.
pub open spec fn spec_organized_action_ok(o: OrganizedAction, a: Action) -> bool {
    &&& o.name@ == a.name@
    &&& o.display_name@ == spec_format_display_name(a.name@)
    &&& o.bindings@.len() == a.rebinds@.len()
    &&& forall|k: int| 0 <= k < o.bindings@.len() ==> spec_binding_info_ok(
        #[trigger] o.bindings@[k],
        a.rebinds@[k],
    )
}

/// Whether one organised action map presents one map faithfully.
pub open spec fn spec_organized_map_ok(o: OrganizedActionMap, m: ActionMap) -> bool {
    &&& o.name@ == m.name@
    &&& o.display_name@ == spec_format_display_name(m.name@)
    &&& o.actions@.len() == m.actions@.len()
    &&& forall|k: int| 0 <= k < o.actions@.len() ==> spec_organized_action_ok(
        #[trigger] o.actions@[k],
        m.actions@[k],
    )
}

impl ActionMaps {
    /// Organises the profile for display: names formatted, every binding's
    /// class and description computed, empty category labels dropped.
    pub fn organize(&self) -> (r: OrganizedKeybindings)
        ensures
            r.profile_name@ == self.profile_name@,
            r.categories@.map_values(|s: String| s@) == self.categories@.map_values(
                |c: Category| c.label@,
            ).filter(|l: Seq<char>| l.len() > 0),
            r.devices.keyboards@ == self.devices.keyboards@,
            r.devices.mice@ == self.devices.mice@,
            r.devices.joysticks@ == self.devices.joysticks@,
            r.action_maps@.len() == self.action_maps@.len(),
            forall|i: int| 0 <= i < r.action_maps@.len() ==> spec_organized_map_ok(
                #[trigger] r.action_maps@[i],
                self.action_maps@[i],
            ),
    {
        let mut categories: Vec<String> = Vec::new();
        let cn = self.categories.len();
        let mut i: usize = 0;
        proof {
            reveal(Seq::filter);
            assert(self.categories@.take(0).map_values(|c: Category| c.label@).filter(
                |l: Seq<char>| l.len() > 0,
            ) =~= Seq::<Seq<char>>::empty());
            assert(categories@.map_values(|s: String| s@) =~= Seq::<Seq<char>>::empty());
        }
        while i < cn
            invariant
                cn == self.categories@.len(),
                i <= cn,
                categories@.map_values(|s: String| s@) == self.categories@.take(
                    i as int,
                ).map_values(|c: Category| c.label@).filter(|l: Seq<char>| l.len() > 0),
            decreases cn - i,
        {
            proof {
                reveal(Seq::filter);
                assert(self.categories@.take(i as int + 1).map_values(|c: Category| c.label@)
                    .drop_last() =~= self.categories@.take(i as int).map_values(
                    |c: Category| c.label@,
                ));
                assert(self.categories@.take(i as int + 1).map_values(|c: Category| c.label@)
                    .last() == self.categories@[i as int].label@);
            }
            let label = self.categories[i].label.clone();
            if label.unicode_len() > 0 {
                let ghost before = categories@;
                categories.push(label);
                proof {
                    assert(categories@.map_values(|s: String| s@) =~= before.map_values(
                        |s: String| s@,
                    ).push(categories@.last()@));
                }
            }
            i = i + 1;
        }
        proof {
            assert(self.categories@.take(cn as int) =~= self.categories@);
        }
        let mut organized_maps: Vec<OrganizedActionMap> = Vec::new();
        let mn = self.action_maps.len();
        let mut i: usize = 0;
        while i < mn
            invariant
                mn == self.action_maps@.len(),
                i <= mn,
                organized_maps@.len() == i,
                forall|q: int| 0 <= q < i ==> spec_organized_map_ok(
                    #[trigger] organized_maps@[q],
                    self.action_maps@[q],
                ),
            decreases mn - i,
        {
            let m = &self.action_maps[i];
            let mut actions: Vec<OrganizedAction> = Vec::new();
            let an = m.actions.len();
            let mut j: usize = 0;
            while j < an
                invariant
                    i < mn,
                    mn == self.action_maps@.len(),
                    m.actions@ == self.action_maps@[i as int].actions@,
                    an == m.actions@.len(),
                    j <= an,
                    actions@.len() == j,
                    forall|q: int| 0 <= q < j ==> spec_organized_action_ok(
                        #[trigger] actions@[q],
                        self.action_maps@[i as int].actions@[q],
                    ),
                decreases an - j,
            {
                let a = &m.actions[j];
                let mut bindings: Vec<BindingInfo> = Vec::new();
                let rn = a.rebinds.len();
                let mut k: usize = 0;
                while k < rn
                    invariant
                        i < mn,
                        j < an,
                        mn == self.action_maps@.len(),
                        m.actions@ == self.action_maps@[i as int].actions@,
                        an == m.actions@.len(),
                        a.rebinds@ == self.action_maps@[i as int].actions@[j as int].rebinds@,
                        rn == a.rebinds@.len(),
                        k <= rn,
                        bindings@.len() == k,
                        forall|q: int| 0 <= q < k ==> spec_binding_info_ok(
                            #[trigger] bindings@[q],
                            self.action_maps@[i as int].actions@[j as int].rebinds@[q],
                        ),
                    decreases rn - k,
                {
                    let rb = &a.rebinds[k];
                    let ty = rb.get_input_type();
                    bindings.push(
                        BindingInfo {
                            input: rb.input.clone(),
                            input_type: input_class_word(ty),
                            display_name: rb.get_display_name(),
                            activation_mode: rb.activation_mode.clone(),
                            multi_tap: rb.multi_tap,
                        },
                    );
                    k = k + 1;
                }
                actions.push(
                    OrganizedAction {
                        name: a.name.clone(),
                        display_name: format_display_name(a.name.as_str()),
                        bindings,
                    },
                );
                j = j + 1;
            }
            organized_maps.push(
                OrganizedActionMap {
                    name: m.name.clone(),
                    display_name: format_display_name(m.name.as_str()),
                    actions,
                },
            );
            i = i + 1;
        }
        OrganizedKeybindings {
            profile_name: self.profile_name.clone(),
            categories,
            devices: DeviceInfo {
                keyboards: crate::text::clone_strings(&self.devices.keyboards),
                mice: crate::text::clone_strings(&self.devices.mice),
                joysticks: crate::text::clone_strings(&self.devices.joysticks),
            },
            action_maps: organized_maps,
        }
    }
}

} // verus!

verus! {

/// The XML fragment of one rebind in the category-aware export: the input,
/// a `multiTap` attribute when present, and an `activationMode` attribute
/// when one is set.
pub open spec fn spec_rebind_xml_full(r: Rebind) -> Seq<char> {
    "   <rebind input=\""@ + r.input@ + "\""@ + (match r.multi_tap {
        Some(n) => " multiTap=\""@ + crate::text::spec_dec(n as nat) + "\""@,
        None => Seq::empty(),
    }) + (if r.activation_mode@.len() > 0 {
        " activationMode=\""@ + r.activation_mode@ + "\""@
    } else {
        Seq::empty()
    }) + "/>\n"@
}

/// The category-aware rebind fragments of an action, from index `i` up.
pub open spec fn spec_rebinds_xml_full(rebinds: Seq<Rebind>, i: int) -> Seq<char>
    decreases rebinds.len() - i,
{
    if i < 0 || i >= rebinds.len() {
        Seq::empty()
    } else {
        spec_rebind_xml_full(rebinds[i]) + spec_rebinds_xml_full(rebinds, i + 1)
    }
}

/// The category-aware fragment of one action with rebinds.
pub open spec fn spec_action_xml_full(a: Action) -> Seq<char> {
    "  <action name=\""@ + a.name@ + "\">\n"@ + spec_rebinds_xml_full(a.rebinds@, 0)
        + "  </action>\n"@
}

/// The fragments of the actions holding any rebind (cleared ones
/// included), from index `i` up.
pub open spec fn spec_actions_any_xml(actions: Seq<Action>, i: int) -> Seq<char>
    decreases actions.len() - i,
{
    if i < 0 || i >= actions.len() {
        Seq::empty()
    } else {
        (if actions[i].rebinds@.len() > 0 {
            spec_action_xml_full(actions[i])
        } else {
            Seq::empty()
        }) + spec_actions_any_xml(actions, i + 1)
    }
}

/// Whether any action of the map holds a rebind at all (cleared overrides
/// count: they must be written to override defaults).
pub open spec fn spec_map_any_rebinds(m: ActionMap) -> bool {
    exists|k: int| 0 <= k < m.actions@.len() && (#[trigger] m.actions@[k]).rebinds@.len() > 0
}

/// The first action map of that name, if any.
pub open spec fn spec_first_map(maps: Seq<ActionMap>, name: Seq<char>) -> Option<ActionMap>
    decreases maps.len(),
{
    if maps.len() == 0 {
        None
    } else if maps[0].name@ == name {
        Some(maps[0])
    } else {
        spec_first_map(maps.drop_first(), name)
    }
}

/// The fragment emitted for one exported name: the first map of that name,
/// when it holds any rebind.
pub open spec fn spec_emitted_for_name(maps: Seq<ActionMap>, name: Seq<char>) -> Seq<char> {
    match spec_first_map(maps, name) {
        Some(m) => if spec_map_any_rebinds(m) {
            " <actionmap name=\""@ + m.name@ + "\">\n"@ + spec_actions_any_xml(m.actions@, 0)
                + " </actionmap>\n"@
        } else {
            Seq::empty()
        },
        None => Seq::empty(),
    }
}

/// The names of the maps holding any rebind, in order, from index `i` up.
pub open spec fn spec_exported_names(maps: Seq<ActionMap>, i: int) -> Seq<Seq<char>>
    decreases maps.len() - i,
{
    if i < 0 || i >= maps.len() {
        Seq::empty()
    } else {
        (if spec_map_any_rebinds(maps[i]) {
            seq![maps[i].name@]
        } else {
            Seq::empty()
        }) + spec_exported_names(maps, i + 1)
    }
}

/// The position of the last master-list map of that name, if any: the
/// master list drives the export order, and later duplicates win.
pub open spec fn spec_last_binds_index(binds: Seq<AllBindsActionMap>, name: Seq<char>) -> Option<
    int,
>
    decreases binds.len(),
{
    if binds.len() == 0 {
        None
    } else if binds.last().name@ == name {
        Some(binds.len() - 1)
    } else {
        spec_last_binds_index(binds.drop_last(), name)
    }
}

/// The fragments of the exported names keyed to master position `p`, in
/// their own order, from name index `j` up.
pub open spec fn spec_emit_for_key(
    maps: Seq<ActionMap>,
    names: Seq<Seq<char>>,
    binds: Seq<AllBindsActionMap>,
    p: int,
    j: int,
) -> Seq<char>
    decreases names.len() - j,
{
    if j < 0 || j >= names.len() {
        Seq::empty()
    } else {
        (if spec_last_binds_index(binds, names[j]) == Some(p) {
            spec_emitted_for_name(maps, names[j])
        } else {
            Seq::empty()
        }) + spec_emit_for_key(maps, names, binds, p, j + 1)
    }
}

/// The fragments of the exported names in master-list order, master
/// positions `p` and up.
pub open spec fn spec_emit_keyed(
    maps: Seq<ActionMap>,
    names: Seq<Seq<char>>,
    binds: Seq<AllBindsActionMap>,
    p: int,
) -> Seq<char>
    decreases binds.len() - p,
{
    if p < 0 || p >= binds.len() {
        Seq::empty()
    } else {
        spec_emit_for_key(maps, names, binds, p, 0) + spec_emit_keyed(maps, names, binds, p + 1)
    }
}

/// The fragments of the exported names absent from the master list, in
/// their own order, from name index `j` up.
pub open spec fn spec_emit_unkeyed(
    maps: Seq<ActionMap>,
    names: Seq<Seq<char>>,
    binds: Seq<AllBindsActionMap>,
    j: int,
) -> Seq<char>
    decreases names.len() - j,
{
    if j < 0 || j >= names.len() {
        Seq::empty()
    } else {
        (if spec_last_binds_index(binds, names[j]) is None {
            spec_emitted_for_name(maps, names[j])
        } else {
            Seq::empty()
        }) + spec_emit_unkeyed(maps, names, binds, j + 1)
    }
}

/// The whole category-aware export: as `spec_profile_xml` but without a
/// categories section, with activation modes written, with cleared
/// overrides kept, and with the exported maps ordered as the master list
/// orders their names (maps the master list does not know come last, in
/// their own order).
pub open spec fn spec_profile_xml_with_categories(
    m: ActionMaps,
    binds: Seq<AllBindsActionMap>,
) -> Seq<char> {
    let has_kb = spec_has_binding_of_type(m.action_maps@, InputType::Keyboard);
    let has_mouse = spec_has_binding_of_type(m.action_maps@, InputType::Mouse);
    let js_count: nat = if m.devices.joysticks@.len() < 2 {
        2
    } else {
        m.devices.joysticks@.len() as nat
    };
    let names = spec_exported_names(m.action_maps@, 0);
    "<?xml version=\"1.0\" encoding=\"UTF-8\"?>\n"@
        + "<ActionMaps version=\"1\" optionsVersion=\"2\" rebindVersion=\"2\" profileName=\""@
        + m.profile_name@ + "\">\n"@ + " <CustomisationUIHeader label=\""@ + m.profile_name@
        + "\" description=\"\" image=\"\">\n"@ + "  <devices>\n"@ + (if has_kb {
        "   <keyboard instance=\"1\"/>\n"@
    } else {
        Seq::empty()
    }) + (if has_mouse {
        "   <mouse instance=\"1\"/>\n"@
    } else {
        Seq::empty()
    }) + spec_joystick_lines(1, js_count) + "  </devices>\n"@ + " </CustomisationUIHeader>\n"@
        + " <modifiers />\n"@ + spec_emit_keyed(m.action_maps@, names, binds, 0)
        + spec_emit_unkeyed(m.action_maps@, names, binds, 0) + "</ActionMaps>\n"@
}

} // verus!

verus! {

fn rebind_xml_full(out: &mut String, r: &Rebind)
    ensures
        final(out)@ == old(out)@ + spec_rebind_xml_full(*r),
{
    out.append("   <rebind input=\"");
    out.append(r.input.as_str());
    out.append("\"");
    if let Some(n) = r.multi_tap {
        out.append(" multiTap=\"");
        let d = crate::text::dec_string(n as u64);
        out.append(d.as_str());
        out.append("\"");
    }
    if r.activation_mode.unicode_len() > 0 {
        out.append(" activationMode=\"");
        out.append(r.activation_mode.as_str());
        out.append("\"");
    }
    out.append("/>\n");
    assert(final(out)@ =~= old(out)@ + spec_rebind_xml_full(*r));
}

fn action_xml_full(out: &mut String, a: &Action)
    ensures
        final(out)@ == old(out)@ + spec_action_xml_full(*a),
{
    out.append("  <action name=\"");
    out.append(a.name.as_str());
    out.append("\">\n");
    let n = a.rebinds.len();
    let mut i: usize = 0;
    let ghost base = out@;
    proof {
        assert(base + Seq::<char>::empty() =~= base);
    }
    while i < n
        invariant
            n == a.rebinds@.len(),
            i <= n,
            out@ + spec_rebinds_xml_full(a.rebinds@, i as int) == base + spec_rebinds_xml_full(
                a.rebinds@,
                0,
            ),
        decreases n - i,
    {
        let ghost before = out@;
        rebind_xml_full(out, &a.rebinds[i]);
        proof {
            assert((before + spec_rebind_xml_full(a.rebinds@[i as int])) + spec_rebinds_xml_full(
                a.rebinds@,
                i as int + 1,
            ) =~= before + spec_rebinds_xml_full(a.rebinds@, i as int));
        }
        i = i + 1;
    }
    proof {
        assert(spec_rebinds_xml_full(a.rebinds@, n as int) =~= Seq::<char>::empty());
        assert(out@ + Seq::<char>::empty() =~= out@);
    }
    out.append("  </action>\n");
    assert(final(out)@ =~= old(out)@ + spec_action_xml_full(*a));
}

fn map_any_rebinds(m: &ActionMap) -> (b: bool)
    ensures
        b == spec_map_any_rebinds(*m),
{
    let n = m.actions.len();
    let mut k: usize = 0;
    while k < n
        invariant
            n == m.actions@.len(),
            k <= n,
            forall|q: int| 0 <= q < k ==> (#[trigger] m.actions@[q]).rebinds@.len() == 0,
        decreases n - k,
    {
        if m.actions[k].rebinds.len() > 0 {
            return true;
        }
        k = k + 1;
    }
    false
}

fn first_map<'a>(maps: &'a Vec<ActionMap>, name: &str) -> (r: Option<&'a ActionMap>)
    ensures
        match r {
            Some(m) => spec_first_map(maps@, name@) == Some(*m),
            None => spec_first_map(maps@, name@) is None,
        },
{
    let n = maps.len();
    let mut i: usize = 0;
    proof {
        assert(maps@.skip(0) =~= maps@);
    }
    while i < n
        invariant
            n == maps@.len(),
            i <= n,
            spec_first_map(maps@, name@) == spec_first_map(maps@.skip(i as int), name@),
        decreases n - i,
    {
        proof {
            assert(maps@.skip(i as int)[0] == maps@[i as int]);
            assert(maps@.skip(i as int).drop_first() =~= maps@.skip(i as int + 1));
        }
        if crate::text::str_eq(maps[i].name.as_str(), name) {
            return Some(&maps[i]);
        }
        i = i + 1;
    }
    proof {
        assert(maps@.skip(n as int) =~= Seq::<ActionMap>::empty());
    }
    None
}

fn emit_for_name(out: &mut String, maps: &Vec<ActionMap>, name: &str)
    ensures
        final(out)@ == old(out)@ + spec_emitted_for_name(maps@, name@),
{
    let m = match first_map(maps, name) {
        Some(m) => m,
        None => {
            assert(final(out)@ =~= old(out)@ + spec_emitted_for_name(maps@, name@));
            return ;
        },
    };
    if !map_any_rebinds(m) {
        assert(final(out)@ =~= old(out)@ + spec_emitted_for_name(maps@, name@));
        return ;
    }
    out.append(" <actionmap name=\"");
    out.append(m.name.as_str());
    out.append("\">\n");
    let n = m.actions.len();
    let mut i: usize = 0;
    let ghost base = out@;
    proof {
        assert(base + Seq::<char>::empty() =~= base);
    }
    while i < n
        invariant
            n == m.actions@.len(),
            i <= n,
            out@ + spec_actions_any_xml(m.actions@, i as int) == base + spec_actions_any_xml(
                m.actions@,
                0,
            ),
        decreases n - i,
    {
        let ghost before = out@;
        if m.actions[i].rebinds.len() > 0 {
            action_xml_full(out, &m.actions[i]);
        }
        proof {
            let frag = if m.actions@[i as int].rebinds@.len() > 0 {
                spec_action_xml_full(m.actions@[i as int])
            } else {
                Seq::<char>::empty()
            };
            assert(out@ =~= before + frag);
            assert((before + frag) + spec_actions_any_xml(m.actions@, i as int + 1) =~= before
                + spec_actions_any_xml(m.actions@, i as int));
        }
        i = i + 1;
    }
    proof {
        assert(spec_actions_any_xml(m.actions@, n as int) =~= Seq::<char>::empty());
        assert(out@ + Seq::<char>::empty() =~= out@);
    }
    out.append(" </actionmap>\n");
    assert(final(out)@ =~= old(out)@ + spec_emitted_for_name(maps@, name@));
}

fn last_binds_index(binds: &Vec<AllBindsActionMap>, name: &str) -> (r: Option<usize>)
    ensures
        match r {
            Some(p) => spec_last_binds_index(binds@, name@) == Some(p as int),
            None => spec_last_binds_index(binds@, name@) is None,
        },
{
    let n = binds.len();
    let mut i: usize = n;
    proof {
        assert(binds@.take(n as int) =~= binds@);
    }
    while i > 0
        invariant
            n == binds@.len(),
            i <= n,
            spec_last_binds_index(binds@, name@) == spec_last_binds_index(
                binds@.take(i as int),
                name@,
            ),
        decreases i,
    {
        proof {
            assert(binds@.take(i as int).last() == binds@[i as int - 1]);
            assert(binds@.take(i as int).drop_last() =~= binds@.take(i as int - 1));
        }
        if crate::text::str_eq(binds[i - 1].name.as_str(), name) {
            return Some(i - 1);
        }
        i = i - 1;
    }
    proof {
        assert(binds@.take(0) =~= Seq::<AllBindsActionMap>::empty());
    }
    None
}

} // verus!

verus! {

impl ActionMaps {
    /// Serialises the profile in master-list order: every action holding
    /// rebinds is exported (cleared overrides included, with their
    /// activation modes), and the exported maps follow the order their
    /// names have in the master list; maps the master list does not know
    /// come last in their own order.
    pub fn to_xml_with_categories(&self, all_binds: Option<&AllBinds>) -> (r: String)
        ensures
            r@ == spec_profile_xml_with_categories(
                *self,
                match all_binds {
                    Some(b) => b.action_maps@,
                    None => Seq::empty(),
                },
            ),
    {
        let empty_binds: Vec<AllBindsActionMap> = Vec::new();
        let binds: &Vec<AllBindsActionMap> = match all_binds {
            Some(b) => &b.action_maps,
            None => &empty_binds,
        };
        proof {
            match all_binds {
                Some(b) => {},
                None => {
                    assert(binds@ =~= Seq::<AllBindsActionMap>::empty());
                },
            }
        }
        let mut out = String::new();
        out.append("<?xml version=\"1.0\" encoding=\"UTF-8\"?>\n");
        out.append(
            "<ActionMaps version=\"1\" optionsVersion=\"2\" rebindVersion=\"2\" profileName=\"",
        );
        out.append(self.profile_name.as_str());
        out.append("\">\n");
        out.append(" <CustomisationUIHeader label=\"");
        out.append(self.profile_name.as_str());
        out.append("\" description=\"\" image=\"\">\n");
        out.append("  <devices>\n");
        let has_kb = self.has_keyboard_bindings();
        let has_mouse = self.has_mouse_bindings();
        if has_kb {
            out.append("   <keyboard instance=\"1\"/>\n");
        }
        if has_mouse {
            out.append("   <mouse instance=\"1\"/>\n");
        }
        let js_len = self.devices.joysticks.len();
        let js_count: usize = if js_len < 2 {
            2
        } else {
            js_len
        };
        let mut idx: usize = 0;
        let ghost base = out@;
        proof {
            assert(base + Seq::<char>::empty() =~= base);
        }
        while idx < js_count
            invariant
                idx <= js_count,
                out@ + spec_joystick_lines(idx as nat + 1, js_count as nat) == base
                    + spec_joystick_lines(1, js_count as nat),
            decreases js_count - idx,
        {
            let ghost before = out@;
            let instance = idx + 1;
            out.append("   <joystick instance=\"");
            let d = crate::text::dec_string(instance as u64);
            out.append(d.as_str());
            out.append("\"/>\n");
            proof {
                let frag = "   <joystick instance=\""@ + crate::text::spec_dec(instance as nat)
                    + "\"/>\n"@;
                assert(out@ =~= before + frag);
                assert((before + frag) + spec_joystick_lines(instance as nat + 1, js_count as nat)
                    =~= before + spec_joystick_lines(instance as nat, js_count as nat));
            }
            idx = idx + 1;
        }
        proof {
            assert(spec_joystick_lines(js_count as nat + 1, js_count as nat)
                =~= Seq::<char>::empty());
            assert(out@ + Seq::<char>::empty() =~= out@);
        }
        out.append("  </devices>\n");
        out.append(" </CustomisationUIHeader>\n");
        out.append(" <modifiers />\n");
        let mut names: Vec<String> = Vec::new();
        let mn = self.action_maps.len();
        let mut i: usize = 0;
        proof {
            assert(Seq::<Seq<char>>::empty() + spec_exported_names(self.action_maps@, 0)
                =~= spec_exported_names(self.action_maps@, 0));
            assert(names@.map_values(|s: String| s@) =~= Seq::<Seq<char>>::empty());
        }
        while i < mn
            invariant
                mn == self.action_maps@.len(),
                i <= mn,
                spec_exported_names(self.action_maps@, 0) == names@.map_values(|s: String| s@)
                    + spec_exported_names(self.action_maps@, i as int),
            decreases mn - i,
        {
            let ghost before = names@;
            if map_any_rebinds(&self.action_maps[i]) {
                names.push(self.action_maps[i].name.clone());
                proof {
                    assert(names@.map_values(|s: String| s@) =~= before.map_values(
                        |s: String| s@,
                    ).push(names@.last()@));
                    assert(before.map_values(|s: String| s@) + (seq![
                        self.action_maps@[i as int].name@
                    ] + spec_exported_names(self.action_maps@, i as int + 1))
                        =~= names@.map_values(|s: String| s@) + spec_exported_names(
                        self.action_maps@,
                        i as int + 1,
                    ));
                }
            }
            i = i + 1;
        }
        proof {
            assert(spec_exported_names(self.action_maps@, mn as int) =~= Seq::<Seq<char>>::empty());
            assert(names@.map_values(|s: String| s@) + Seq::<Seq<char>>::empty()
                =~= names@.map_values(|s: String| s@));
        }
        let ghost name_views = names@.map_values(|s: String| s@);
        let bn = binds.len();
        let nn = names.len();
        let mut p: usize = 0;
        let ghost kbase = out@;
        proof {
            assert(kbase + Seq::<char>::empty() =~= kbase);
        }
        while p < bn
            invariant
                bn == binds@.len(),
                nn == names@.len(),
                p <= bn,
                name_views == names@.map_values(|s: String| s@),
                out@ + spec_emit_keyed(self.action_maps@, name_views, binds@, p as int) == kbase
                    + spec_emit_keyed(self.action_maps@, name_views, binds@, 0),
            decreases bn - p,
        {
            let ghost pbefore = out@;
            let mut j: usize = 0;
            proof {
                assert(pbefore + Seq::<char>::empty() =~= pbefore);
            }
            while j < nn
                invariant
                    bn == binds@.len(),
                    nn == names@.len(),
                    p < bn,
                    j <= nn,
                    name_views == names@.map_values(|s: String| s@),
                    out@ + spec_emit_for_key(
                        self.action_maps@,
                        name_views,
                        binds@,
                        p as int,
                        j as int,
                    ) == pbefore + spec_emit_for_key(
                        self.action_maps@,
                        name_views,
                        binds@,
                        p as int,
                        0,
                    ),
                decreases nn - j,
            {
                let ghost before = out@;
                let keyed = match last_binds_index(binds, names[j].as_str()) {
                    Some(q) => q == p,
                    None => false,
                };
                if keyed {
                    emit_for_name(&mut out, &self.action_maps, names[j].as_str());
                }
                proof {
                    let frag = if spec_last_binds_index(binds@, name_views[j as int]) == Some(
                        p as int,
                    ) {
                        spec_emitted_for_name(self.action_maps@, name_views[j as int])
                    } else {
                        Seq::<char>::empty()
                    };
                    assert(out@ =~= before + frag);
                    assert((before + frag) + spec_emit_for_key(
                        self.action_maps@,
                        name_views,
                        binds@,
                        p as int,
                        j as int + 1,
                    ) =~= before + spec_emit_for_key(
                        self.action_maps@,
                        name_views,
                        binds@,
                        p as int,
                        j as int,
                    ));
                }
                j = j + 1;
            }
            proof {
                assert(spec_emit_for_key(
                    self.action_maps@,
                    name_views,
                    binds@,
                    p as int,
                    nn as int,
                ) =~= Seq::<char>::empty());
                assert(out@ + Seq::<char>::empty() =~= out@);
                assert((pbefore + spec_emit_for_key(
                    self.action_maps@,
                    name_views,
                    binds@,
                    p as int,
                    0,
                )) + spec_emit_keyed(self.action_maps@, name_views, binds@, p as int + 1)
                    =~= pbefore + spec_emit_keyed(self.action_maps@, name_views, binds@, p as int));
            }
            p = p + 1;
        }
        proof {
            assert(spec_emit_keyed(self.action_maps@, name_views, binds@, bn as int)
                =~= Seq::<char>::empty());
            assert(out@ + Seq::<char>::empty() =~= out@);
        }
        let mut j: usize = 0;
        let ghost ubase = out@;
        proof {
            assert(ubase + Seq::<char>::empty() =~= ubase);
        }
        while j < nn
            invariant
                bn == binds@.len(),
                nn == names@.len(),
                j <= nn,
                name_views == names@.map_values(|s: String| s@),
                out@ + spec_emit_unkeyed(self.action_maps@, name_views, binds@, j as int) == ubase
                    + spec_emit_unkeyed(self.action_maps@, name_views, binds@, 0),
            decreases nn - j,
        {
            let ghost before = out@;
            let unkeyed = match last_binds_index(binds, names[j].as_str()) {
                Some(_) => false,
                None => true,
            };
            if unkeyed {
                emit_for_name(&mut out, &self.action_maps, names[j].as_str());
            }
            proof {
                let frag = if spec_last_binds_index(binds@, name_views[j as int]) is None {
                    spec_emitted_for_name(self.action_maps@, name_views[j as int])
                } else {
                    Seq::<char>::empty()
                };
                assert(out@ =~= before + frag);
                assert((before + frag) + spec_emit_unkeyed(
                    self.action_maps@,
                    name_views,
                    binds@,
                    j as int + 1,
                ) =~= before + spec_emit_unkeyed(self.action_maps@, name_views, binds@, j as int));
            }
            j = j + 1;
        }
        proof {
            assert(spec_emit_unkeyed(self.action_maps@, name_views, binds@, nn as int)
                =~= Seq::<char>::empty());
            assert(out@ + Seq::<char>::empty() =~= out@);
        }
        out.append("</ActionMaps>\n");
        proof {
            assert(out@ =~= spec_profile_xml_with_categories(
                *self,
                match all_binds {
                    Some(b) => b.action_maps@,
                    None => Seq::<AllBindsActionMap>::empty(),
                },
            ));
        }
        out
    }
}

} // verus!
