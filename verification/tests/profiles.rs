//! Device identity, naming, the device table, keybinding parsing and
//! display, and the HID tracker.

use sc_binding_utility::device_database::{parse_device_id, DeviceDatabase, DeviceEntry};
use sc_binding_utility::device_profiles::{
    all_profiles, invert_profile, normalize_name, profile_for_device, profiles_snapshot,
};
use sc_binding_utility::hid::{detect_bit_depth, HidAxisTracker};
use sc_binding_utility::identity::{friendly_device_name, resolve_device_uuid, resolve_xinput_uuid};
use sc_binding_utility::keybindings::{
    capitalize_word, format_display_name, generate_unbind_xml, split_camel_case, Action,
    ActionMap, ActionMaps, AllBinds, AllBindsAction, AllBindsActionMap, Category, DeviceInfo,
    DeviceSelection, InputType, Rebind,
};
use sc_binding_utility::state::AppState;
use sc_binding_utility::text::{
    contains_str, dec_string, hex4_string, hex4_upper_string, lower_string, parse_dec_u32,
    parse_hex_u32, split_char, trim_str, upper_string,
};

fn entry(vid: &str, pid: &str, name: &str) -> DeviceEntry {
    DeviceEntry {
        vendor_id: vid.to_string(),
        product_id: pid.to_string(),
        name: name.to_string(),
        device_type: "joystick".to_string(),
        axis_profile: "default".to_string(),
    }
}

fn rebind(input: &str) -> Rebind {
    Rebind { input: input.to_string(), multi_tap: None, activation_mode: String::new() }
}

#[test]
fn text_helpers_exact() {
    assert_eq!(dec_string(0), "0");
    assert_eq!(dec_string(231), "231");
    assert_eq!(hex4_string(0x231d), "231d");
    assert_eq!(hex4_upper_string(0x1000), "1000");
    assert_eq!(hex4_upper_string(0xabcd), "ABCD");
    assert_eq!(lower_string("VKB Gladiator NXT"), "vkb gladiator nxt");
    assert_eq!(upper_string("lalt"), "LALT");
    assert!(contains_str("vkb gladiator nxt", "gladiator"));
    assert!(!contains_str("xbox wireless", "gladiator"));
    assert_eq!(trim_str("  js1_button3  "), "js1_button3");
    assert_eq!(trim_str("   "), "");
    let parts = split_char("LALT+js1_button3", '+');
    assert_eq!(parts, vec!["LALT".to_string(), "js1_button3".to_string()]);
}

#[test]
fn number_parsing_and_errors() {
    assert_eq!(parse_dec_u32("42"), Some(42));
    assert_eq!(parse_dec_u32(""), None);
    assert_eq!(parse_dec_u32("4x2"), None);
    assert_eq!(parse_dec_u32("99999999999"), None);
    assert_eq!(parse_hex_u32("231d"), Some(0x231d));
    assert_eq!(parse_hex_u32("zz"), None);
    assert_eq!(parse_device_id("0x231d"), Some(0x231d));
    assert_eq!(parse_device_id("044f"), Some(0x044f));
    assert_eq!(parse_device_id("0x"), None);
}

#[test]
fn device_database_init_and_lookup() {
    let rows = vec![entry("0x231d", "0x0200", "VKB Gladiator NXT")];
    let db = DeviceDatabase::init(rows, Vec::new()).unwrap();
    let hit = db.lookup_device(0x231d, 0x0200).unwrap();
    assert_eq!(hit.name, "VKB Gladiator NXT");
    assert!(db.lookup_device(0x231d, 0x0300).is_none());
}

#[test]
fn device_database_rejects_bad_ids() {
    let bad_vendor = vec![entry("0xzz", "0x0200", "X")];
    match DeviceDatabase::init(bad_vendor, Vec::new()) {
        Ok(_) => panic!("expected a vendor id error"),
        Err(e) => assert_eq!(e, "Invalid vendor_id format"),
    }
    let bad_product = vec![entry("0x231d", "", "X")];
    match DeviceDatabase::init(bad_product, Vec::new()) {
        Ok(_) => panic!("expected a product id error"),
        Err(e) => assert_eq!(e, "Invalid product_id format"),
    }
}

#[test]
fn axis_profile_lookup_and_snapshot() {
    let profiles = vec![(
        "default".to_string(),
        vec![("0".to_string(), "x".to_string()), ("1".to_string(), "y".to_string())],
    )];
    let db = DeviceDatabase::init(Vec::new(), profiles).unwrap();
    let p = db.get_axis_profile("default").unwrap();
    assert_eq!(p.len(), 2);
    assert_eq!(p[0], ("0".to_string(), "x".to_string()));
    assert!(db.get_axis_profile("missing").is_none());
    assert_eq!(all_profiles(&db).len(), 1);
    assert_eq!(profiles_snapshot(&db)[0].0, "default");
}

#[test]
fn invert_profile_swaps_pairs() {
    let profile = vec![("x".to_string(), 0u32), ("y".to_string(), 1u32)];
    let inv = invert_profile(&profile);
    assert_eq!(inv, vec![(0u32, "x".to_string()), (1u32, "y".to_string())]);
}

#[test]
fn device_uuid_resolution() {
    let zero = [0u8; 16];
    assert_eq!(resolve_device_uuid(&zero, "Stick", 2), "Stick_2");
    let mut sig = [0u8; 16];
    sig[0] = 0xab;
    sig[15] = 0x01;
    let hex = resolve_device_uuid(&sig, "Stick", 2);
    assert_eq!(hex.len(), 32);
    assert!(hex.starts_with("ab00"));
    assert!(hex.ends_with("01"));
    assert_eq!(resolve_xinput_uuid(3), "xinput_3");
}

#[test]
fn friendly_name_chain() {
    let rows = vec![entry("0x231d", "0x0200", "VKB Gladiator NXT Premium")];
    let db = DeviceDatabase::init(rows, Vec::new()).unwrap();
    let mapped = "SDL Name".to_string();
    assert_eq!(
        friendly_device_name(Some(&mapped), Some(0x231d), Some(0x0200), "raw", &db),
        "SDL Name"
    );
    assert_eq!(
        friendly_device_name(None, Some(0x231d), Some(0x0200), "raw", &db),
        "VKB Gladiator NXT Premium"
    );
    // unknown product of a known vendor with a generic HID name
    assert_eq!(
        friendly_device_name(None, Some(0x231d), Some(0x0201), "HID-compliant game controller", &db),
        "VKB Sim Device (PID: 0x0201)"
    );
    // unknown vendor falls back to the OS name
    assert_eq!(friendly_device_name(None, Some(0x9999), Some(0x0001), "Pad", &db), "Pad");
    assert_eq!(friendly_device_name(None, None, None, "Bare", &db), "Bare");
}

#[test]
fn input_type_parsing() {
    assert_eq!(rebind("kb_space").get_input_type(), InputType::Keyboard);
    assert_eq!(rebind("mouse1_left").get_input_type(), InputType::Mouse);
    assert_eq!(rebind("js1_button3").get_input_type(), InputType::Joystick);
    assert_eq!(rebind("gp1_axis1_negative").get_input_type(), InputType::Gamepad);
    assert_eq!(rebind("js1_ ").get_input_type(), InputType::Unknown);
    assert_eq!(rebind("kb_").get_input_type(), InputType::Unknown);
    assert_eq!(rebind("LALT+js1_button3").get_input_type(), InputType::Joystick);
    assert_eq!(rebind("something_else").get_input_type(), InputType::Unknown);
}

#[test]
fn display_name_formatting() {
    assert_eq!(rebind("js1_button3").get_display_name(), "Joystick 1 - Button 3");
    assert_eq!(rebind("js2_button15").get_display_name(), "Joystick 2 - Button 15");
    assert_eq!(rebind("kb_space").get_display_name(), "Keyboard - SPACE");
    assert_eq!(rebind("mouse1_left").get_display_name(), "Mouse - LEFT");
    assert_eq!(rebind("gp1_button2").get_display_name(), "Gamepad - Button 2");
    assert_eq!(rebind("js1_ ").get_display_name(), "Unbound");
    assert_eq!(rebind("").get_display_name(), "Unbound");
    assert_eq!(
        rebind("lalt+rctrl+js1_button3").get_display_name(),
        "Left Alt + Right Ctrl + Joystick 1 - Button 3"
    );
}

#[test]
fn keyboard_and_mouse_binding_detection() {
    let maps = ActionMaps {
        profile_name: "p".to_string(),
        action_maps: vec![ActionMap {
            name: "seat_general".to_string(),
            actions: vec![Action {
                name: "eject".to_string(),
                rebinds: vec![rebind("kb_y"), rebind("js1_button4")],
            }],
        }],
        categories: vec![],
        devices: DeviceInfo { keyboards: vec![], mice: vec![], joysticks: vec![] },
    };
    assert!(maps.has_keyboard_bindings());
    assert!(!maps.has_mouse_bindings());
    let empty = ActionMaps {
        profile_name: "p".to_string(),
        action_maps: vec![],
        categories: vec![],
        devices: DeviceInfo { keyboards: vec![], mice: vec![], joysticks: vec![] },
    };
    assert!(!empty.has_keyboard_bindings());
    let _ = ActionMaps::new_empty_action_map("m".to_string(), Vec::new());
    let st = AppState::new();
    assert!(st.current_bindings.is_none());
    assert!(st.all_binds.is_none());
    let _ = AllBinds { action_maps: Vec::new() };
}

#[test]
fn test_axis_tracker() {
    let mut tracker = HidAxisTracker::new();

    let report1 = vec![0x01, 0x00, 128, 128, 128, 128, 128, 128];
    let report2 = vec![0x01, 0x00, 128, 128, 128, 150, 128, 128];
    let report3 = vec![0x01, 0x00, 128, 128, 128, 150, 200, 128];

    let _ = tracker.process_report(&report1);
    let _ = tracker.process_report(&report2);
    let result = tracker.process_report(&report3).unwrap();

    let changes = tracker.get_change_report();
    let count_at = |i: usize| changes.iter().find(|p| p.0 == i).map(|p| p.1).unwrap_or(0);
    assert!(count_at(5) > 0);
    assert!(count_at(6) > 0);
    assert!(result.axis_values.len() > 0);
}

#[test]
fn profile_xml_round_trip_values() {
    let xml = r#"<?xml version="1.0" encoding="UTF-8"?>
<ActionMaps version="1" profileName="Test Profile">
 <CustomisationUIHeader label="Test Profile">
  <categories><category label="Flight"/></categories>
 </CustomisationUIHeader>
 <actionmap name="seat_general">
  <action name="v_eject">
   <rebind input="js1_button3" multiTap="2"/>
  </action>
 </actionmap>
</ActionMaps>"#;
    let maps = ActionMaps::from_xml(xml).unwrap();
    assert_eq!(maps.profile_name, "Test Profile");
    assert_eq!(maps.categories.len(), 1);
    assert_eq!(maps.categories[0].label, "Flight");
    assert_eq!(maps.action_maps.len(), 1);
    assert_eq!(maps.action_maps[0].name, "seat_general");
    assert_eq!(maps.action_maps[0].actions[0].name, "v_eject");
    assert_eq!(maps.action_maps[0].actions[0].rebinds[0].input, "js1_button3");
    assert_eq!(maps.action_maps[0].actions[0].rebinds[0].multi_tap, Some(2));
}

#[test]
fn all_binds_xml_parsing() {
    let xml = r#"<profile>
 <actionmap name="seat_general" version="1" UILabel="Seat" UICategory="Flight">
  <action name="v_eject" UILabel="Eject" onHold="1" keyboard="y" joystick="button4"/>
 </actionmap>
</profile>"#;
    let binds = AllBinds::from_xml(xml).unwrap();
    assert_eq!(binds.action_maps.len(), 1);
    assert_eq!(binds.action_maps[0].ui_category, "Flight");
    let a = &binds.action_maps[0].actions[0];
    assert_eq!(a.name, "v_eject");
    assert!(a.on_hold);
    assert_eq!(a.default_keyboard, "y");
    assert_eq!(a.default_joystick, "button4");
}

#[test]
fn malformed_xml_reports_parse_error() {
    match ActionMaps::from_xml("<a><b></a>") {
        Ok(_) => panic!("expected a parse error"),
        Err(e) => assert!(e.starts_with("XML parsing error: ")),
    }
}

#[test]
fn to_xml_exports_exact_text() {
    let maps = ActionMaps {
        profile_name: "Exported".to_string(),
        action_maps: vec![
            ActionMap {
                name: "seat_general".to_string(),
                actions: vec![
                    Action {
                        name: "v_eject".to_string(),
                        rebinds: vec![Rebind {
                            input: "js1_button3".to_string(),
                            multi_tap: Some(2),
                            activation_mode: String::new(),
                        }],
                    },
                    // an explicitly unbound action is not exported
                    Action { name: "v_idle".to_string(), rebinds: vec![rebind("js1_ ")] },
                ],
            },
            // a map with no real customisation is not exported
            ActionMap { name: "empty_map".to_string(), actions: vec![] },
        ],
        categories: vec![Category { label: "Flight".to_string() }],
        devices: DeviceInfo { keyboards: vec![], mice: vec![], joysticks: vec![] },
    };
    let xml = maps.to_xml();
    let expected = "<?xml version=\"1.0\" encoding=\"UTF-8\"?>\n\
<ActionMaps version=\"1\" optionsVersion=\"2\" rebindVersion=\"2\" profileName=\"Exported\">\n \
<CustomisationUIHeader label=\"Exported\" description=\"\" image=\"\">\n  \
<devices>\n   \
<joystick instance=\"1\"/>\n   \
<joystick instance=\"2\"/>\n  \
</devices>\n  \
<categories>\n   \
<category label=\"Flight\"/>\n  \
</categories>\n \
</CustomisationUIHeader>\n \
<modifiers />\n \
<actionmap name=\"seat_general\">\n  \
<action name=\"v_eject\">\n   \
<rebind input=\"js1_button3\" multiTap=\"2\"/>\n  \
</action>\n \
</actionmap>\n\
</ActionMaps>\n";
    assert_eq!(xml, expected);
}

#[test]
fn unbind_profile_exact_text() {
    let action = |name: &str| AllBindsAction {
        name: name.to_string(),
        ui_label: String::new(),
        ui_description: String::new(),
        category: String::new(),
        activation_mode: String::new(),
        on_hold: false,
        default_keyboard: String::new(),
        default_mouse: String::new(),
        default_gamepad: String::new(),
        default_joystick: String::new(),
    };
    let binds = AllBinds {
        action_maps: vec![AllBindsActionMap {
            name: "ui".to_string(),
            version: "1".to_string(),
            ui_label: String::new(),
            ui_category: String::new(),
            actions: vec![action("v_look"), action("ui_back")],
        }],
    };
    let devices = DeviceSelection {
        keyboard: true,
        mouse: false,
        gamepad: false,
        joystick1: true,
        joystick2: false,
    };
    let xml = generate_unbind_xml(&binds, &devices).unwrap();
    let expected = "<?xml version=\"1.0\" encoding=\"UTF-8\"?>\n\
<ActionMaps version=\"1\" optionsVersion=\"2\" rebindVersion=\"2\" profileName=\"UNBIND_ALL_DEVICES\">\n \
<CustomisationUIHeader label=\"UNBIND_ALL_DEVICES\" description=\"Clears all bindings for selected devices\" image=\"\">\n  \
<devices>\n   \
<keyboard instance=\"1\"/>\n   \
<joystick instance=\"1\"/>\n  \
</devices>\n \
</CustomisationUIHeader>\n \
<modifiers />\n \
<actionmap name=\"ui\">\n  \
<action name=\"v_look\">\n   \
<rebind input=\"kb1_ \"/>\n   \
<rebind input=\"js1_ \"/>\n  \
</action>\n  \
<action name=\"ui_back\">\n   \
<rebind input=\"kb1_escape\" activationMode=\"press\"/>\n  \
</action>\n \
</actionmap>\n\
</ActionMaps>\n";
    assert_eq!(xml, expected);
}

#[test]
fn merge_prefers_user_rows_and_fills_defaults() {
    let binds = AllBinds {
        action_maps: vec![AllBindsActionMap {
            name: "seat_general".to_string(),
            version: "1".to_string(),
            ui_label: "@ui_seat".to_string(),
            ui_category: "Flight".to_string(),
            actions: vec![AllBindsAction {
                name: "v_eject".to_string(),
                ui_label: "Eject".to_string(),
                ui_description: String::new(),
                category: String::new(),
                activation_mode: String::new(),
                on_hold: false,
                default_keyboard: "y".to_string(),
                default_mouse: String::new(),
                default_gamepad: String::new(),
                default_joystick: "button4".to_string(),
            }],
        }],
    };
    // no customisations: both defaults appear
    let merged = binds.merge_with_user_bindings(None);
    assert_eq!(merged.action_maps.len(), 1);
    // the localisation key falls back to the raw map name
    assert_eq!(merged.action_maps[0].ui_label, "seat_general");
    let action = &merged.action_maps[0].actions[0];
    assert_eq!(action.ui_label, "Eject");
    assert!(!action.is_customized);
    assert_eq!(action.bindings.len(), 2);
    assert_eq!(action.bindings[0].input, "kb_y");
    assert!(action.bindings[0].is_default);
    assert_eq!(action.bindings[1].input, "js1_button4");

    // a user joystick rebind replaces the joystick default and keeps the
    // keyboard default
    let user = ActionMaps {
        profile_name: "p".to_string(),
        action_maps: vec![ActionMap {
            name: "seat_general".to_string(),
            actions: vec![Action {
                name: "v_eject".to_string(),
                rebinds: vec![Rebind {
                    input: "js1_button9".to_string(),
                    multi_tap: None,
                    activation_mode: String::new(),
                }],
            }],
        }],
        categories: vec![],
        devices: DeviceInfo { keyboards: vec![], mice: vec![], joysticks: vec![] },
    };
    let merged = binds.merge_with_user_bindings(Some(&user));
    let action = &merged.action_maps[0].actions[0];
    assert!(action.is_customized);
    assert_eq!(action.bindings.len(), 2);
    assert_eq!(action.bindings[0].input, "js1_button9");
    assert!(!action.bindings[0].is_default);
    assert_eq!(action.bindings[0].display_name, "Joystick 1 - Button 9");
    assert_eq!(action.bindings[1].input, "kb_y");
    assert!(action.bindings[1].is_default);
}

#[test]
fn merge_cleared_binding_shows_original_default() {
    let binds = AllBinds {
        action_maps: vec![AllBindsActionMap {
            name: "seat_general".to_string(),
            version: "1".to_string(),
            ui_label: String::new(),
            ui_category: String::new(),
            actions: vec![AllBindsAction {
                name: "v_eject".to_string(),
                ui_label: String::new(),
                ui_description: String::new(),
                category: String::new(),
                activation_mode: String::new(),
                on_hold: false,
                default_keyboard: String::new(),
                default_mouse: String::new(),
                default_gamepad: String::new(),
                default_joystick: "button4".to_string(),
            }],
        }],
    };
    let user = ActionMaps {
        profile_name: "p".to_string(),
        action_maps: vec![ActionMap {
            name: "seat_general".to_string(),
            actions: vec![Action {
                name: "v_eject".to_string(),
                rebinds: vec![Rebind {
                    input: "js1_ ".to_string(),
                    multi_tap: None,
                    activation_mode: String::new(),
                }],
            }],
        }],
        categories: vec![],
        devices: DeviceInfo { keyboards: vec![], mice: vec![], joysticks: vec![] },
    };
    let merged = binds.merge_with_user_bindings(Some(&user));
    let action = &merged.action_maps[0].actions[0];
    // the cleared row counts as a default override; its class parses as
    // Unknown, so no original default is recoverable and it reads Unbound
    let row = &action.bindings[0];
    assert!(action.is_customized);
    assert!(row.is_default);
    assert_eq!(row.input, "js1_ ");
    assert_eq!(row.display_name, "Unbound");
    assert!(row.original_default.is_none());
    // the untouched joystick default still follows the cleared row
    assert_eq!(action.bindings[1].input, "js1_button4");
}

#[test]
fn profile_matching_chain() {
    assert_eq!(normalize_name("VKB-Sim Gladiator NXT!"), "vkbsim gladiator nxt");
    let profiles = vec![
        ("default".to_string(), vec![("0".to_string(), "x".to_string())]),
        ("Gladiator NXT".to_string(), vec![("0".to_string(), "y".to_string())]),
    ];
    let db = DeviceDatabase::init(Vec::new(), profiles).unwrap();
    // substring match: the profile name occurs inside the device name
    let (name, _) = profile_for_device(&db, "VKB Gladiator NXT Premium");
    assert_eq!(name, "Gladiator NXT");
    // exact match beats substring
    let (name, _) = profile_for_device(&db, "gladiator nxt");
    assert_eq!(name, "Gladiator NXT");
    // nothing matches: the default profile is chosen
    let (name, axes) = profile_for_device(&db, "Some Pad");
    assert_eq!(name, "default");
    assert_eq!(axes[0].1, "x");
}

#[test]
fn display_name_formatting_pipeline() {
    assert_eq!(format_display_name("v_toggle_vtol"), "Toggle VTOL");
    assert_eq!(format_display_name("pc_turret_gyromode"), "Turret Gyromode");
    assert_eq!(format_display_name("v_ifcs_esp_hold"), "IFCS ESP Hold");
    assert_eq!(format_display_name("strafe_up"), "Strafe UP");
    assert_eq!(format_display_name("zoomScale"), "Zoom Scale");
    assert_eq!(format_display_name(""), "");
    assert_eq!(split_camel_case("HTMLParser"), "HTML Parser");
    assert_eq!(split_camel_case("zoomScale"), "Zoom Scale");
    assert_eq!(capitalize_word("left"), "LEFT");
    assert_eq!(capitalize_word("x"), "X");
    assert_eq!(capitalize_word("1to1"), "1:1");
    assert_eq!(capitalize_word("roll"), "Roll");
    assert_eq!(Rebind::format_binding("button7"), "Button 7");
    assert_eq!(Rebind::format_binding("axis1_positive"), "AXIS1 POSITIVE");
}

#[test]
fn organize_formats_for_display() {
    let maps = ActionMaps {
        profile_name: "p".to_string(),
        action_maps: vec![ActionMap {
            name: "seat_general".to_string(),
            actions: vec![Action {
                name: "v_eject".to_string(),
                rebinds: vec![rebind("js1_button3")],
            }],
        }],
        categories: vec![
            Category { label: "Flight".to_string() },
            Category { label: String::new() },
        ],
        devices: DeviceInfo { keyboards: vec![], mice: vec![], joysticks: vec![] },
    };
    let o = maps.organize();
    assert_eq!(o.categories, vec!["Flight".to_string()]);
    assert_eq!(o.action_maps[0].display_name, "Seat General");
    let a = &o.action_maps[0].actions[0];
    assert_eq!(a.display_name, "Eject");
    assert_eq!(a.bindings[0].input_type, "Joystick");
    assert_eq!(a.bindings[0].display_name, "Joystick 1 - Button 3");
}

#[test]
fn bit_depth_detection() {
    assert_eq!(detect_bit_depth(0), 1);
    assert_eq!(detect_bit_depth(200), 8);
    assert_eq!(detect_bit_depth(1023), 10);
    assert_eq!(detect_bit_depth(2047), 11);
    assert_eq!(detect_bit_depth(4095), 12);
    assert_eq!(detect_bit_depth(65535), 16);
}

#[test]
fn vendor_ids_sorted_unique() {
    let rows = vec![
        entry("0x231d", "0x0200", "A"),
        entry("0x044f", "0x0402", "B"),
        entry("0x231d", "0x0201", "C"),
        entry("0x068e", "0x0001", "D"),
    ];
    let db = DeviceDatabase::init(rows, Vec::new()).unwrap();
    assert_eq!(db.get_vendor_ids(), vec![0x044f, 0x068e, 0x231d]);
    let empty = DeviceDatabase::init(Vec::new(), Vec::new()).unwrap();
    assert!(empty.get_vendor_ids().is_empty());
}

#[test]
fn profile_names_sorted_unique() {
    let profiles = vec![
        ("gladiator".to_string(), vec![]),
        ("default".to_string(), vec![]),
        ("warthog".to_string(), vec![]),
        ("default".to_string(), vec![]),
    ];
    let db = DeviceDatabase::init(Vec::new(), profiles).unwrap();
    assert_eq!(
        db.get_profile_names(),
        vec!["default".to_string(), "gladiator".to_string(), "warthog".to_string()]
    );
}

#[test]
fn to_xml_with_categories_orders_by_master_list() {
    let action = |name: &str, input: &str| Action {
        name: name.to_string(),
        rebinds: vec![Rebind {
            input: input.to_string(),
            multi_tap: None,
            activation_mode: "press".to_string(),
        }],
    };
    let maps = ActionMaps {
        profile_name: "P".to_string(),
        action_maps: vec![
            ActionMap { name: "zz_custom".to_string(), actions: vec![action("a1", "kb_q")] },
            ActionMap {
                name: "spaceship_general".to_string(),
                actions: vec![action("a2", "js1_button2")],
            },
            ActionMap { name: "seat_general".to_string(), actions: vec![action("a3", "js1_ ")] },
        ],
        categories: vec![],
        devices: DeviceInfo { keyboards: vec![], mice: vec![], joysticks: vec![] },
    };
    let master_map = |name: &str| AllBindsActionMap {
        name: name.to_string(),
        version: "1".to_string(),
        ui_label: String::new(),
        ui_category: String::new(),
        actions: vec![],
    };
    let binds = AllBinds {
        action_maps: vec![master_map("seat_general"), master_map("spaceship_general")],
    };
    let xml = maps.to_xml_with_categories(Some(&binds));
    // master-list order first (seat before spaceship), unknown maps last;
    // the cleared override and the activation mode are written out
    let seat = xml.find("<actionmap name=\"seat_general\">").unwrap();
    let ship = xml.find("<actionmap name=\"spaceship_general\">").unwrap();
    let custom = xml.find("<actionmap name=\"zz_custom\">").unwrap();
    assert!(seat < ship && ship < custom);
    assert!(xml.contains("<rebind input=\"js1_ \" activationMode=\"press\"/>"));
    assert!(!xml.contains("<categories>"));
}

#[test]
fn serialize_parse_round_trip() {
    let maps = ActionMaps {
        profile_name: "Round Trip".to_string(),
        action_maps: vec![ActionMap {
            name: "seat_general".to_string(),
            actions: vec![Action {
                name: "v_eject".to_string(),
                rebinds: vec![Rebind {
                    input: "js1_button3".to_string(),
                    multi_tap: Some(2),
                    activation_mode: String::new(),
                }],
            }],
        }],
        categories: vec![Category { label: "Flight".to_string() }],
        devices: DeviceInfo { keyboards: vec![], mice: vec![], joysticks: vec![] },
    };
    let parsed = ActionMaps::from_xml(&maps.to_xml()).unwrap();
    assert_eq!(parsed.profile_name, "Round Trip");
    assert_eq!(parsed.categories[0].label, "Flight");
    assert_eq!(parsed.action_maps[0].name, "seat_general");
    let action = &parsed.action_maps[0].actions[0];
    assert_eq!(action.name, "v_eject");
    assert_eq!(action.rebinds[0].input, "js1_button3");
    assert_eq!(action.rebinds[0].multi_tap, Some(2));
}
