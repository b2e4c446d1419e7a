use dx11_overlay::debug::DebugFeatures;
use dx11_overlay::keybinds::{
    action_from_name, find_action, get_current_keybind, init_keybinds, load_keybinds,
    parse_keybind_line, toggle_debug_overlay, toggle_processing_action, toggle_rendering_action,
    try_init_keybinds, try_load_keybinds, try_parse_keybind_line, Action, ConfigError, KeyBind,
    KeyBinds, OverlayToggle, DEFAULT_KEYBINDS,
};

fn chord(key: char, ctrl: bool, alt: bool, shift: bool) -> KeyBind {
    KeyBind { key: key as u32, ctrl, alt, shift }
}

/// Parses a line that binds no chord to an unknown action, both ways.
fn parsed(line: &str) -> Option<(KeyBind, Action)> {
    let tried = try_parse_keybind_line(line).unwrap();
    assert_eq!(parse_keybind_line(line), tried);
    tried
}

fn unknown(result: Result<Option<(KeyBind, Action)>, ConfigError>) -> String {
    match result {
        Err(ConfigError::UnknownAction(name)) => name,
        Ok(found) => panic!("expected an error, got {found:?}"),
    }
}

#[test]
fn built_in_actions_have_their_names() {
    assert_eq!(action_from_name("dump_debug_data"), Action::DumpDebugData);
    assert_eq!(action_from_name("restart_blish"), Action::RestartBlish);
    assert_eq!(action_from_name("toggle_rendering"), Action::ToggleRendering);
    assert_eq!(action_from_name("toggle_processing"), Action::ToggleProcessing);
    assert_eq!(action_from_name("toggle_debug_overlay"), Action::ToggleDebugOverlay);
    assert_eq!(find_action("dump_debug_data"), Some(Action::DumpDebugData));
    assert_eq!(find_action("restart_blish"), Some(Action::RestartBlish));
    assert_eq!(find_action("toggle_rendering"), Some(Action::ToggleRendering));
    assert_eq!(find_action("toggle_processing"), Some(Action::ToggleProcessing));
    assert_eq!(find_action("toggle_debug_overlay"), Some(Action::ToggleDebugOverlay));
}

#[test]
fn other_names_are_no_actions() {
    assert_eq!(find_action(""), None);
    assert_eq!(find_action("Dump_Debug_Data"), None);
    assert_eq!(find_action("toggle_rendering "), None);
    assert_eq!(find_action("toggle"), None);
    assert_eq!(find_action("restart_blish2"), None);
}

#[test]
fn chord_with_modifiers_and_key() {
    assert_eq!(
        parsed("Ctrl+Alt+P dump_debug_data"),
        Some((chord('P', true, true, false), Action::DumpDebugData))
    );
    assert_eq!(
        parsed("Shift+F toggle_rendering"),
        Some((chord('F', false, false, true), Action::ToggleRendering))
    );
    assert_eq!(
        parsed("Ctrl+Alt+Shift+x restart_blish"),
        Some((chord('x', true, true, true), Action::RestartBlish))
    );
    assert_eq!(parsed("Q toggle_processing"), Some((chord('Q', false, false, false), Action::ToggleProcessing)));
}

#[test]
fn modifiers_are_matched_without_regard_to_case() {
    assert_eq!(
        parsed("CTRL+aLt+sHIFT+D toggle_debug_overlay"),
        Some((chord('D', true, true, true), Action::ToggleDebugOverlay))
    );
}

#[test]
fn unknown_modifiers_are_ignored() {
    assert_eq!(
        parsed("Win+Ctrl+Meta+K dump_debug_data"),
        Some((chord('K', true, false, false), Action::DumpDebugData))
    );
    assert_eq!(
        parsed("Control+K dump_debug_data"),
        Some((chord('K', false, false, false), Action::DumpDebugData))
    );
    assert_eq!(
        parsed("++K dump_debug_data"),
        Some((chord('K', false, false, false), Action::DumpDebugData))
    );
}

#[test]
fn a_modifier_name_in_the_last_part_is_the_key() {
    assert_eq!(parsed("Ctrl dump_debug_data"), Some((chord('C', false, false, false), Action::DumpDebugData)));
    assert_eq!(parsed("Alt+Shift dump_debug_data"), Some((chord('S', false, true, false), Action::DumpDebugData)));
}

#[test]
fn key_is_the_first_character_of_the_last_part() {
    assert_eq!(
        parsed("Ctrl+Space toggle_rendering"),
        Some((chord('S', true, false, false), Action::ToggleRendering))
    );
    assert_eq!(
        parsed("Alt+\u{e9}t\u{e9} toggle_rendering"),
        Some((chord('\u{e9}', false, true, false), Action::ToggleRendering))
    );
}

#[test]
fn white_space_separates_the_words() {
    let expected = Some((chord('P', true, false, false), Action::RestartBlish));
    assert_eq!(parsed("  Ctrl+P   restart_blish  "), expected);
    assert_eq!(parsed("\tCtrl+P\trestart_blish\r"), expected);
    assert_eq!(parsed("Ctrl+P\u{a0}restart_blish"), expected);
    assert_eq!(parsed("Ctrl+P\u{3000}restart_blish\u{2028}"), expected);
    assert_eq!(parsed("Ctrl+P restart_blish and more words"), expected);
}

#[test]
fn lines_without_two_words_bind_nothing() {
    assert_eq!(parsed(""), None);
    assert_eq!(parsed("   \t "), None);
    assert_eq!(parsed("Ctrl+P"), None);
    assert_eq!(parsed("  Ctrl+P  "), None);
    assert_eq!(parsed("nonsense"), None);
}

#[test]
fn chord_that_ends_in_plus_binds_nothing() {
    assert_eq!(parsed("Ctrl+ dump_debug_data"), None);
    assert_eq!(parsed("+ dump_debug_data"), None);
    // The action is not even looked at.
    assert_eq!(parsed("Ctrl+ no_such_action"), None);
    assert_eq!(parse_keybind_line("Ctrl+ no_such_action"), None);
}

#[test]
fn unknown_action_is_an_error() {
    assert_eq!(unknown(try_parse_keybind_line("Ctrl+P launch_rockets")), "launch_rockets");
    assert_eq!(
        unknown(try_parse_keybind_line("  Ctrl+P \t Toggle_Rendering extra")),
        "Toggle_Rendering"
    );
    assert_eq!(unknown(try_parse_keybind_line("P \u{e9}t\u{e9}")), "\u{e9}t\u{e9}");
}

#[test]
fn table_lookup_finds_what_was_bound_last() {
    let mut table = KeyBinds::new();
    let p = chord('P', true, true, false);
    assert_eq!(table.get(&p), None);
    table.insert(p, Action::DumpDebugData);
    table.insert(chord('O', true, true, false), Action::RestartBlish);
    assert_eq!(table.get(&p), Some(Action::DumpDebugData));
    table.insert(p, Action::ToggleRendering);
    assert_eq!(table.get(&p), Some(Action::ToggleRendering));
    assert_eq!(table.get(&chord('O', true, true, false)), Some(Action::RestartBlish));
    assert_eq!(table.get(&chord('P', true, true, true)), None);
    assert_eq!(table.get(&chord('P', false, true, false)), None);
    assert_eq!(table.get(&chord('P', true, false, false)), None);
    assert_eq!(table.get(&chord('p', true, true, false)), None);
}

#[test]
fn text_is_read_line_by_line() {
    let text = "Ctrl+Alt+P dump_debug_data\r\n\n\nShift+B toggle_rendering\nbroken\nCtrl+ nothing\nAlt+N toggle_processing";
    let table = load_keybinds(text);
    assert_eq!(
        table.entries,
        vec![
            (chord('P', true, true, false), Action::DumpDebugData),
            (chord('B', false, false, true), Action::ToggleRendering),
            (chord('N', false, true, false), Action::ToggleProcessing),
        ]
    );
    assert_eq!(try_load_keybinds(text).unwrap().entries, table.entries);
    assert_eq!(table.get(&chord('B', false, false, true)), Some(Action::ToggleRendering));
}

#[test]
fn later_line_replaces_an_earlier_one() {
    let table = load_keybinds("Ctrl+P dump_debug_data\nCtrl+P restart_blish\n");
    assert_eq!(table.entries.len(), 2);
    assert_eq!(table.get(&chord('P', true, false, false)), Some(Action::RestartBlish));
}

#[test]
fn empty_text_gives_an_empty_table() {
    assert!(load_keybinds("").entries.is_empty());
    assert!(load_keybinds("\n\n\n").entries.is_empty());
    assert!(try_load_keybinds("").unwrap().entries.is_empty());
}

#[test]
fn first_unknown_action_refuses_the_whole_text() {
    let text = "Ctrl+P dump_debug_data\nCtrl+Q first_bad\nCtrl+R second_bad\n";
    match try_load_keybinds(text) {
        Err(ConfigError::UnknownAction(name)) => assert_eq!(name, "first_bad"),
        Ok(_) => panic!("the text must be refused"),
    }
    match try_load_keybinds("Ctrl+P dump_debug_data\nCtrl+Q last_bad") {
        Err(ConfigError::UnknownAction(name)) => assert_eq!(name, "last_bad"),
        Ok(_) => panic!("the text must be refused"),
    }
}

#[test]
fn default_bindings() {
    assert_eq!(
        DEFAULT_KEYBINDS,
        "Ctrl+Alt+P dump_debug_data\nCtrl+Alt+O restart_blish\nCtrl+Alt+B toggle_rendering\nCtrl+Alt+N toggle_processing\nCtrl+Alt+D toggle_debug_overlay\n"
    );
    assert!(try_init_keybinds(None).is_ok());
    let table = init_keybinds(None);
    assert_eq!(
        table.entries,
        vec![
            (chord('P', true, true, false), Action::DumpDebugData),
            (chord('O', true, true, false), Action::RestartBlish),
            (chord('B', true, true, false), Action::ToggleRendering),
            (chord('N', true, true, false), Action::ToggleProcessing),
            (chord('D', true, true, false), Action::ToggleDebugOverlay),
        ]
    );
}

#[test]
fn existing_text_is_used_instead_of_the_defaults() {
    let table = init_keybinds(Some("Shift+Z restart_blish"));
    assert_eq!(table.entries, vec![(chord('Z', false, false, true), Action::RestartBlish)]);
    assert_eq!(
        try_init_keybinds(Some("Shift+Z restart_blish")).unwrap().entries,
        table.entries
    );
    match try_init_keybinds(Some("Shift+Z nope")) {
        Err(ConfigError::UnknownAction(name)) => assert_eq!(name, "nope"),
        Ok(_) => panic!("the text must be refused"),
    }
}

#[test]
fn pressed_chord_takes_the_high_bit_of_each_state() {
    assert_eq!(get_current_keybind(0x50, -128, -127, 0), chord('P', true, true, false));
    assert_eq!(get_current_keybind(0x50, 1, 0, i16::MIN), chord('P', false, false, true));
    assert_eq!(get_current_keybind(0x50, i16::MAX, 127, -1), chord('P', false, false, true));
    assert_eq!(
        get_current_keybind(u32::MAX, 0, 0, 0),
        KeyBind { key: u32::MAX, ctrl: false, alt: false, shift: false }
    );
}

#[test]
fn toggles_flip_one_switch_each() {
    let mut features = DebugFeatures::new();
    assert!(features.rendering_enabled && features.processing_enabled);
    assert!(!features.debug_overlay_enabled);
    toggle_rendering_action(&mut features);
    assert_eq!(
        features,
        DebugFeatures {
            rendering_enabled: false,
            processing_enabled: true,
            debug_overlay_enabled: false
        }
    );
    toggle_processing_action(&mut features);
    toggle_rendering_action(&mut features);
    assert_eq!(
        features,
        DebugFeatures {
            rendering_enabled: true,
            processing_enabled: false,
            debug_overlay_enabled: false
        }
    );
    assert_eq!(toggle_debug_overlay(&mut features), OverlayToggle::Refresh);
    assert!(features.debug_overlay_enabled);
    assert_eq!(toggle_debug_overlay(&mut features), OverlayToggle::Clear);
    assert!(!features.debug_overlay_enabled);
    assert!(features.rendering_enabled && !features.processing_enabled);
}
