use codeverse::keybindings::{default_keybindings, keysym_to_workspace_num, Action, Keybinding,
    KeybindingsConfig, Modifier, KEYSYM_C, KEYSYM_D, KEYSYM_F12, KEYSYM_Q};

#[test]
fn test_parse_simple_keybinding() {
    let kb = Keybinding::parse("Super+d").unwrap();
    assert_eq!(kb.modifiers, vec![Modifier::Super]);
    assert_eq!(kb.key, KEYSYM_D);
}

#[test]
fn test_parse_multiple_modifiers() {
    let kb = Keybinding::parse("Super+Shift+q").unwrap();
    assert_eq!(kb.modifiers, vec![Modifier::Super, Modifier::Shift]);
    assert_eq!(kb.key, KEYSYM_Q);
}

#[test]
fn test_parse_function_key() {
    let kb = Keybinding::parse("F12").unwrap();
    assert_eq!(kb.modifiers, vec![]);
    assert_eq!(kb.key, KEYSYM_F12);
}

#[test]
fn test_parse_with_ctrl() {
    let kb = Keybinding::parse("Ctrl+c").unwrap();
    assert_eq!(kb.modifiers, vec![Modifier::Ctrl]);
    assert_eq!(kb.key, KEYSYM_C);
}

#[test]
fn test_parse_invalid_modifier() {
    let result = Keybinding::parse("Invalid+d");
    assert!(result.is_err());
}

#[test]
fn test_parse_invalid_key() {
    let result = Keybinding::parse("Super+invalid");
    assert!(result.is_err());
}

#[test]
fn test_keybinding_matches() {
    let kb = Keybinding::parse("Super+Shift+q").unwrap();
    assert!(kb.matches(KEYSYM_Q, true, true, false, false));
    assert!(!kb.matches(KEYSYM_Q, true, false, false, false));
    assert!(!kb.matches(KEYSYM_Q, false, true, false, false));
    assert!(!kb.matches(KEYSYM_D, true, true, false, false));
}

#[test]
fn test_default_keybindings() {
    let config = KeybindingsConfig::default();
    assert!(!config.bindings.is_empty());
    assert!(config.bindings.contains_key("Super+d"));
    assert_eq!(config.bindings.get("Super+d"), Some(&Action::ToggleLauncher));
}

#[test]
fn test_parse_all_default_bindings() {
    let config = KeybindingsConfig::default();
    let parsed = config.parse_all();

    // Should successfully parse all default bindings
    assert!(!parsed.is_empty());

    // Check a specific binding
    let launcher_kb = Keybinding::parse("Super+d").unwrap();
    let found = parsed.iter().find(|p| p.0 == launcher_kb);
    assert_eq!(found.map(|p| &p.1), Some(&Action::ToggleLauncher));
}

#[test]
fn parse_trims_and_ignores_case() {
    let kb = Keybinding::parse(" super + SHIFT + Q ").unwrap();
    assert_eq!(kb.modifiers, vec![Modifier::Super, Modifier::Shift]);
    assert_eq!(kb.key, KEYSYM_Q);
}

#[test]
fn parse_accepts_modifier_synonyms() {
    assert_eq!(
        Keybinding::parse("Mod+d").unwrap().modifiers,
        vec![Modifier::Super]
    );
    assert_eq!(
        Keybinding::parse("Win+d").unwrap().modifiers,
        vec![Modifier::Super]
    );
    assert_eq!(
        Keybinding::parse("Control+d").unwrap().modifiers,
        vec![Modifier::Ctrl]
    );
    assert_eq!(
        Keybinding::parse("Alt+d").unwrap().modifiers,
        vec![Modifier::Alt]
    );
}

#[test]
fn default_table_binds_workspace_digits() {
    let map = default_keybindings();
    assert_eq!(map.get("Super+1"), Some(&Action::SwitchWorkspace(1)));
    assert_eq!(map.get("Super+9"), Some(&Action::SwitchWorkspace(9)));
    assert_eq!(map.get("Super+0"), Some(&Action::SwitchWorkspace(10)));
    assert_eq!(map.get("Super+Shift+4"), Some(&Action::MoveToWorkspace(4)));
    assert_eq!(map.get("Super+Shift+0"), Some(&Action::MoveToWorkspace(10)));
    assert_eq!(map.get("F12"), Some(&Action::SpawnTerminal));
    assert_eq!(map.get("Super+x"), None);
}

#[test]
fn binding_map_insert_replaces() {
    let mut map = codeverse::keybindings::BindingMap::new();
    map.insert("Super+z".to_string(), Action::Quit);
    map.insert("Super+z".to_string(), Action::CloseWindow);
    assert_eq!(map.get("Super+z"), Some(&Action::CloseWindow));
}

#[test]
fn keysym_digits_select_workspaces() {
    assert_eq!(keysym_to_workspace_num(0x31), Some(1));
    assert_eq!(keysym_to_workspace_num(0x39), Some(9));
    assert_eq!(keysym_to_workspace_num(0x30), Some(10));
    assert_eq!(keysym_to_workspace_num(0x61), None);
}
