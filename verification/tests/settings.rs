use klipo::settings::{parse_shortcut, valid_or_default_settings, ShortcutSettings};

#[test]
fn defaults_are_valid() {
    assert!(ShortcutSettings::default().validate().is_ok());
}

#[test]
fn rejects_duplicates_and_escape() {
    let mut settings = ShortcutSettings::default();
    settings.move_selection_up = settings.open_klipo.clone();
    assert!(settings
        .validate()
        .unwrap_err()
        .contains("already assigned"));
    settings.move_selection_up = "Escape".into();
    assert!(settings.validate().unwrap_err().contains("reserved"));
}

#[test]
fn validation_errors_name_the_first_refused_action() {
    let mut settings = ShortcutSettings::default();
    settings.paste_selected_item = "escape".into();
    assert_eq!(
        settings.validate(),
        Err("Paste selected item: Escape is reserved for closing Klipo".to_owned())
    );

    let mut settings = ShortcutSettings::default();
    settings.delete_selected_item = "arrowup".into();
    assert_eq!(
        settings.validate(),
        Err("Delete selected item: this shortcut is already assigned".to_owned())
    );

    let mut settings = ShortcutSettings::default();
    settings.move_selection_down = String::new();
    assert_eq!(
        settings.validate(),
        Err("Move selection down: Escape is reserved for closing Klipo".to_owned())
    );

    let mut settings = ShortcutSettings::default();
    settings.open_klipo = "NOT A SHORTCUT".into();
    assert_eq!(
        settings.validate(),
        Err("Open Klipo: unsupported shortcut".to_owned())
    );

    let settings = ShortcutSettings {
        version: 2,
        ..ShortcutSettings::default()
    };
    assert_eq!(
        settings.validate(),
        Err("Unsupported settings version".to_owned())
    );
}

#[test]
fn entries_list_actions_in_display_order() {
    let settings = ShortcutSettings::default();
    assert_eq!(
        settings.entries(),
        [
            ("Open Klipo", "SUPER+SHIFT+KeyV"),
            ("Move selection up", "ArrowUp"),
            ("Move selection down", "ArrowDown"),
            ("Paste selected item", "Enter"),
            ("Delete selected item", "Delete"),
        ]
    );
}

#[test]
fn invalid_saved_settings_fall_back_to_defaults() {
    let mut saved = ShortcutSettings::default();
    saved.open_klipo = "Escape".into();
    assert_eq!(valid_or_default_settings(saved), ShortcutSettings::default());

    let mut saved = ShortcutSettings::default();
    saved.open_klipo = "SUPER+ALT+KeyK".into();
    assert_eq!(valid_or_default_settings(saved.clone()), saved);
}

#[test]
fn shortcuts_parse_to_stable_ids() {
    let first = parse_shortcut("SUPER+SHIFT+KeyV").expect("default shortcut parses");
    let second = parse_shortcut("shift+super+KeyV").expect("reordered shortcut parses");
    assert_eq!(first, second);
    assert_ne!(Some(first), parse_shortcut("SUPER+ALT+KeyK"));
    assert_eq!(parse_shortcut("NOT A SHORTCUT"), None);
}
