use calculator::{
    parse_settings, settings_document, settings_from_values, SettingKey,
    Settings, SettingsError, StoredValues,
};

fn sample() -> Settings {
    Settings {
        persistent_keypad: true,
        keypad_expanded: true,
        history_expanded: false,
        convert_expanded: true,
        window_width: 812,
        is_maximized: true,
    }
}

#[test]
fn default_settings_values() {
    let s = Settings::default();
    assert!(!s.persistent_keypad);
    assert!(s.keypad_expanded && !s.history_expanded && !s.convert_expanded);
    assert_eq!(s.window_width, 675);
    assert!(!s.is_maximized);
}

#[test]
fn document_round_trip() {
    let text = settings_document(&sample());
    assert!(text.contains("[settings]"));
    assert!(text.contains("[window]"));
    assert!(text.contains("width = 812"));
    assert_eq!(parse_settings(&text), Ok(sample()));
    let d = Settings::default();
    assert_eq!(parse_settings(&settings_document(&d)), Ok(d));
}

#[test]
fn parses_written_document() {
    let text = "[settings]\npersistent_keypad = false\nkeypad_expanded = false\nhistory_expanded = true\nconvert_expanded = false\n\n[window]\nwidth = 700\nis_maximized = false\n";
    let s = parse_settings(text).unwrap();
    assert!(!s.persistent_keypad && !s.keypad_expanded && s.history_expanded);
    assert_eq!(s.window_width, 700);
}

#[test]
fn syntax_error_is_reported() {
    assert_eq!(parse_settings("[settings\nx = "), Err(SettingsError::Syntax));
}

#[test]
fn missing_tables_are_reported() {
    assert_eq!(parse_settings(""), Err(SettingsError::Missing(SettingKey::SettingsTable)));
    let text = "[settings]\npersistent_keypad = false\nkeypad_expanded = true\nhistory_expanded = false\nconvert_expanded = false\n";
    assert_eq!(parse_settings(text), Err(SettingsError::Missing(SettingKey::WindowTable)));
}

#[test]
fn missing_or_mistyped_values_are_reported() {
    let text = "[settings]\npersistent_keypad = false\nkeypad_expanded = 1\nhistory_expanded = false\nconvert_expanded = false\n[window]\nwidth = 700\nis_maximized = false\n";
    assert_eq!(parse_settings(text), Err(SettingsError::Missing(SettingKey::KeypadExpanded)));
    let text = "[settings]\npersistent_keypad = false\nkeypad_expanded = true\nhistory_expanded = false\nconvert_expanded = false\n[window]\nis_maximized = false\n";
    assert_eq!(parse_settings(text), Err(SettingsError::Missing(SettingKey::Width)));
    let text = "[settings]\npersistent_keypad = false\nkeypad_expanded = true\nhistory_expanded = false\nconvert_expanded = false\n[window]\nwidth = 700\n";
    assert_eq!(parse_settings(text), Err(SettingsError::Missing(SettingKey::IsMaximized)));
}

#[test]
fn width_out_of_range_is_reported() {
    let text = "[settings]\npersistent_keypad = false\nkeypad_expanded = true\nhistory_expanded = false\nconvert_expanded = false\n[window]\nwidth = 3000000000\nis_maximized = false\n";
    assert_eq!(parse_settings(text), Err(SettingsError::WidthOutOfRange(3000000000)));
}

#[test]
fn values_decode_in_reading_order() {
    let full = StoredValues {
        settings_table: true,
        persistent_keypad: Some(true),
        keypad_expanded: Some(false),
        history_expanded: Some(true),
        convert_expanded: Some(false),
        window_table: true,
        width: Some(640),
        is_maximized: Some(false),
    };
    let s = settings_from_values(&full).unwrap();
    assert!(s.persistent_keypad && s.history_expanded);
    assert_eq!(s.window_width, 640);
    let v = StoredValues { persistent_keypad: None, is_maximized: None, ..full };
    assert_eq!(settings_from_values(&v), Err(SettingsError::Missing(SettingKey::PersistentKeypad)));
    let v = StoredValues { history_expanded: None, ..full };
    assert_eq!(settings_from_values(&v), Err(SettingsError::Missing(SettingKey::HistoryExpanded)));
    let v = StoredValues { convert_expanded: None, ..full };
    assert_eq!(settings_from_values(&v), Err(SettingsError::Missing(SettingKey::ConvertExpanded)));
    let v = StoredValues { width: Some(-3000000000), ..full };
    assert_eq!(settings_from_values(&v), Err(SettingsError::WidthOutOfRange(-3000000000)));
}

#[test]
fn written_document_holds_two_tables_and_no_height() {
    let text = settings_document(&sample());
    assert!(!text.contains("height"));
    assert!(text.contains("persistent_keypad = true"));
    assert!(text.contains("is_maximized = true"));
    let settings_at = text.find("[settings]").unwrap();
    let window_at = text.find("[window]").unwrap();
    assert!(settings_at < window_at);
}
