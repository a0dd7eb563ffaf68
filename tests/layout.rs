use calculator::{settings_document, PanelEvent, SettingKey, Settings, SettingsError, TabPage, Window};

const KEYPAD: i32 = 300;
const TABS: i32 = 200;

fn open_with(p: bool, k: bool, h: bool, c: bool) -> Window {
    let s = Settings {
        persistent_keypad: p,
        keypad_expanded: k,
        history_expanded: h,
        convert_expanded: c,
        window_width: 675,
        is_maximized: false,
    };
    Window::from_settings(&s, KEYPAD, TABS)
}

#[test]
fn default_window_shows_keypad() {
    let w = Window::new(KEYPAD, TABS);
    assert!(!w.persistent_keypad);
    assert!(w.keypad_expanded && w.keypad_visible);
    assert!(!w.tabs_visible);
    assert_eq!(w.width, 675);
    assert_eq!(w.height, 76);
}

fn stored_defaults(kh: i32, th: i32) -> Window {
    Window::from_settings(&Settings::default(), kh, th)
}

#[test]
fn small_container_adds_margin_only() {
    let w = stored_defaults(0, 0);
    assert_eq!(w.height, 76 + 9);
    let v = stored_defaults(10, 0);
    assert_eq!(v.height, 76 + 9);
    let u = stored_defaults(11, 0);
    assert_eq!(u.height, 76 + 20);
}

#[test]
fn floating_keypad_replaces_history() {
    let mut w = open_with(false, false, true, false);
    assert!(w.tabs_visible && !w.keypad_visible);
    assert_eq!(w.page, TabPage::History);
    assert_eq!(w.height, 76 + 209);
    let before = w.height;
    w.on_expander_keypad_expanded(true);
    assert!(!w.history_expanded);
    assert!(!w.tabs_visible);
    assert!(w.keypad_visible && w.keypad_expanded);
    assert_eq!(w.height, before - 209 + 309);
}

#[test]
fn pinned_convert_joins_keypad() {
    let mut w = open_with(true, true, false, false);
    assert_eq!(w.height, 76 + 309);
    let before = w.height;
    w.on_expander_convert_expanded(true);
    assert!(w.keypad_visible && w.tabs_visible);
    assert!(w.convert_expanded);
    assert_eq!(w.page, TabPage::Convert);
    assert_eq!(w.height, before + 209 + 6);
}

#[test]
fn floating_history_replaces_keypad() {
    let mut w = stored_defaults(KEYPAD, TABS);
    w.on_expander_history_expanded(true);
    assert!(!w.keypad_visible && !w.keypad_expanded);
    assert!(w.tabs_visible);
    assert_eq!(w.height, 76 + 209);
}

#[test]
fn history_and_convert_share_the_pane() {
    let mut w = open_with(true, false, true, false);
    w.on_expander_convert_expanded(true);
    assert!(!w.history_expanded && w.convert_expanded && w.tabs_visible);
    assert_eq!(w.page, TabPage::Convert);
    assert_eq!(w.height, 76 + 209);
    w.on_expander_convert_expanded(false);
    assert!(!w.tabs_visible);
    assert_eq!(w.height, 76);
}

#[test]
fn collapsing_last_section_hides_all() {
    let mut w = stored_defaults(KEYPAD, TABS);
    w.on_expander_keypad_expanded(false);
    assert!(!w.keypad_visible && !w.tabs_visible);
    assert_eq!(w.height, 76);
}

#[test]
fn pinned_keypad_flip_with_convert_moves_extra_row() {
    let mut w = open_with(true, false, false, true);
    assert_eq!(w.height, 76 + 209);
    w.on_expander_keypad_expanded(true);
    assert_eq!(w.height, 76 + 209 + 309 + 6);
    w.on_expander_keypad_expanded(false);
    assert_eq!(w.height, 76 + 209);
}

#[test]
fn floating_events_never_show_both() {
    let mut w = Window::new(KEYPAD, TABS);
    let events = [
        PanelEvent::HistoryExpanded(true),
        PanelEvent::KeypadExpanded(true),
        PanelEvent::ConvertExpanded(true),
        PanelEvent::KeypadExpanded(true),
        PanelEvent::HistoryExpanded(true),
        PanelEvent::HistoryExpanded(false),
        PanelEvent::KeypadExpanded(false),
        PanelEvent::ConvertExpanded(true),
    ];
    for e in events {
        w.handle(e);
        assert!(!(w.keypad_visible && w.tabs_visible));
    }
}

#[test]
fn pinned_keypad_ignores_tab_events() {
    let mut w = open_with(true, true, false, false);
    let events = vec![
        PanelEvent::HistoryExpanded(true),
        PanelEvent::ConvertExpanded(true),
        PanelEvent::ConvertExpanded(false),
        PanelEvent::HistoryExpanded(true),
    ];
    for e in &events {
        w.handle(*e);
        assert!(w.keypad_visible);
    }
    assert!(w.tabs_visible && w.history_expanded);
    w.handle(PanelEvent::KeypadExpanded(false));
    assert!(!w.keypad_visible);
    assert!(w.tabs_visible);
}

#[test]
fn height_returns_after_round_of_events() {
    let mut w = Window::new(KEYPAD, TABS);
    let start = w.height;
    let events = vec![
        PanelEvent::PinToggled,
        PanelEvent::ConvertExpanded(true),
        PanelEvent::HistoryExpanded(true),
        PanelEvent::PinToggled,
        PanelEvent::KeypadExpanded(true),
    ];
    w.handle_all(&events);
    assert!(!w.persistent_keypad);
    assert!(w.keypad_visible && !w.tabs_visible);
    assert_eq!(w.height, start);
}

#[test]
fn leaving_pinned_mode_closes_keypad_beside_tabs() {
    let mut w = open_with(true, true, false, true);
    assert_eq!(w.height, 76 + 309 + 209 + 6);
    w.toggle_persistent_keypad();
    assert!(!w.persistent_keypad);
    assert!(!w.keypad_visible && !w.keypad_expanded);
    assert!(w.tabs_visible);
    assert_eq!(w.height, 76 + 209);
    assert_eq!(w.keypad_lock_icon(), "changes-allow-symbolic");
}

#[test]
fn entering_pinned_mode_keeps_layout() {
    let mut w = Window::new(KEYPAD, TABS);
    let before = w;
    w.toggle_persistent_keypad();
    assert!(w.persistent_keypad);
    assert_eq!(w.keypad_visible, before.keypad_visible);
    assert_eq!(w.height, before.height);
    assert_eq!(w.keypad_lock_icon(), "changes-prevent-symbolic");
}

#[test]
fn update_persistent_keypad_opens_pinned_keypad() {
    let mut w = open_with(true, false, true, false);
    w.update_persistent_keypad(true);
    assert!(w.keypad_visible && w.keypad_expanded && w.tabs_visible);
    assert_eq!(w.height, 76 + 209 + 309);
    let mut f = Window::new(KEYPAD, TABS);
    f.update_persistent_keypad(true);
    assert_eq!(f, Window::new(KEYPAD, TABS));
}

#[test]
fn show_primitives_move_height() {
    let mut w = open_with(true, false, false, false);
    w.show_tabs(true);
    assert_eq!(w.height, 76 + 209);
    w.show_tabs(true);
    assert_eq!(w.height, 76 + 209);
    w.show_keypad_widget(true);
    assert_eq!(w.height, 76 + 209 + 309);
    w.show_keypad_widget(false);
    w.show_tabs(false);
    assert_eq!(w.height, 76);
}

#[test]
fn keypad_fills_height_unless_pinned_beside_tabs() {
    let w = Window::new(KEYPAD, TABS);
    assert!(w.keypad_fills_height());
    let p = open_with(true, true, true, false);
    assert!(!p.keypad_fills_height());
}

#[test]
fn floating_load_opens_single_section_only() {
    let w = open_with(false, true, true, false);
    assert!(!w.keypad_expanded && !w.history_expanded && !w.convert_expanded);
    assert_eq!(w.height, 76);
    let c = open_with(false, false, false, true);
    assert!(c.convert_expanded && c.tabs_visible);
    assert_eq!(c.page, TabPage::Convert);
}

#[test]
fn pinned_load_prefers_history_over_convert() {
    let w = open_with(true, true, true, true);
    assert!(w.keypad_visible && w.history_expanded && !w.convert_expanded);
    assert_eq!(w.height, 76 + 309 + 209);
}

#[test]
fn settings_round_trip_keeps_layout() {
    let mut w = open_with(true, true, false, false);
    w.on_expander_convert_expanded(true);
    w.set_size(900, 2000);
    w.set_maximized(true);
    let s = w.settings();
    let r = Window::from_settings(&s, KEYPAD, TABS);
    assert_eq!(r.persistent_keypad, w.persistent_keypad);
    assert_eq!(r.keypad_visible, w.keypad_visible);
    assert_eq!(r.tabs_visible, w.tabs_visible);
    assert_eq!(r.convert_expanded, w.convert_expanded);
    assert_eq!(r.width, 900);
    assert!(r.maximized);
    assert_eq!(r.height, 76 + 309 + 209 + 6);
}

#[test]
fn load_without_document_gives_defaults() {
    let (w, problem) = Window::load_settings(None, KEYPAD, TABS);
    assert_eq!(w, Window::new(KEYPAD, TABS));
    assert_eq!((w.width, w.height), (675, 76));
    assert!(w.keypad_visible && !w.tabs_visible && !w.persistent_keypad);
    assert_eq!(problem, None);
}

#[test]
fn load_of_bad_document_falls_back() {
    let (w, problem) = Window::load_settings(Some("[settings\n"), KEYPAD, TABS);
    assert_eq!(w, Window::new(KEYPAD, TABS));
    assert_eq!(problem, Some(SettingsError::Syntax));
    let (v, missing) = Window::load_settings(Some("[window]\nwidth = 5\n"), KEYPAD, TABS);
    assert_eq!(v, Window::new(KEYPAD, TABS));
    assert_eq!(missing, Some(SettingsError::Missing(SettingKey::SettingsTable)));
}

#[test]
fn load_of_stored_document() {
    let s = Settings {
        persistent_keypad: true,
        keypad_expanded: true,
        history_expanded: false,
        convert_expanded: true,
        window_width: 800,
        is_maximized: false,
    };
    let (w, problem) = Window::load_settings(Some(&settings_document(&s)), KEYPAD, TABS);
    assert_eq!(problem, None);
    assert_eq!(w, Window::from_settings(&s, KEYPAD, TABS));
    assert_eq!(w.height, 76 + 309 + 209 + 6);
    assert_eq!(w.width, 800);
}
