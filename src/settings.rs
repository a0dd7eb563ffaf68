//! The record that the window keeps between sessions.

use vstd::prelude::*;
use toml_edit::Item;
use crate::toml::{
    bool_item, bool_node, document_text, grafted, has_entry, integer_item, integer_node,
    item_bool, item_entry, item_integer, item_tree, leaf, lemma_grafted_other,
    lemma_grafted_printable, lemma_grafted_root, lemma_grafted_same, new_table, parse_item, printable, subtree,
    table_insert, table_item, table_tree, toml_parse, TomlNode, TomlTree,
};

verus! {

/// Which sections were open, the keypad mode and the window's width and state.
#[derive(Clone, Copy, Debug, PartialEq, Eq, Structural)]
pub struct Settings {
    pub persistent_keypad: bool,
    pub keypad_expanded: bool,
    pub history_expanded: bool,
    pub convert_expanded: bool,
    pub window_width: i32,
    pub is_maximized: bool,
}

/// The width of a window that has no stored settings.
pub const DEFAULT_WIDTH: i32 = 675;

/// The settings of a window that has none stored: floating keypad, keypad
/// open, history and convert closed, not maximized.
pub open spec fn default_settings() -> Settings {
    Settings {
        persistent_keypad: false,
        keypad_expanded: true,
        history_expanded: false,
        convert_expanded: false,
        window_width: DEFAULT_WIDTH,
        is_maximized: false,
    }
}

impl Default for Settings {
    fn default() -> (r: Settings)
        ensures
            r == default_settings(),
    {
        Settings {
            persistent_keypad: false,
            keypad_expanded: true,
            history_expanded: false,
            convert_expanded: false,
            window_width: DEFAULT_WIDTH,
            is_maximized: false,
        }
    }
}

/// A place in the stored document.
#[derive(Clone, Copy, Debug, PartialEq, Eq, Structural)]
pub enum SettingKey {
    SettingsTable,
    PersistentKeypad,
    KeypadExpanded,
    HistoryExpanded,
    ConvertExpanded,
    WindowTable,
    Width,
    IsMaximized,
}

/// Why a stored document gave no settings.
#[derive(Clone, Copy, Debug, PartialEq, Eq, Structural)]
pub enum SettingsError {
    /// The text is no TOML document.
    Syntax,
    /// The table or value is absent, or the value has another type.
    Missing(SettingKey),
    /// The stored width does not fit a window width.
    WidthOutOfRange(i64),
}

/// What a stored document holds at each place that the settings are read from.
#[derive(Clone, Copy, Debug, PartialEq, Eq, Structural)]
pub struct StoredValues {
    pub settings_table: bool,
    pub persistent_keypad: Option<bool>,
    pub keypad_expanded: Option<bool>,
    pub history_expanded: Option<bool>,
    pub convert_expanded: Option<bool>,
    pub window_table: bool,
    pub width: Option<i64>,
    pub is_maximized: Option<bool>,
}

/// The settings that the stored values give, or the first place, in reading
/// order, where one is missing or out of range.
pub open spec fn decoded(v: StoredValues) -> Result<Settings, SettingsError> {
    if !v.settings_table {
        Err(SettingsError::Missing(SettingKey::SettingsTable))
    } else if v.persistent_keypad is None {
        Err(SettingsError::Missing(SettingKey::PersistentKeypad))
    } else if v.keypad_expanded is None {
        Err(SettingsError::Missing(SettingKey::KeypadExpanded))
    } else if v.history_expanded is None {
        Err(SettingsError::Missing(SettingKey::HistoryExpanded))
    } else if v.convert_expanded is None {
        Err(SettingsError::Missing(SettingKey::ConvertExpanded))
    } else if !v.window_table {
        Err(SettingsError::Missing(SettingKey::WindowTable))
    } else if v.width is None {
        Err(SettingsError::Missing(SettingKey::Width))
    } else if !(i32::MIN <= v.width->0 <= i32::MAX) {
        Err(SettingsError::WidthOutOfRange(v.width->0))
    } else if v.is_maximized is None {
        Err(SettingsError::Missing(SettingKey::IsMaximized))
    } else {
        Ok(
            Settings {
                persistent_keypad: v.persistent_keypad->0,
                keypad_expanded: v.keypad_expanded->0,
                history_expanded: v.history_expanded->0,
                convert_expanded: v.convert_expanded->0,
                window_width: v.width->0 as i32,
                is_maximized: v.is_maximized->0,
            },
        )
    }
}

/// The settings that the stored values give.
pub fn settings_from_values(v: &StoredValues) -> (r: Result<Settings, SettingsError>)
    ensures
        r == decoded(*v),
{
    if !v.settings_table {
        return Err(SettingsError::Missing(SettingKey::SettingsTable));
    }
    let persistent_keypad = match v.persistent_keypad {
        Some(b) => b,
        None => return Err(SettingsError::Missing(SettingKey::PersistentKeypad)),
    };
    let keypad_expanded = match v.keypad_expanded {
        Some(b) => b,
        None => return Err(SettingsError::Missing(SettingKey::KeypadExpanded)),
    };
    let history_expanded = match v.history_expanded {
        Some(b) => b,
        None => return Err(SettingsError::Missing(SettingKey::HistoryExpanded)),
    };
    let convert_expanded = match v.convert_expanded {
        Some(b) => b,
        None => return Err(SettingsError::Missing(SettingKey::ConvertExpanded)),
    };
    if !v.window_table {
        return Err(SettingsError::Missing(SettingKey::WindowTable));
    }
    let width = match v.width {
        Some(w) => w,
        None => return Err(SettingsError::Missing(SettingKey::Width)),
    };
    if width < i32::MIN as i64 || width > i32::MAX as i64 {
        return Err(SettingsError::WidthOutOfRange(width));
    }
    let is_maximized = match v.is_maximized {
        Some(b) => b,
        None => return Err(SettingsError::Missing(SettingKey::IsMaximized)),
    };
    Ok(
        Settings {
            persistent_keypad,
            keypad_expanded,
            history_expanded,
            convert_expanded,
            window_width: width as i32,
            is_maximized,
        },
    )
}

/// The boolean under `key` in the table under `table`.
pub open spec fn entry_bool(m: TomlTree, table: Seq<char>, key: Seq<char>) -> Option<bool> {
    if has_entry(m, table) && has_entry(subtree(m, table), key) {
        bool_node(subtree(subtree(m, table), key))
    } else {
        None
    }
}

/// The integer under `key` in the table under `table`.
pub open spec fn entry_integer(m: TomlTree, table: Seq<char>, key: Seq<char>) -> Option<i64> {
    if has_entry(m, table) && has_entry(subtree(m, table), key) {
        integer_node(subtree(subtree(m, table), key))
    } else {
        None
    }
}

/// What a document of tree `m` holds where the settings are read from.
pub open spec fn stored_values(m: TomlTree) -> StoredValues {
    StoredValues {
        settings_table: has_entry(m, "settings"@),
        persistent_keypad: entry_bool(m, "settings"@, "persistent_keypad"@),
        keypad_expanded: entry_bool(m, "settings"@, "keypad_expanded"@),
        history_expanded: entry_bool(m, "settings"@, "history_expanded"@),
        convert_expanded: entry_bool(m, "settings"@, "convert_expanded"@),
        window_table: has_entry(m, "window"@),
        width: entry_integer(m, "window"@, "width"@),
        is_maximized: entry_bool(m, "window"@, "is_maximized"@),
    }
}

/// The settings that the text of a stored document gives, or why it gives none.
pub open spec fn settings_result(text: Seq<char>) -> Result<Settings, SettingsError> {
    match toml_parse(text) {
        None => Err(SettingsError::Syntax),
        Some(m) => decoded(stored_values(m)),
    }
}

/// The `settings` table that stores `s`: the mode and the three sections.
pub open spec fn settings_table_tree(s: Settings) -> TomlTree {
    grafted(
        grafted(
            grafted(
                grafted(
                    leaf(TomlNode::Table),
                    "persistent_keypad"@,
                    leaf(TomlNode::Boolean(s.persistent_keypad)),
                ),
                "keypad_expanded"@,
                leaf(TomlNode::Boolean(s.keypad_expanded)),
            ),
            "history_expanded"@,
            leaf(TomlNode::Boolean(s.history_expanded)),
        ),
        "convert_expanded"@,
        leaf(TomlNode::Boolean(s.convert_expanded)),
    )
}

/// The `window` table that stores `s`: the width and the maximized state,
/// and no height.
pub open spec fn window_table_tree(s: Settings) -> TomlTree {
    grafted(
        grafted(leaf(TomlNode::Table), "width"@, leaf(TomlNode::Integer(s.window_width as i64))),
        "is_maximized"@,
        leaf(TomlNode::Boolean(s.is_maximized)),
    )
}

/// The document that stores `s`: the `settings` and `window` tables.
pub open spec fn settings_tree(s: Settings) -> TomlTree {
    grafted(
        grafted(leaf(TomlNode::Table), "settings"@, settings_table_tree(s)),
        "window"@,
        window_table_tree(s),
    )
}

fn bool_entry(table: &Option<Item>, key: &str) -> (r: Option<bool>)
    ensures
        r == (match *table {
            Some(t) => if has_entry(item_tree(t), key@) {
                bool_node(subtree(item_tree(t), key@))
            } else {
                None
            },
            None => None,
        }),
{
    match table {
        Some(t) => match item_entry(t, key) {
            Some(v) => item_bool(&v),
            None => None,
        },
        None => None,
    }
}

fn integer_entry(table: &Option<Item>, key: &str) -> (r: Option<i64>)
    ensures
        r == (match *table {
            Some(t) => if has_entry(item_tree(t), key@) {
                integer_node(subtree(item_tree(t), key@))
            } else {
                None
            },
            None => None,
        }),
{
    match table {
        Some(t) => match item_entry(t, key) {
            Some(v) => item_integer(&v),
            None => None,
        },
        None => None,
    }
}

/// Reads the settings from the text of a stored document: the `settings`
/// table with `persistent_keypad`, `keypad_expanded`, `history_expanded` and
/// `convert_expanded`, and the `window` table with `width` and
/// `is_maximized`. Text that is no TOML gives `Syntax`; a missing table or
/// value, or one of another type, gives `Missing` with its place; a width
/// beyond a window width gives `WidthOutOfRange`.
pub fn parse_settings(text: &str) -> (r: Result<Settings, SettingsError>)
    ensures
        r == settings_result(text@),
{
    let root = match parse_item(text) {
        Ok(i) => i,
        Err(_) => return Err(SettingsError::Syntax),
    };
    let settings = item_entry(&root, "settings");
    let window = item_entry(&root, "window");
    let values = StoredValues {
        settings_table: settings.is_some(),
        persistent_keypad: bool_entry(&settings, "persistent_keypad"),
        keypad_expanded: bool_entry(&settings, "keypad_expanded"),
        history_expanded: bool_entry(&settings, "history_expanded"),
        convert_expanded: bool_entry(&settings, "convert_expanded"),
        window_table: window.is_some(),
        width: integer_entry(&window, "width"),
        is_maximized: bool_entry(&window, "is_maximized"),
    };
    assert(values == stored_values(item_tree(root)));
    settings_from_values(&values)
}

proof fn lemma_leaves_printable()
    ensures
        forall|n: TomlNode| (n is Table || n is Boolean || n is Integer) ==> printable(
            #[trigger] leaf(n),
        ),
{
}

/// The TOML text that stores `s`: a `settings` table with the mode and the
/// open sections, and a `window` table with the width and maximized state.
pub fn settings_document(s: &Settings) -> (r: String)
    ensures
        toml_parse(r@) == Some(settings_tree(*s)),
{
    proof {
        lemma_leaves_printable();
    }
    let mut settings = new_table();
    table_insert(&mut settings, "persistent_keypad", bool_item(s.persistent_keypad));
    table_insert(&mut settings, "keypad_expanded", bool_item(s.keypad_expanded));
    table_insert(&mut settings, "history_expanded", bool_item(s.history_expanded));
    table_insert(&mut settings, "convert_expanded", bool_item(s.convert_expanded));
    let mut window = new_table();
    table_insert(&mut window, "width", integer_item(s.window_width as i64));
    table_insert(&mut window, "is_maximized", bool_item(s.is_maximized));
    let mut root = new_table();
    let ghost st = table_tree(settings);
    let ghost wt = table_tree(window);
    table_insert(&mut root, "settings", table_item(settings));
    table_insert(&mut root, "window", table_item(window));
    proof {
        let b = |x: bool| leaf(TomlNode::Boolean(x));
        lemma_grafted_printable(leaf(TomlNode::Table), "persistent_keypad"@, b(s.persistent_keypad));
        lemma_grafted_printable(
            grafted(leaf(TomlNode::Table), "persistent_keypad"@, b(s.persistent_keypad)),
            "keypad_expanded"@,
            b(s.keypad_expanded),
        );
        lemma_grafted_printable(
            grafted(
                grafted(leaf(TomlNode::Table), "persistent_keypad"@, b(s.persistent_keypad)),
                "keypad_expanded"@,
                b(s.keypad_expanded),
            ),
            "history_expanded"@,
            b(s.history_expanded),
        );
        lemma_grafted_printable(
            grafted(
                grafted(
                    grafted(leaf(TomlNode::Table), "persistent_keypad"@, b(s.persistent_keypad)),
                    "keypad_expanded"@,
                    b(s.keypad_expanded),
                ),
                "history_expanded"@,
                b(s.history_expanded),
            ),
            "convert_expanded"@,
            b(s.convert_expanded),
        );
        lemma_grafted_printable(
            leaf(TomlNode::Table),
            "width"@,
            leaf(TomlNode::Integer(s.window_width as i64)),
        );
        lemma_grafted_printable(
            grafted(leaf(TomlNode::Table), "width"@, leaf(TomlNode::Integer(s.window_width as i64))),
            "is_maximized"@,
            b(s.is_maximized),
        );
        lemma_grafted_printable(leaf(TomlNode::Table), "settings"@, st);
        lemma_grafted_printable(grafted(leaf(TomlNode::Table), "settings"@, st), "window"@, wt);
    }
    document_text(root)
}

proof fn lemma_settings_table(s: Settings)
    ensures
        settings_table_tree(s).contains_key(Seq::empty()),
        settings_table_tree(s)[Seq::empty()] == TomlNode::Table,
        has_entry(settings_table_tree(s), "persistent_keypad"@),
        subtree(settings_table_tree(s), "persistent_keypad"@) == leaf(
            TomlNode::Boolean(s.persistent_keypad),
        ),
        has_entry(settings_table_tree(s), "keypad_expanded"@),
        subtree(settings_table_tree(s), "keypad_expanded"@) == leaf(
            TomlNode::Boolean(s.keypad_expanded),
        ),
        has_entry(settings_table_tree(s), "history_expanded"@),
        subtree(settings_table_tree(s), "history_expanded"@) == leaf(
            TomlNode::Boolean(s.history_expanded),
        ),
        has_entry(settings_table_tree(s), "convert_expanded"@),
        subtree(settings_table_tree(s), "convert_expanded"@) == leaf(
            TomlNode::Boolean(s.convert_expanded),
        ),
{
    reveal_strlit("persistent_keypad");
    reveal_strlit("keypad_expanded");
    reveal_strlit("history_expanded");
    reveal_strlit("convert_expanded");
    let t0 = leaf(TomlNode::Table);
    let pk = "persistent_keypad"@;
    let ke = "keypad_expanded"@;
    let he = "history_expanded"@;
    let ce = "convert_expanded"@;
    assert(he[0] != ce[0]);
    assert(pk.len() == 17 && ke.len() == 15 && he.len() == 16 && ce.len() == 16);
    let lp = leaf(TomlNode::Boolean(s.persistent_keypad));
    let lk = leaf(TomlNode::Boolean(s.keypad_expanded));
    let lh = leaf(TomlNode::Boolean(s.history_expanded));
    let lc = leaf(TomlNode::Boolean(s.convert_expanded));
    let g1 = grafted(t0, pk, lp);
    let g2 = grafted(g1, ke, lk);
    let g3 = grafted(g2, he, lh);
    let g4 = grafted(g3, ce, lc);
    lemma_grafted_root(t0, pk, lp);
    lemma_grafted_root(g1, ke, lk);
    lemma_grafted_root(g2, he, lh);
    lemma_grafted_root(g3, ce, lc);
    lemma_grafted_same(t0, pk, lp);
    lemma_grafted_other(g1, ke, lk, pk);
    lemma_grafted_other(g2, he, lh, pk);
    lemma_grafted_other(g3, ce, lc, pk);
    lemma_grafted_same(g1, ke, lk);
    lemma_grafted_other(g2, he, lh, ke);
    lemma_grafted_other(g3, ce, lc, ke);
    lemma_grafted_same(g2, he, lh);
    lemma_grafted_other(g3, ce, lc, he);
    lemma_grafted_same(g3, ce, lc);
}

proof fn lemma_window_table(s: Settings)
    ensures
        window_table_tree(s).contains_key(Seq::empty()),
        window_table_tree(s)[Seq::empty()] == TomlNode::Table,
        has_entry(window_table_tree(s), "width"@),
        subtree(window_table_tree(s), "width"@) == leaf(
            TomlNode::Integer(s.window_width as i64),
        ),
        has_entry(window_table_tree(s), "is_maximized"@),
        subtree(window_table_tree(s), "is_maximized"@) == leaf(TomlNode::Boolean(s.is_maximized)),
        !has_entry(window_table_tree(s), "height"@),
{
    reveal_strlit("width");
    reveal_strlit("is_maximized");
    reveal_strlit("height");
    let t0 = leaf(TomlNode::Table);
    let wi = "width"@;
    let im = "is_maximized"@;
    let hk = "height"@;
    assert(wi.len() == 5 && im.len() == 12 && hk.len() == 6);
    let lw = leaf(TomlNode::Integer(s.window_width as i64));
    let lm = leaf(TomlNode::Boolean(s.is_maximized));
    let g1 = grafted(t0, wi, lw);
    lemma_grafted_root(t0, wi, lw);
    lemma_grafted_root(g1, im, lm);
    lemma_grafted_same(t0, wi, lw);
    lemma_grafted_other(g1, im, lm, wi);
    lemma_grafted_same(g1, im, lm);
    lemma_grafted_other(t0, wi, lw, hk);
    lemma_grafted_other(g1, im, lm, hk);
    assert(!t0.contains_key(seq![hk]));
}

/// Reading back the document that stores `s` gives `s`; the document holds
/// no height.
pub proof fn lemma_document_round_trip(s: Settings)
    ensures
        decoded(stored_values(settings_tree(s))) == Ok::<Settings, SettingsError>(s),
        !has_entry(subtree(settings_tree(s), "window"@), "height"@),
{
    reveal_strlit("settings");
    reveal_strlit("window");
    let t0 = leaf(TomlNode::Table);
    let sk = "settings"@;
    let wk = "window"@;
    assert(sk.len() == 8 && wk.len() == 6);
    let st = settings_table_tree(s);
    let wt = window_table_tree(s);
    lemma_settings_table(s);
    lemma_window_table(s);
    let r1 = grafted(t0, sk, st);
    lemma_grafted_root(t0, sk, st);
    lemma_grafted_same(t0, sk, st);
    lemma_grafted_other(r1, wk, wt, sk);
    lemma_grafted_same(r1, wk, wt);
    let m = settings_tree(s);
    assert(has_entry(m, sk) && subtree(m, sk) == st);
    assert(has_entry(m, wk) && subtree(m, wk) == wt);
    assert(entry_bool(m, sk, "persistent_keypad"@) == Some(s.persistent_keypad));
    assert(entry_bool(m, sk, "keypad_expanded"@) == Some(s.keypad_expanded));
    assert(entry_bool(m, sk, "history_expanded"@) == Some(s.history_expanded));
    assert(entry_bool(m, sk, "convert_expanded"@) == Some(s.convert_expanded));
    assert(entry_integer(m, wk, "width"@) == Some(s.window_width as i64));
    assert(entry_bool(m, wk, "is_maximized"@) == Some(s.is_maximized));
    assert(stored_values(m) == StoredValues {
        settings_table: true,
        persistent_keypad: Some(s.persistent_keypad),
        keypad_expanded: Some(s.keypad_expanded),
        history_expanded: Some(s.history_expanded),
        convert_expanded: Some(s.convert_expanded),
        window_table: true,
        width: Some(s.window_width as i64),
        is_maximized: Some(s.is_maximized),
    });
}

} // verus!
