//! Input and layout logic of a desktop calculator: the numeric display
//! buffer with its grouping-separator formatting, the key and action
//! dispatch table, the collapsible-panel layout controller and the
//! settings record that survives between sessions.

mod text;
pub mod grouping;
pub mod display;
pub mod dispatch;
pub mod layout;
pub mod settings;
pub mod toml;
pub mod enums;

pub use grouping::display_thousands_separator;
pub use display::InputDisplay;
pub use dispatch::{
    button_command, button_for_key, key_command, num_insert_command, op_insert_command, Command,
    NumpadButton,
};
pub use layout::{PanelEvent, TabPage, Window};
pub use settings::{
    parse_settings, settings_document, settings_from_values, SettingKey,
    Settings, SettingsError, StoredValues,
};
pub use enums::{Modifier, Operator};
