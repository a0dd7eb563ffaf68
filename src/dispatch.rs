//! The dispatch table: key presses and the two named actions, mapped onto
//! the display buffer's operations.

use vstd::prelude::*;
use crate::display::{
    backspaced, digit_char, inserted, toggled, zero, InputDisplay,
};

verus! {

/// An operation of the display buffer.
#[derive(Clone, Copy, Debug, PartialEq, Eq, Structural)]
pub enum Command {
    InsertDigit(u8),
    InsertDecimalPoint,
    ToggleSign,
    Clear,
    ClearEntry,
    Backspace,
}

/// A button of the on-screen keypad that a key stands for.
#[derive(Clone, Copy, Debug, PartialEq, Eq, Structural)]
pub enum NumpadButton {
    Digit(u8),
    Decimal,
    PlusMinus,
    Backspace,
    ClearEntry,
    Clear,
}

/// Key values of the keys that the calculator answers, as GDK numbers them.
pub const KEY_EXCLAM: u32 = 0x21;
pub const KEY_PERIOD: u32 = 0x2e;
pub const KEY_0: u32 = 0x30;
pub const KEY_9: u32 = 0x39;
pub const KEY_BACKSPACE: u32 = 0xff08;
pub const KEY_ESCAPE: u32 = 0xff1b;
pub const KEY_KP_DELETE: u32 = 0xff9f;
pub const KEY_KP_DECIMAL: u32 = 0xffae;
pub const KEY_KP_0: u32 = 0xffb0;
pub const KEY_KP_9: u32 = 0xffb9;
pub const KEY_DELETE: u32 = 0xffff;

/// The keypad button that the key `k` stands for: the digits of the main row
/// and of the numeric pad, Backspace, Delete (of either place) for clear
/// entry, Escape for clear, the period (of either place) for the decimal
/// point, and `!` for the sign.
pub open spec fn button_of_key(k: u32) -> Option<NumpadButton> {
    if KEY_0 <= k <= KEY_9 {
        Some(NumpadButton::Digit((k - KEY_0) as u8))
    } else if KEY_KP_0 <= k <= KEY_KP_9 {
        Some(NumpadButton::Digit((k - KEY_KP_0) as u8))
    } else if k == KEY_BACKSPACE {
        Some(NumpadButton::Backspace)
    } else if k == KEY_DELETE || k == KEY_KP_DELETE {
        Some(NumpadButton::ClearEntry)
    } else if k == KEY_ESCAPE {
        Some(NumpadButton::Clear)
    } else if k == KEY_PERIOD || k == KEY_KP_DECIMAL {
        Some(NumpadButton::Decimal)
    } else if k == KEY_EXCLAM {
        Some(NumpadButton::PlusMinus)
    } else {
        None
    }
}

/// The operation of a keypad button.
pub open spec fn command_of_button(b: NumpadButton) -> Command {
    match b {
        NumpadButton::Digit(d) => Command::InsertDigit(d),
        NumpadButton::Decimal => Command::InsertDecimalPoint,
        NumpadButton::PlusMinus => Command::ToggleSign,
        NumpadButton::Backspace => Command::Backspace,
        NumpadButton::ClearEntry => Command::ClearEntry,
        NumpadButton::Clear => Command::Clear,
    }
}

/// The operation of the `op-insert` action with the tag `tag`, if it has one.
pub open spec fn command_of_tag(tag: Seq<char>) -> Option<Command> {
    if tag == "backspace"@ {
        Some(Command::Backspace)
    } else if tag == "decimal"@ {
        Some(Command::InsertDecimalPoint)
    } else if tag == "plus_minus"@ {
        Some(Command::ToggleSign)
    } else if tag == "clear-entry"@ {
        Some(Command::ClearEntry)
    } else if tag == "clear"@ {
        Some(Command::Clear)
    } else {
        None
    }
}

/// A command that the display buffer can carry out: digits are below ten.
pub open spec fn command_ok(c: Command) -> bool {
    match c {
        Command::InsertDigit(d) => d <= 9,
        _ => true,
    }
}

/// The value that the command `c` leaves in a buffer holding `v`.
pub open spec fn applied(v: Seq<char>, c: Command) -> Seq<char> {
    match c {
        Command::InsertDigit(d) => inserted(v, digit_char(d as int)),
        Command::InsertDecimalPoint => inserted(v, '.'),
        Command::ToggleSign => toggled(v),
        Command::Clear => zero(),
        Command::ClearEntry => zero(),
        Command::Backspace => backspaced(v),
    }
}

/// The keypad button that a pressed or released key stands for.
pub fn button_for_key(keyval: u32) -> (r: Option<NumpadButton>)
    ensures
        r == button_of_key(keyval),
{
    if KEY_0 <= keyval && keyval <= KEY_9 {
        Some(NumpadButton::Digit((keyval - KEY_0) as u8))
    } else if KEY_KP_0 <= keyval && keyval <= KEY_KP_9 {
        Some(NumpadButton::Digit((keyval - KEY_KP_0) as u8))
    } else if keyval == KEY_BACKSPACE {
        Some(NumpadButton::Backspace)
    } else if keyval == KEY_DELETE || keyval == KEY_KP_DELETE {
        Some(NumpadButton::ClearEntry)
    } else if keyval == KEY_ESCAPE {
        Some(NumpadButton::Clear)
    } else if keyval == KEY_PERIOD || keyval == KEY_KP_DECIMAL {
        Some(NumpadButton::Decimal)
    } else if keyval == KEY_EXCLAM {
        Some(NumpadButton::PlusMinus)
    } else {
        None
    }
}

/// The operation of a keypad button.
pub fn button_command(b: NumpadButton) -> (r: Command)
    ensures
        r == command_of_button(b),
{
    match b {
        NumpadButton::Digit(d) => Command::InsertDigit(d),
        NumpadButton::Decimal => Command::InsertDecimalPoint,
        NumpadButton::PlusMinus => Command::ToggleSign,
        NumpadButton::Backspace => Command::Backspace,
        NumpadButton::ClearEntry => Command::ClearEntry,
        NumpadButton::Clear => Command::Clear,
    }
}

/// The operation of a key press; `None` for a key that the calculator ignores.
pub fn key_command(keyval: u32) -> (r: Option<Command>)
    ensures
        r == (match button_of_key(keyval) {
            Some(b) => Some(command_of_button(b)),
            None => None,
        }),
        r matches Some(c) ==> command_ok(c),
{
    match button_for_key(keyval) {
        Some(b) => Some(button_command(b)),
        None => None,
    }
}

/// The operation of the `num-insert` action: a digit from 0 to 9 is inserted,
/// any other number is refused.
pub fn num_insert_command(n: i32) -> (r: Option<Command>)
    ensures
        r == (if 0 <= n <= 9 { Some(Command::InsertDigit(n as u8)) } else { None }),
        r matches Some(c) ==> command_ok(c),
{
    if 0 <= n && n <= 9 {
        Some(Command::InsertDigit(n as u8))
    } else {
        None
    }
}

fn same_text(a: &str, b: &str) -> (r: bool)
    ensures
        r == (a@ == b@),
{
    let n = a.unicode_len();
    if n != b.unicode_len() {
        return false;
    }
    let mut i: usize = 0;
    while i < n
        invariant
            n == a@.len(),
            n == b@.len(),
            i <= n,
            a@.subrange(0, i as int) == b@.subrange(0, i as int),
        decreases n - i,
    {
        if a.get_char(i) != b.get_char(i) {
            assert(a@[i as int] != b@[i as int]);
            return false;
        }
        i = i + 1;
        assert(a@.subrange(0, i as int) =~= a@.subrange(0, i - 1).push(a@[i - 1]));
        assert(b@.subrange(0, i as int) =~= b@.subrange(0, i - 1).push(b@[i - 1]));
    }
    assert(a@ =~= a@.subrange(0, n as int));
    assert(b@ =~= b@.subrange(0, n as int));
    true
}

/// The operation of the `op-insert` action with the tag `tag`; `None` for a
/// tag that has no operation yet.
pub fn op_insert_command(tag: &str) -> (r: Option<Command>)
    ensures
        r == command_of_tag(tag@),
        r matches Some(c) ==> command_ok(c),
{
    if same_text(tag, "backspace") {
        Some(Command::Backspace)
    } else if same_text(tag, "decimal") {
        Some(Command::InsertDecimalPoint)
    } else if same_text(tag, "plus_minus") {
        Some(Command::ToggleSign)
    } else if same_text(tag, "clear-entry") {
        Some(Command::ClearEntry)
    } else if same_text(tag, "clear") {
        Some(Command::Clear)
    } else {
        None
    }
}

impl InputDisplay {
    /// Carries out `command` on the buffer.
    pub fn apply(&mut self, command: Command)
        requires
            old(self).wf(),
            command_ok(command),
        ensures
            final(self)@ == applied(old(self)@, command),
            final(self).wf(),
    {
        match command {
            Command::InsertDigit(d) => self.insert_digit(d),
            Command::InsertDecimalPoint => self.insert_decimal_point(),
            Command::ToggleSign => self.toggle_sign(),
            Command::Clear => self.clear(),
            Command::ClearEntry => self.clear_entry(),
            Command::Backspace => self.backspace(),
        }
    }
}

} // verus!
