use calculator::{
    button_command, button_for_key, key_command, num_insert_command, op_insert_command, Command,
    InputDisplay, NumpadButton,
};

#[test]
fn digit_keys_of_both_rows() {
    for d in 0..10u32 {
        assert_eq!(button_for_key(0x30 + d), Some(NumpadButton::Digit(d as u8)));
        assert_eq!(button_for_key(0xffb0 + d), Some(NumpadButton::Digit(d as u8)));
        assert_eq!(key_command(0x30 + d), Some(Command::InsertDigit(d as u8)));
    }
}

#[test]
fn edit_keys_map_to_operations() {
    assert_eq!(key_command(0xff08), Some(Command::Backspace));
    assert_eq!(key_command(0xffff), Some(Command::ClearEntry));
    assert_eq!(key_command(0xff9f), Some(Command::ClearEntry));
    assert_eq!(key_command(0xff1b), Some(Command::Clear));
    assert_eq!(key_command(0x2e), Some(Command::InsertDecimalPoint));
    assert_eq!(key_command(0xffae), Some(Command::InsertDecimalPoint));
    assert_eq!(key_command(0x21), Some(Command::ToggleSign));
}

#[test]
fn unmapped_keys_are_ignored() {
    assert_eq!(key_command(0x61), None);
    assert_eq!(button_for_key(0x2f), None);
    assert_eq!(button_for_key(0x3a), None);
    assert_eq!(button_for_key(0xffaf), None);
    assert_eq!(button_for_key(0xffba), None);
}

#[test]
fn buttons_map_to_operations() {
    assert_eq!(button_command(NumpadButton::Digit(4)), Command::InsertDigit(4));
    assert_eq!(button_command(NumpadButton::Decimal), Command::InsertDecimalPoint);
    assert_eq!(button_command(NumpadButton::PlusMinus), Command::ToggleSign);
    assert_eq!(button_command(NumpadButton::Backspace), Command::Backspace);
    assert_eq!(button_command(NumpadButton::ClearEntry), Command::ClearEntry);
    assert_eq!(button_command(NumpadButton::Clear), Command::Clear);
}

#[test]
fn num_insert_takes_single_digits() {
    assert_eq!(num_insert_command(0), Some(Command::InsertDigit(0)));
    assert_eq!(num_insert_command(9), Some(Command::InsertDigit(9)));
    assert_eq!(num_insert_command(10), None);
    assert_eq!(num_insert_command(-1), None);
}

#[test]
fn op_insert_tags() {
    assert_eq!(op_insert_command("backspace"), Some(Command::Backspace));
    assert_eq!(op_insert_command("decimal"), Some(Command::InsertDecimalPoint));
    assert_eq!(op_insert_command("plus_minus"), Some(Command::ToggleSign));
    assert_eq!(op_insert_command("clear-entry"), Some(Command::ClearEntry));
    assert_eq!(op_insert_command("clear"), Some(Command::Clear));
    assert_eq!(op_insert_command("add"), None);
    assert_eq!(op_insert_command("clea"), None);
    assert_eq!(op_insert_command(""), None);
}

#[test]
fn commands_drive_the_buffer() {
    let mut d = InputDisplay::new();
    for k in [0x31u32, 0x32, 0x33, 0xffb4, 0x2e, 0x35] {
        d.apply(key_command(k).unwrap());
    }
    assert_eq!(d.text(), "1,234.5");
    d.apply(op_insert_command("plus_minus").unwrap());
    assert_eq!(d.text(), "-1,234.5");
    d.apply(op_insert_command("backspace").unwrap());
    assert_eq!(d.value(), "-1234.");
    d.apply(num_insert_command(7).unwrap());
    assert_eq!(d.value(), "-1234.7");
    d.apply(key_command(0xff1b).unwrap());
    assert_eq!(d.value(), "0");
}
