use calculator::{display_thousands_separator, InputDisplay};

fn typed(digits: &[u8]) -> InputDisplay {
    let mut d = InputDisplay::new();
    for &x in digits {
        d.insert_digit(x);
    }
    d
}

#[test]
fn fresh_buffer_holds_zero() {
    let d = InputDisplay::new();
    assert_eq!(d.value(), "0");
    assert_eq!(d.text(), "0");
    assert_eq!(d.max_length(), 21);
}

#[test]
fn digits_group_in_threes() {
    let d = typed(&[1, 2, 3, 0, 0, 0, 0]);
    assert_eq!(d.value(), "1230000");
    assert_eq!(d.text(), "1,230,000");
}

#[test]
fn backspace_on_zero_keeps_zero() {
    let mut d = InputDisplay::new();
    d.backspace();
    assert_eq!(d.value(), "0");
    assert_eq!(d.text(), "0");
}

#[test]
fn backspace_removes_last_digit() {
    let mut d = typed(&[1, 2, 3, 4]);
    assert_eq!(d.text(), "1,234");
    d.backspace();
    assert_eq!(d.value(), "123");
    assert_eq!(d.text(), "123");
}

#[test]
fn backspace_to_empty_gives_zero() {
    let mut d = typed(&[7]);
    d.backspace();
    assert_eq!(d.value(), "0");
}

#[test]
fn backspace_through_sign_restores_budget() {
    let mut d = typed(&[5]);
    d.toggle_sign();
    assert_eq!(d.value(), "-5");
    d.backspace();
    assert_eq!(d.value(), "-");
    assert_eq!(d.max_length(), 22);
    d.backspace();
    assert_eq!(d.value(), "0");
    assert_eq!(d.max_length(), 21);
}

#[test]
fn leading_zeros_collapse() {
    let d = typed(&[0, 0, 0, 5, 0]);
    assert_eq!(d.value(), "50");
    let z = typed(&[0, 0]);
    assert_eq!(z.value(), "0");
}

#[test]
fn digits_stop_at_budget() {
    let d = typed(&[9; 25]);
    assert_eq!(d.value().len(), 21);
    assert_eq!(d.value(), "9".repeat(21));
    assert_eq!(d.text(), "999,999,999,999,999,999,999");
}

#[test]
fn typed_digits_strip_back() {
    let ds = [4, 0, 0, 7, 1, 2, 3, 8];
    let d = typed(&ds);
    assert_eq!(d.text().replace(',', ""), "40071238");
    let z = typed(&[0, 0, 3, 1, 4, 1, 5, 9, 2, 6, 5]);
    assert_eq!(z.text().replace(',', ""), "314159265");
}

#[test]
fn sign_toggles_and_widens_budget() {
    let mut d = typed(&[1, 2, 3, 4]);
    d.toggle_sign();
    assert_eq!(d.value(), "-1234");
    assert_eq!(d.text(), "-1,234");
    assert_eq!(d.max_length(), 22);
    d.toggle_sign();
    assert_eq!(d.value(), "1234");
    assert_eq!(d.text(), "1,234");
    assert_eq!(d.max_length(), 21);
}

#[test]
fn sign_toggle_on_zero_is_noop() {
    let mut d = InputDisplay::new();
    d.toggle_sign();
    assert_eq!(d.value(), "0");
    assert_eq!(d.max_length(), 21);
}

#[test]
fn sign_toggle_never_doubles_minus() {
    let mut d = typed(&[3]);
    for _ in 0..5 {
        d.toggle_sign();
        assert!(!d.value().starts_with("--"));
    }
    assert_eq!(d.value(), "-3");
}

#[test]
fn negative_value_takes_one_more_digit() {
    let mut d = typed(&[1; 21]);
    d.toggle_sign();
    assert_eq!(d.value().len(), 22);
    d.insert_digit(2);
    assert_eq!(d.value().len(), 22);
    assert!(d.value().starts_with('-'));
}

#[test]
fn decimal_point_inserts_once() {
    let mut d = typed(&[1]);
    d.insert_decimal_point();
    d.insert_digit(5);
    assert_eq!(d.value(), "1.5");
    d.insert_decimal_point();
    assert_eq!(d.value(), "1.5");
    d.insert_digit(2);
    assert_eq!(d.value(), "1.52");
}

#[test]
fn decimal_point_replaces_zero() {
    let mut d = InputDisplay::new();
    d.insert_decimal_point();
    assert_eq!(d.value(), ".");
}

#[test]
fn fraction_is_not_grouped() {
    let mut d = typed(&[1, 2, 3, 4, 5]);
    d.insert_decimal_point();
    for x in [6, 7, 8, 9] {
        d.insert_digit(x);
    }
    assert_eq!(d.text(), "12,345.6789");
}

#[test]
fn clear_and_clear_entry_reset() {
    let mut d = typed(&[4, 2]);
    d.toggle_sign();
    d.clear();
    assert_eq!(d.value(), "0");
    assert_eq!(d.max_length(), 21);
    let mut e = typed(&[4, 2]);
    e.toggle_sign();
    e.clear_entry();
    assert_eq!(e.value(), "0");
    assert_eq!(e.max_length(), 21);
}

#[test]
fn paste_strips_separators_and_space() {
    let mut d = InputDisplay::new();
    d.paste_replace("  1,234,567 ");
    assert_eq!(d.value(), "1234567");
    assert_eq!(d.text(), "1,234,567");
}

#[test]
fn paste_of_blank_gives_zero() {
    let mut d = typed(&[8]);
    d.paste_replace(" \t ");
    assert_eq!(d.value(), "0");
}

#[test]
fn paste_is_cut_to_budget() {
    let mut d = InputDisplay::new();
    d.paste_replace(&"5".repeat(30));
    assert_eq!(d.value(), "5".repeat(21));
    let mut n = InputDisplay::new();
    n.paste_replace(&format!("-{}", "5".repeat(30)));
    assert_eq!(n.value(), format!("-{}", "5".repeat(21)));
    assert_eq!(n.max_length(), 22);
}

#[test]
fn separator_formatting_cases() {
    assert_eq!(display_thousands_separator("1230000"), "1,230,000");
    assert_eq!(display_thousands_separator("123"), "123");
    assert_eq!(display_thousands_separator("1234"), "1,234");
    assert_eq!(display_thousands_separator("-1234567.891"), "-1,234,567.891");
    assert_eq!(display_thousands_separator("-123"), "-123");
    assert_eq!(display_thousands_separator(""), "");
    assert_eq!(display_thousands_separator("-"), "-");
    assert_eq!(display_thousands_separator(".5"), ".5");
    assert_eq!(display_thousands_separator("1."), "1.");
    assert_eq!(display_thousands_separator("1.2.3"), "1.2");
    assert_eq!(display_thousands_separator("123456.1234567"), "123,456.1234567");
}

#[test]
fn paste_of_non_number_is_refused() {
    let mut d = typed(&[4, 2]);
    assert!(!d.paste_replace("abc"));
    assert_eq!(d.value(), "42");
    assert!(!d.paste_replace("1 2"));
    assert!(!d.paste_replace("1-2"));
    assert_eq!(d.value(), "42");
    assert!(d.paste_replace(" -1,234.5 "));
    assert_eq!(d.value(), "-1234.5");
    assert_eq!(d.max_length(), 22);
}

#[test]
fn sign_toggle_on_bare_minus_gives_zero() {
    let mut d = typed(&[5]);
    d.toggle_sign();
    d.backspace();
    assert_eq!(d.value(), "-");
    d.toggle_sign();
    assert_eq!(d.value(), "0");
}
