use version_switch::error::SwitchError;
use version_switch::select::{is_system, parse_index, resolve_selection, system_version, version_at};

fn offered() -> Vec<String> {
    vec!["1.5".to_string(), "10.0".to_string(), "2.0".to_string()]
}

#[test]
fn index_zero_is_the_system() {
    assert_eq!(version_at(&offered(), 0), Ok("system".to_string()));
    assert_eq!(resolve_selection(&offered(), Some("0\n")), Ok("system".to_string()));
}

#[test]
fn index_two_is_the_second_version() {
    assert_eq!(version_at(&offered(), 2), Ok("10.0".to_string()));
    assert_eq!(resolve_selection(&offered(), Some("2\n")), Ok("10.0".to_string()));
}

#[test]
fn last_index_is_the_last_version() {
    assert_eq!(version_at(&offered(), 3), Ok("2.0".to_string()));
    assert_eq!(version_at(&offered(), 1), Ok("1.5".to_string()));
}

#[test]
fn index_past_the_last_is_out_of_range() {
    assert_eq!(version_at(&offered(), 4), Err(SwitchError::IndexOutOfRange));
    assert_eq!(resolve_selection(&offered(), Some("4\n")), Err(SwitchError::IndexOutOfRange));
    assert_eq!(version_at(&offered(), usize::MAX), Err(SwitchError::IndexOutOfRange));
}

#[test]
fn no_versions_still_offer_the_system() {
    let none: Vec<String> = Vec::new();
    assert_eq!(version_at(&none, 0), Ok("system".to_string()));
    assert_eq!(version_at(&none, 1), Err(SwitchError::IndexOutOfRange));
}

#[test]
fn non_numeric_input_is_invalid() {
    assert_eq!(parse_index("abc"), Err(SwitchError::InvalidInput));
    assert_eq!(resolve_selection(&offered(), Some("abc")), Err(SwitchError::InvalidInput));
    assert_eq!(resolve_selection(&offered(), Some("abc\n")), Err(SwitchError::InvalidInput));
}

#[test]
fn empty_input_is_invalid() {
    assert_eq!(parse_index(""), Err(SwitchError::InvalidInput));
    assert_eq!(parse_index("\n"), Err(SwitchError::InvalidInput));
    assert_eq!(parse_index("   \t "), Err(SwitchError::InvalidInput));
}

#[test]
fn negative_input_is_invalid() {
    assert_eq!(parse_index("-1"), Err(SwitchError::InvalidInput));
    assert_eq!(parse_index("-0"), Err(SwitchError::InvalidInput));
    assert_eq!(parse_index("-"), Err(SwitchError::InvalidInput));
}

#[test]
fn closed_input_is_reported() {
    assert_eq!(resolve_selection(&offered(), None), Err(SwitchError::InputClosed));
}

#[test]
fn white_space_around_the_number_is_ignored() {
    assert_eq!(parse_index("2\n"), Ok(2));
    assert_eq!(parse_index("  2  "), Ok(2));
    assert_eq!(parse_index("\t2\r\n"), Ok(2));
    assert_eq!(parse_index("\u{3000}3\u{a0}"), Ok(3));
    assert_eq!(parse_index("\u{2003}12\u{85}"), Ok(12));
}

#[test]
fn white_space_inside_the_number_is_invalid() {
    assert_eq!(parse_index("1 2"), Err(SwitchError::InvalidInput));
    assert_eq!(parse_index("+ 2"), Err(SwitchError::InvalidInput));
}

#[test]
fn plus_sign_and_leading_zeros_are_read() {
    assert_eq!(parse_index("+2"), Ok(2));
    assert_eq!(parse_index("007"), Ok(7));
    assert_eq!(parse_index("+000"), Ok(0));
    assert_eq!(parse_index("+"), Err(SwitchError::InvalidInput));
    assert_eq!(parse_index("++2"), Err(SwitchError::InvalidInput));
    assert_eq!(parse_index("2+"), Err(SwitchError::InvalidInput));
}

#[test]
fn digits_with_other_characters_are_invalid() {
    assert_eq!(parse_index("2a"), Err(SwitchError::InvalidInput));
    assert_eq!(parse_index("a2"), Err(SwitchError::InvalidInput));
    assert_eq!(parse_index("2.0"), Err(SwitchError::InvalidInput));
    assert_eq!(parse_index("0x10"), Err(SwitchError::InvalidInput));
    assert_eq!(parse_index("１"), Err(SwitchError::InvalidInput));
    assert_eq!(parse_index("/"), Err(SwitchError::InvalidInput));
    assert_eq!(parse_index(":"), Err(SwitchError::InvalidInput));
}

#[test]
fn numbers_are_read_exactly() {
    assert_eq!(parse_index("0"), Ok(0));
    assert_eq!(parse_index("9"), Ok(9));
    assert_eq!(parse_index("10"), Ok(10));
    assert_eq!(parse_index("1234567890"), Ok(1234567890));
    assert_eq!(parse_index(&format!("{}", usize::MAX)), Ok(usize::MAX));
}

#[test]
fn numbers_too_large_are_invalid() {
    assert_eq!(parse_index(&format!("{}0", usize::MAX)), Err(SwitchError::InvalidInput));
    assert_eq!(parse_index("340282366920938463463374607431768211456"), Err(SwitchError::InvalidInput));
    let max = format!("{}", usize::MAX);
    let (head, last) = max.split_at(max.len() - 1);
    let digit: u32 = last.parse().unwrap();
    if digit < 9 {
        assert_eq!(parse_index(&format!("{}{}", head, digit + 1)), Err(SwitchError::InvalidInput));
    }
}

#[test]
fn parse_index_agrees_with_trim_and_parse() {
    let lines = [
        "", " ", "0", "1\n", " 42 ", "+7", "-7", "+-7", "7 7", "007", "9999999999999999999999",
        "18446744073709551615", "18446744073709551616", "abc", "1e3", "\u{feff}1", "\u{200b}1",
        "\u{2028}5\u{2029}", "٣", "3\u{0}", "\u{b}4\u{c}",
    ];
    for line in lines.iter() {
        let expected = line.trim().parse::<usize>().map_err(|_| SwitchError::InvalidInput);
        assert_eq!(parse_index(line), expected);
    }
}

#[test]
fn system_name_is_recognised() {
    assert_eq!(system_version(), "system".to_string());
    assert!(is_system("system"));
    assert!(!is_system("System"));
    assert!(!is_system("current"));
    assert!(!is_system(""));
    assert!(!is_system("system "));
}

#[test]
fn a_version_named_like_the_system_selects_the_system_name() {
    let versions = vec!["system".to_string()];
    assert_eq!(version_at(&versions, 1), Ok("system".to_string()));
}
