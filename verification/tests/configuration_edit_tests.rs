use oxitone_preview::configuration_edit::{configuration_key, paste, ConfigurationInput, KeyOutcome, KeyPress};

fn input(text: &str) -> Option<ConfigurationInput> {
    Some(ConfigurationInput {
        site: "site".into(),
        usage: Some("usage".into()),
        parameter: "cutoff".into(),
        host: false,
        text: text.into(),
        select_all: false,
    })
}

fn key(name: &str, typed: Option<&str>) -> KeyPress {
    KeyPress { key: name.into(), key_char: typed.map(|t| t.to_string()), platform: false, control: false, alt: false }
}

fn command(name: &str) -> KeyPress {
    KeyPress { platform: true, ..key(name, None) }
}

#[test]
fn typing_keeps_only_numeric_characters() {
    let mut field = input("1");
    assert!(matches!(configuration_key(&mut field, true, &key("x", Some("2a.5e-3"))), KeyOutcome::Handled));
    assert_eq!(field.as_ref().unwrap().text, "12.5e-3");
}

#[test]
fn select_all_then_type_replaces_the_text() {
    let mut field = input("440");
    configuration_key(&mut field, true, &command("a"));
    assert!(field.as_ref().unwrap().select_all);
    configuration_key(&mut field, true, &key("9", Some("9")));
    assert_eq!(field.as_ref().unwrap().text, "9");
    assert!(!field.as_ref().unwrap().select_all);
}

#[test]
fn backspace_removes_one_character_or_the_selection() {
    let mut field = input("0.25");
    configuration_key(&mut field, true, &key("backspace", None));
    assert_eq!(field.as_ref().unwrap().text, "0.2");
    configuration_key(&mut field, true, &command("a"));
    configuration_key(&mut field, true, &key("backspace", None));
    assert_eq!(field.as_ref().unwrap().text, "");
    configuration_key(&mut field, true, &key("backspace", None));
    assert_eq!(field.as_ref().unwrap().text, "");
}

#[test]
fn escape_cancels_and_enter_submits() {
    let mut field = input("3");
    assert!(matches!(configuration_key(&mut field, true, &key("escape", None)), KeyOutcome::Handled));
    assert!(field.is_none());
    let mut field = input("3.5");
    match configuration_key(&mut field, true, &key("enter", None)) {
        KeyOutcome::Submit(submitted) => {
            assert_eq!(submitted.text, "3.5");
            assert_eq!(submitted.parameter, "cutoff");
        }
        _ => panic!("submit expected"),
    }
    assert!(field.is_none());
}

#[test]
fn keys_go_elsewhere_when_the_editor_is_not_in_front() {
    let mut field = input("3");
    assert!(matches!(configuration_key(&mut field, false, &key("4", Some("4"))), KeyOutcome::Ignored));
    assert_eq!(field.as_ref().unwrap().text, "3");
    let mut empty = None;
    assert!(matches!(configuration_key(&mut empty, true, &key("4", Some("4"))), KeyOutcome::Ignored));
}

#[test]
fn other_shortcuts_are_swallowed() {
    let mut field = input("3");
    assert!(matches!(configuration_key(&mut field, true, &command("z")), KeyOutcome::Handled));
    assert_eq!(field.as_ref().unwrap().text, "3");
}

#[test]
fn paste_takes_at_most_64_characters_and_the_field_stays_within_64_bytes() {
    let mut field = input("1");
    assert!(matches!(configuration_key(&mut field, true, &command("v")), KeyOutcome::Paste));
    let mut value = field.unwrap();
    paste(&mut value, Some("9".repeat(100)));
    assert_eq!(value.text, format!("1{}", "9".repeat(63)));
    let mut wide = input("").unwrap();
    paste(&mut wide, Some("é".repeat(40)));
    assert_eq!(wide.text, "é".repeat(32), "cut at a character boundary");
    let mut same = input("12").unwrap();
    same.select_all = true;
    paste(&mut same, None);
    assert_eq!(same.text, "12");
    assert!(same.select_all);
}

#[test]
fn typing_past_the_limit_is_cut() {
    let mut field = input(&"1".repeat(60));
    configuration_key(&mut field, true, &key("x", Some("23456789")));
    assert_eq!(field.as_ref().unwrap().text.len(), 64);
}
