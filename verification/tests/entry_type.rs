use desktop_entry::EntryType;

#[test]
fn parses_any_case() {
    assert_eq!(EntryType::from_str("APPLICATION").unwrap(), EntryType::Application);
    assert_eq!(EntryType::from_str("Application").unwrap(), EntryType::Application);
    assert_eq!(EntryType::from_str("application").unwrap(), EntryType::Application);
    assert_eq!(EntryType::from_str("aPpLiCaTiOn").unwrap(), EntryType::Application);
}

#[test]
fn literal_round_trips() {
    let t = EntryType::Application;
    assert_eq!(t.as_str(), "Application");
    assert_eq!(EntryType::from_str(t.as_str()).unwrap(), t);
}

#[test]
fn unknown_type_fails_with_its_text() {
    let e = EntryType::from_str("Foo").unwrap_err();
    assert_eq!(e.input(), "Foo");
    assert_eq!(e.message(), "unknown entry type: Foo");
    assert!(e.message().contains("Foo"));
}

#[test]
fn error_keeps_the_case_of_the_input() {
    let e = EntryType::from_str("LiNk").unwrap_err();
    assert_eq!(e.input(), "LiNk");
    assert_eq!(e.message(), "unknown entry type: LiNk");
}

#[test]
fn no_partial_match() {
    assert!(EntryType::from_str("").is_err());
    assert!(EntryType::from_str("app").is_err());
    assert!(EntryType::from_str("Applicatio").is_err());
    assert!(EntryType::from_str("Applications").is_err());
    assert!(EntryType::from_str(" Application").is_err());
    assert!(EntryType::from_str("Application\n").is_err());
}

#[test]
fn only_ascii_case_is_folded() {
    // U+0130 and U+212A lower-case to ASCII letters under Unicode rules only.
    assert!(EntryType::from_str("Appl\u{130}cation").is_err());
    assert!(EntryType::from_str("Appl\u{131}cation").is_err());
    assert!(EntryType::from_str("\u{ff21}pplication").is_err());
}

#[test]
fn default_is_application() {
    assert_eq!(EntryType::default(), EntryType::Application);
}
