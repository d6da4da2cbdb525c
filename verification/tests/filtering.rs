use findr::config::{parse_entry_type, parse_regex, Config, ConfigError};
use findr::entry::EntryType;
use findr::filter::{is_correct_name, is_correct_type, FilterSet};
use findr::pattern::NamePattern;

fn filters_of(names: &[&str], types: &[&str]) -> FilterSet {
    let config = Config::new(
        vec![String::from(".")],
        names.iter().map(|s| String::from(*s)).collect(),
        types.iter().map(|s| String::from(*s)).collect(),
    );
    match config {
        Ok(c) => c.filters,
        Err(_) => panic!("filters_of used with invalid arguments"),
    }
}

#[test]
fn empty_names_match_every_name() {
    let filters = FilterSet::match_all();
    assert!(is_correct_name(&filters, "a.txt"));
    assert!(is_correct_name(&filters, ""));
    assert!(is_correct_name(&filters, "no pattern could like this [ name"));
}

#[test]
fn empty_types_match_every_kind() {
    let filters = FilterSet::match_all();
    assert!(is_correct_type(&filters, Some(EntryType::Dir)));
    assert!(is_correct_type(&filters, Some(EntryType::File)));
    assert!(is_correct_type(&filters, Some(EntryType::Link)));
    assert!(is_correct_type(&filters, None));
}

#[test]
fn single_type_matches_exactly_that_kind() {
    let filters = filters_of(&[], &["f"]);
    assert!(is_correct_type(&filters, Some(EntryType::File)));
    assert!(!is_correct_type(&filters, Some(EntryType::Dir)));
    assert!(!is_correct_type(&filters, Some(EntryType::Link)));
    assert!(!is_correct_type(&filters, None));
}

#[test]
fn all_three_types_match_every_kind() {
    let filters = filters_of(&[], &["d", "f", "l"]);
    assert!(is_correct_type(&filters, Some(EntryType::Dir)));
    assert!(is_correct_type(&filters, Some(EntryType::File)));
    assert!(is_correct_type(&filters, Some(EntryType::Link)));
    assert!(is_correct_type(&filters, None));
}

#[test]
fn any_matching_pattern_suffices() {
    let filters = filters_of(&["^a", "b$"], &[]);
    assert!(is_correct_name(&filters, "alpha"));
    assert!(is_correct_name(&filters, "crab"));
    assert!(!is_correct_name(&filters, "zzz"));
}

#[test]
fn name_match_is_a_search_not_anchored() {
    let filters = filters_of(&["log"], &[]);
    assert!(is_correct_name(&filters, "b.log"));
    assert!(is_correct_name(&filters, "logbook"));
    assert!(!is_correct_name(&filters, "b.txt"));
}

#[test]
fn parse_entry_type_accepts_the_three_tokens() {
    assert_eq!(parse_entry_type("d"), Some(EntryType::Dir));
    assert_eq!(parse_entry_type("f"), Some(EntryType::File));
    assert_eq!(parse_entry_type("l"), Some(EntryType::Link));
}

#[test]
fn parse_entry_type_rejects_other_tokens() {
    assert_eq!(parse_entry_type("x"), None);
    assert_eq!(parse_entry_type(""), None);
    assert_eq!(parse_entry_type("df"), None);
    assert_eq!(parse_entry_type("D"), None);
}

#[test]
fn parse_regex_accepts_a_valid_pattern() {
    let pattern = parse_regex(r"\.log$").expect("valid pattern rejected");
    assert!(pattern.is_match("b.log"));
    assert!(!pattern.is_match("b.txt"));
}

#[test]
fn parse_regex_rejects_an_unterminated_class() {
    match parse_regex("[") {
        Err(ConfigError::InvalidName(t)) => assert_eq!(t, "["),
        _ => panic!("invalid pattern was accepted"),
    }
}

#[test]
fn compile_keeps_the_pattern_text() {
    let pattern = NamePattern::compile("^sub$").expect("valid pattern rejected");
    assert_eq!(pattern.text(), "^sub$");
    assert!(pattern.is_match("sub"));
    assert!(!pattern.is_match("sub2"));
}

#[test]
fn config_defaults_to_the_current_directory() {
    let config = Config::new(Vec::new(), Vec::new(), Vec::new()).expect("empty input rejected");
    assert_eq!(config.paths, vec![String::from(".")]);
}

#[test]
fn config_keeps_roots_in_order() {
    let config = Config::new(
        vec![String::from("b"), String::from("a")],
        Vec::new(),
        Vec::new(),
    )
    .expect("plain roots rejected");
    assert_eq!(config.paths, vec![String::from("b"), String::from("a")]);
}

#[test]
fn config_rejects_an_invalid_type_token() {
    match Config::new(Vec::new(), Vec::new(), vec![String::from("q")]) {
        Err(ConfigError::InvalidType(t)) => assert_eq!(t, "q"),
        _ => panic!("invalid type token was accepted"),
    }
}

#[test]
fn config_reports_the_first_invalid_name() {
    let names = vec![String::from("fine"), String::from("("), String::from("[")];
    match Config::new(Vec::new(), names, Vec::new()) {
        Err(ConfigError::InvalidName(t)) => assert_eq!(t, "("),
        _ => panic!("invalid pattern was accepted"),
    }
}
