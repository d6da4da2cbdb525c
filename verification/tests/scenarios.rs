use findr::config::Config;
use findr::entry::{Entry, EntryType, WalkEvent};
use findr::filter::FilterSet;
use findr::pipeline::{process_events, run_pipeline};

fn item(path: &str, name: &str, kind: EntryType) -> WalkEvent {
    WalkEvent::Item(Entry::new(String::from(path), String::from(name), Some(kind)))
}

fn filters_for(names: &[&str], types: &[&str]) -> FilterSet {
    let config = Config::new(
        vec![String::from(".")],
        names.iter().map(|s| String::from(*s)).collect(),
        types.iter().map(|s| String::from(*s)).collect(),
    );
    match config {
        Ok(c) => c.filters,
        Err(_) => panic!("filters_for used with invalid arguments"),
    }
}

/// The walk of a root holding `a.txt` (a file), `sub` (a directory) and
/// `sub/b.log` (a file), in depth-first order, the root itself first.
fn sample_tree() -> Vec<WalkEvent> {
    vec![
        item(".", ".", EntryType::Dir),
        item("./a.txt", "a.txt", EntryType::File),
        item("./sub", "sub", EntryType::Dir),
        item("./sub/b.log", "b.log", EntryType::File),
    ]
}

#[test]
fn no_filters_report_every_entry_in_walk_order() {
    let out = process_events(&FilterSet::match_all(), &sample_tree());
    assert_eq!(
        out.matches,
        vec![
            String::from("."),
            String::from("./a.txt"),
            String::from("./sub"),
            String::from("./sub/b.log"),
        ]
    );
    assert_eq!(out.diagnostics, Vec::<String>::new());
}

#[test]
fn type_and_name_filters_combine_by_and() {
    let filters = filters_for(&[r"\.log$"], &["f"]);
    let out = process_events(&filters, &sample_tree());
    assert_eq!(out.matches, vec![String::from("./sub/b.log")]);
    assert_eq!(out.diagnostics, Vec::<String>::new());
}

#[test]
fn directory_filter_reports_the_root_too() {
    // The walker yields the root itself, so a directory filter reports the
    // root ahead of the directories below it.
    let filters = filters_for(&[], &["d"]);
    let out = process_events(&filters, &sample_tree());
    assert_eq!(out.matches, vec![String::from("."), String::from("./sub")]);
    assert_eq!(out.diagnostics, Vec::<String>::new());
}

#[test]
fn invalid_pattern_is_rejected_before_any_traversal() {
    let result = Config::new(vec![String::from(".")], vec![String::from("[")], Vec::new());
    assert!(result.is_err());
}

#[test]
fn running_twice_gives_identical_output() {
    let filters = filters_for(&[r"\.log$|txt"], &[]);
    let first = process_events(&filters, &sample_tree());
    let second = process_events(&filters, &sample_tree());
    assert_eq!(first.matches, second.matches);
    assert_eq!(first.diagnostics, second.diagnostics);
}

#[test]
fn error_in_the_middle_stops_nothing() {
    let events = vec![
        item(".", ".", EntryType::Dir),
        item("./a.txt", "a.txt", EntryType::File),
        WalkEvent::Error(String::from("./locked: Permission denied (os error 13)")),
        item("./sub", "sub", EntryType::Dir),
        item("./sub/b.log", "b.log", EntryType::File),
    ];
    let out = process_events(&FilterSet::match_all(), &events);
    assert_eq!(
        out.matches,
        vec![
            String::from("."),
            String::from("./a.txt"),
            String::from("./sub"),
            String::from("./sub/b.log"),
        ]
    );
    assert_eq!(
        out.diagnostics,
        vec![String::from("./locked: Permission denied (os error 13)")]
    );
}

#[test]
fn missing_root_costs_one_diagnostic_line_only() {
    let walks = vec![
        vec![WalkEvent::Error(String::from(
            "IO error for operation on missing: No such file or directory (os error 2)",
        ))],
        sample_tree(),
    ];
    let out = run_pipeline(&FilterSet::match_all(), &walks);
    assert_eq!(
        out.diagnostics,
        vec![String::from(
            "IO error for operation on missing: No such file or directory (os error 2)",
        )]
    );
    assert_eq!(
        out.matches,
        vec![
            String::from("."),
            String::from("./a.txt"),
            String::from("./sub"),
            String::from("./sub/b.log"),
        ]
    );
}

#[test]
fn roots_are_reported_in_the_order_given() {
    let walks = vec![
        vec![item("b", "b", EntryType::Dir)],
        vec![item("a", "a", EntryType::Dir)],
    ];
    let out = run_pipeline(&FilterSet::match_all(), &walks);
    assert_eq!(out.matches, vec![String::from("b"), String::from("a")]);
}

#[test]
fn unresolved_kind_matches_only_trivial_type_filters() {
    let socket = WalkEvent::Item(Entry::new(String::from("./s"), String::from("s"), None));
    let events = vec![socket];
    let none = process_events(&FilterSet::match_all(), &events);
    assert_eq!(none.matches, vec![String::from("./s")]);
    let typed = process_events(&filters_for(&[], &["f"]), &events);
    assert_eq!(typed.matches, Vec::<String>::new());
}
