use rust_tui::codec::{from_json, to_json};
use rust_tui::layout::{constraint_len_calculator, popup_area, wrap_text, Rect};
use rust_tui::task::{Progress, Task};

fn cv(s: &str) -> Vec<char> {
    s.chars().collect()
}

fn sv(v: &[char]) -> String {
    v.iter().collect()
}

fn task(name: &str, description: &str, progress: Progress, created: &str) -> Task {
    Task { name: cv(name), description: cv(description), progress, created: cv(created) }
}

fn same_task(a: &Task, b: &Task) -> bool {
    Task::item_matches(a, b)
}

#[test]
fn renders_one_task_exactly() {
    let items = vec![task("Task1", "desc", Progress::InProgress, "2024-01-02 03:04:05")];
    let json = sv(&to_json(&items));
    assert_eq!(
        json,
        "[{\"name\":\"Task1\",\"description\":\"desc\",\"progress\":\"InProgress\",\
         \"created\":\"2024-01-02 03:04:05\"}]"
    );
}

#[test]
fn renders_empty_list_exactly() {
    let items: Vec<Task> = Vec::new();
    assert_eq!(sv(&to_json(&items)), "[]");
    let parsed = from_json(&cv("[]")).unwrap();
    assert!(parsed.is_empty());
}

#[test]
fn round_trip_preserves_every_field() {
    let items = vec![
        task("alpha", "first one", Progress::InProgress, "2024-01-01 00:00:00"),
        task("beta", "with \"quotes\" and \\slashes\\", Progress::Waiting, "2024-06-15 12:30:45"),
        task("", "empty name is storable", Progress::Done, "2025-12-31 23:59:59"),
    ];
    let json = to_json(&items);
    let parsed = from_json(&json).expect("rendered text must parse");
    assert_eq!(parsed.len(), items.len());
    for (a, b) in parsed.iter().zip(items.iter()) {
        assert!(same_task(a, b));
    }
}

#[test]
fn parses_pretty_printed_documents() {
    let text = "[\n  {\n    \"name\": \"A\",\n    \"description\": \"d\",\n    \
        \"progress\": \"Done\",\n    \"created\": \"2024-01-01 00:00:00\"\n  },\n  {\
        \"name\":\"B\",\"description\":\"\",\"progress\":\"Waiting\",\
        \"created\":\"2024-01-02 00:00:00\"}\n]\n";
    let parsed = from_json(&cv(text)).expect("whitespace between tokens is accepted");
    assert_eq!(parsed.len(), 2);
    assert_eq!(parsed[0].name, cv("A"));
    assert_eq!(parsed[0].progress, Progress::Done);
    assert_eq!(parsed[1].name, cv("B"));
    assert_eq!(parsed[1].progress, Progress::Waiting);
}

#[test]
fn unescapes_what_it_escaped() {
    let items = vec![task("q\"q", "b\\b", Progress::Waiting, "t")];
    let json = sv(&to_json(&items));
    assert!(json.contains("q\\\"q"));
    assert!(json.contains("b\\\\b"));
    let parsed = from_json(&to_json(&items)).unwrap();
    assert_eq!(parsed[0].name, cv("q\"q"));
    assert_eq!(parsed[0].description, cv("b\\b"));
}

#[test]
fn reads_the_standard_json_string_escapes() {
    // a file another writer produced, with named and \u escapes
    let text = "[{\"name\":\"a\\tb\\nc\",\"description\":\"x\\u0041y\\u001bz\\/\\b\\f\",\
        \"progress\":\"Waiting\",\"created\":\"t\"}]";
    let parsed = from_json(&cv(text)).expect("standard escapes are accepted");
    assert_eq!(parsed.len(), 1);
    assert_eq!(parsed[0].name, cv("a\tb\nc"));
    assert_eq!(
        parsed[0].description,
        vec!['x', 'A', 'y', '\u{001b}', 'z', '/', '\u{0008}', '\u{000c}']
    );
}

#[test]
fn bad_escapes_parse_as_nothing() {
    let shell = |body: &str| {
        format!(
            "[{{\"name\":\"{body}\",\"description\":\"\",\"progress\":\"Done\",\"created\":\"t\"}}]"
        )
    };
    // unknown escape letter
    assert!(from_json(&cv(&shell("a\\xb"))).is_none());
    // too few hex digits
    assert!(from_json(&cv(&shell("a\\u12\""))).is_none());
    // a surrogate names no character
    assert!(from_json(&cv(&shell("a\\ud800b"))).is_none());
    // a non-hex digit
    assert!(from_json(&cv(&shell("a\\u12g4b"))).is_none());
}

#[test]
fn malformed_documents_parse_as_nothing() {
    // each of these falls back to the empty list at the load port
    assert!(from_json(&cv("")).is_none());
    assert!(from_json(&cv("{}")).is_none());
    assert!(from_json(&cv("[")).is_none());
    assert!(from_json(&cv("[{]")).is_none());
    assert!(from_json(&cv("[{\"name\":\"a\"}]")).is_none());
    // unknown progress tag
    assert!(from_json(&cv(
        "[{\"name\":\"a\",\"description\":\"\",\"progress\":\"Odd\",\"created\":\"t\"}]"
    ))
    .is_none());
    // trailing junk after the array
    assert!(from_json(&cv("[] extra")).is_none());
    // unterminated string
    assert!(from_json(&cv("[{\"name\":\"a")).is_none());
}

#[test]
fn wrap_text_cuts_every_max_len_characters() {
    assert_eq!(sv(&wrap_text(&cv("abcdefgh"), 3)), "abc\ndef\ngh");
    assert_eq!(sv(&wrap_text(&cv("abc"), 3)), "abc");
    assert_eq!(sv(&wrap_text(&cv("ab"), 3)), "ab");
    assert_eq!(sv(&wrap_text(&cv(""), 3)), "");
    assert_eq!(sv(&wrap_text(&cv("abcdef"), 3)), "abc\ndef");
}

#[test]
fn column_widths_are_the_longest_of_each_field() {
    let items = vec![
        task("name", "short\nmuch longer line", Progress::InProgress, "2024-01-01 00:00:00"),
        task("longer name", "x", Progress::Done, "t"),
    ];
    let (name_w, desc_w, prog_w, created_w) = constraint_len_calculator(&items);
    assert_eq!(name_w, 11); // "longer name"
    assert_eq!(desc_w, 16); // "much longer line"
    assert_eq!(prog_w, 10); // the "InProgress" tag, not the displayed label
    assert_eq!(created_w, 19); // the full timestamp
}

#[test]
fn column_widths_of_an_empty_store_are_zero() {
    let items: Vec<Task> = Vec::new();
    assert_eq!(constraint_len_calculator(&items), (0, 0, 0, 0));
}

#[test]
fn popup_is_centred_in_its_area() {
    let area = Rect { x: 10, y: 5, width: 80, height: 24 };
    let p = popup_area(area, 40, 24);
    assert_eq!(p, Rect { x: 30, y: 5, width: 40, height: 24 });
}
