use jsonview::flatten::build_fuzzy_index;
use jsonview::json::JsonValue;
use jsonview::search::{filter_records, fuzzy_match};
use jsonview::state::{new_session, Key, Route};

fn key(s: &str) -> String {
    s.to_string()
}

fn num(s: &str) -> JsonValue {
    JsonValue::Number(s.to_string())
}

#[test]
fn fuzzy_index_of_nested_array() {
    // {"x": [10, 20]}
    let doc = JsonValue::Object(vec![(
        key("x"),
        JsonValue::Array(vec![num("10"), num("20")]),
    )]);
    let index = build_fuzzy_index(&doc);
    assert_eq!(index, vec!["/x/0 : 10".to_string(), "/x/1 : 20".to_string()]);
}

#[test]
fn fuzzy_index_one_record_per_leaf() {
    // {"a": 1, "b": {"c": true}}
    let doc = JsonValue::Object(vec![
        (key("a"), num("1")),
        (
            key("b"),
            JsonValue::Object(vec![(key("c"), JsonValue::Bool(true))]),
        ),
    ]);
    let index = build_fuzzy_index(&doc);
    assert_eq!(index, vec!["/a : 1".to_string(), "/b/c : true".to_string()]);
}

#[test]
fn fuzzy_index_renders_each_leaf_kind() {
    let doc = JsonValue::Object(vec![
        (key("n"), JsonValue::Null),
        (key("f"), JsonValue::Bool(false)),
        (key("s"), JsonValue::String(key("hi"))),
        (key("d"), num("2.5")),
    ]);
    let index = build_fuzzy_index(&doc);
    assert_eq!(
        index,
        vec![
            "/n : NULL".to_string(),
            "/f : false".to_string(),
            "/s : hi".to_string(),
            "/d : 2.5".to_string(),
        ]
    );
}

#[test]
fn fuzzy_index_of_leaf_document() {
    let index = build_fuzzy_index(&num("5"));
    assert_eq!(index, vec![" : 5".to_string()]);
    let empty = build_fuzzy_index(&JsonValue::Object(vec![]));
    assert_eq!(empty, Vec::<String>::new());
}

#[test]
fn fuzzy_index_is_deterministic() {
    let doc = JsonValue::Object(vec![
        (key("a"), num("1")),
        (key("b"), JsonValue::Array(vec![JsonValue::Null, num("7")])),
    ]);
    assert_eq!(build_fuzzy_index(&doc), build_fuzzy_index(&doc));
}

#[test]
fn matcher_is_a_case_insensitive_subsequence_test() {
    let q: Vec<char> = vec!['A', 'C'];
    assert!(fuzzy_match(&q, &"abc".to_string()));
    let q2: Vec<char> = vec!['c', 'a'];
    assert!(!fuzzy_match(&q2, &"abc".to_string()));
    let empty: Vec<char> = Vec::new();
    assert!(fuzzy_match(&empty, &"anything".to_string()));
    assert!(!fuzzy_match(&q, &"".to_string()));
}

#[test]
fn empty_query_keeps_all_records_in_order() {
    let records = vec![
        "/a : 1".to_string(),
        "/b : 2".to_string(),
        "/c : 3".to_string(),
    ];
    let empty: Vec<char> = Vec::new();
    assert_eq!(filter_records(&empty, &records), records);
}

#[test]
fn filtering_keeps_matches_in_source_order() {
    let records = vec![
        "/fruit/0 : orange".to_string(),
        "/fruit/1 : apple".to_string(),
        "/veg/0 : onion".to_string(),
    ];
    let q: Vec<char> = vec!['o', 'n'];
    assert_eq!(
        filter_records(&q, &records),
        vec!["/fruit/0 : orange".to_string(), "/veg/0 : onion".to_string()]
    );
}

#[test]
fn search_mode_starts_with_full_index_and_first_row() {
    let doc = JsonValue::Object(vec![
        (key("a"), num("1")),
        (key("b"), num("2")),
    ]);
    let mut app = new_session(doc);
    app.handle_key(Key::Char('/'));
    assert_eq!(app.get_current_route(), Route::Search);
    assert_eq!(app.user_input, Vec::<char>::new());
    let shown = app.fuzzy_elements.as_ref().unwrap();
    assert_eq!(
        shown.items,
        vec!["/a : 1".to_string(), "/b : 2".to_string()]
    );
    assert_eq!(shown.state.selected_index, Some(0));
}

#[test]
fn typing_narrows_and_backspace_widens() {
    let doc = JsonValue::Object(vec![
        (key("name"), JsonValue::String(key("orange"))),
        (key("kind"), JsonValue::String(key("fruit"))),
    ]);
    let mut app = new_session(doc);
    app.handle_key(Key::Char('/'));
    app.handle_key(Key::Char('f'));
    app.handle_key(Key::Char('r'));
    assert_eq!(app.user_input, vec!['f', 'r']);
    assert_eq!(app.input_cursor_position, 2);
    let shown = app.fuzzy_elements.as_ref().unwrap();
    assert_eq!(shown.items, vec!["/kind : fruit".to_string()]);
    assert_eq!(shown.state.selected_index, Some(0));

    app.handle_key(Key::Backspace);
    app.handle_key(Key::Backspace);
    assert_eq!(app.user_input, Vec::<char>::new());
    let widened = app.fuzzy_elements.as_ref().unwrap();
    assert_eq!(
        widened.items,
        vec!["/name : orange".to_string(), "/kind : fruit".to_string()]
    );
}

#[test]
fn query_with_no_match_gives_empty_list_and_no_cursor() {
    let doc = JsonValue::Object(vec![(key("a"), num("1"))]);
    let mut app = new_session(doc);
    app.handle_key(Key::Char('/'));
    app.handle_key(Key::Char('z'));
    let shown = app.fuzzy_elements.as_ref().unwrap();
    assert_eq!(shown.items, Vec::<String>::new());
    assert_eq!(shown.state.selected_index, None);
    // cursor moves on the empty result are no-ops
    app.handle_key(Key::Down);
    assert_eq!(
        app.fuzzy_elements.as_ref().unwrap().state.selected_index,
        None
    );
}

#[test]
fn quitting_search_restores_browse_state_exactly() {
    let doc = JsonValue::Object(vec![(
        key("b"),
        JsonValue::Object(vec![(key("c"), JsonValue::Bool(true))]),
    )]);
    let mut app = new_session(doc);
    app.handle_key(Key::Down);
    app.handle_key(Key::Enter);
    let stack_before = app.navigation_stack.clone();
    let items_before = app.elements.as_ref().unwrap().items.clone();

    app.handle_key(Key::Char('/'));
    app.handle_key(Key::Char('t'));
    app.handle_key(Key::Ctrl('q'));

    assert_eq!(app.get_current_route(), Route::Main);
    assert_eq!(app.user_input, Vec::<char>::new());
    assert_eq!(app.navigation_stack, stack_before);
    assert_eq!(app.elements.as_ref().unwrap().items, items_before);
}

#[test]
fn index_is_built_once_per_document() {
    let doc = JsonValue::Object(vec![(key("a"), num("1"))]);
    let mut app = new_session(doc);
    app.handle_key(Key::Char('/'));
    let first = app.fuzzy_index.clone();
    app.handle_key(Key::Ctrl('q'));
    app.handle_key(Key::Char('/'));
    assert_eq!(app.fuzzy_index, first);
}

#[test]
fn search_cursor_moves_through_matches() {
    let doc = JsonValue::Object(vec![
        (key("a"), num("1")),
        (key("b"), num("2")),
        (key("c"), num("3")),
    ]);
    let mut app = new_session(doc);
    app.handle_key(Key::Char('/'));
    app.handle_key(Key::Down);
    let shown = app.fuzzy_elements.as_ref().unwrap();
    assert_eq!(shown.state.selected_index, Some(1));
    app.handle_key(Key::Up);
    app.handle_key(Key::Up);
    // wrapped from the first row to the last
    assert_eq!(
        app.fuzzy_elements.as_ref().unwrap().state.selected_index,
        Some(2)
    );
}
