use jsonview::element::{Element, Index};
use jsonview::json::{resolve, JsonValue};
use jsonview::state::{new_session, Event, Key, Route};

fn key(s: &str) -> String {
    s.to_string()
}

fn num(s: &str) -> JsonValue {
    JsonValue::Number(s.to_string())
}

/// `{"a": 1, "b": {"c": true}}`
fn sample_doc() -> JsonValue {
    JsonValue::Object(vec![
        (key("a"), num("1")),
        (
            key("b"),
            JsonValue::Object(vec![(key("c"), JsonValue::Bool(true))]),
        ),
    ])
}

#[test]
fn root_list_classifies_children() {
    let app = new_session(sample_doc());
    let list = app.elements.as_ref().unwrap();
    assert_eq!(list.items.len(), 2);
    assert_eq!(
        list.items[0],
        Element::Number(Index::Key(key("a")), num("1"))
    );
    assert!(matches!(list.items[1], Element::Object(Index::Key(ref k), _) if k == "b"));
    assert_eq!(list.state.selected_index, None);
}

#[test]
fn enter_object_and_leave_restores_root() {
    let mut app = new_session(sample_doc());
    // cursor: unset -> 0 -> 1 (the "b" entry)
    app.handle_key(Key::Down);
    app.handle_key(Key::Down);
    app.handle_key(Key::Enter);
    assert_eq!(app.navigation_stack, vec![key("b")]);
    assert_eq!(app.get_current_navigation_stack(), "b");
    let inside = app.elements.as_ref().unwrap();
    assert_eq!(inside.items.len(), 1);
    assert_eq!(
        inside.items[0],
        Element::Bool(Index::Key(key("c")), JsonValue::Bool(true))
    );

    app.handle_key(Key::Esc);
    assert_eq!(app.navigation_stack, Vec::<String>::new());
    assert_eq!(app.get_current_navigation_stack(), "");
    let back = app.elements.as_ref().unwrap();
    assert_eq!(back.items.len(), 2);
    assert_eq!(
        back.items[0],
        Element::Number(Index::Key(key("a")), num("1"))
    );
    assert!(matches!(back.items[1], Element::Object(Index::Key(ref k), _) if k == "b"));
}

#[test]
fn leave_at_root_is_a_no_op() {
    let mut app = new_session(sample_doc());
    let before_items = app.elements.as_ref().unwrap().items.clone();
    let quit = app.handle_key(Key::Esc);
    assert!(!quit);
    assert_eq!(app.navigation_stack, Vec::<String>::new());
    assert_eq!(app.elements.as_ref().unwrap().items, before_items);
}

#[test]
fn enter_on_non_container_is_a_no_op() {
    let mut app = new_session(sample_doc());
    app.handle_key(Key::Down); // cursor on "a", a number
    let before_items = app.elements.as_ref().unwrap().items.clone();
    app.handle_key(Key::Enter);
    assert_eq!(app.navigation_stack, Vec::<String>::new());
    assert_eq!(app.elements.as_ref().unwrap().items, before_items);
    assert_eq!(
        app.elements.as_ref().unwrap().state.selected_index,
        Some(0)
    );
}

#[test]
fn enter_with_no_selection_is_a_no_op() {
    let mut app = new_session(sample_doc());
    app.handle_key(Key::Enter);
    assert_eq!(app.navigation_stack, Vec::<String>::new());
    assert_eq!(app.elements.as_ref().unwrap().state.selected_index, None);
}

#[test]
fn navigate_into_array_by_position() {
    // {"x": [10, 20]}
    let doc = JsonValue::Object(vec![(
        key("x"),
        JsonValue::Array(vec![num("10"), num("20")]),
    )]);
    let mut app = new_session(doc);
    app.handle_key(Key::Down);
    app.handle_key(Key::Enter);
    assert_eq!(app.navigation_stack, vec![key("x")]);
    let inside = app.elements.as_ref().unwrap();
    assert_eq!(inside.items.len(), 2);
    assert_eq!(inside.items[0], Element::Number(Index::Key(key("0")), num("10")));
    assert_eq!(inside.items[1], Element::Number(Index::Key(key("1")), num("20")));
}

#[test]
fn empty_container_gives_empty_list() {
    // {"e": {}}
    let doc = JsonValue::Object(vec![(key("e"), JsonValue::Object(vec![]))]);
    let mut app = new_session(doc);
    app.handle_key(Key::Down);
    app.handle_key(Key::Enter);
    let inside = app.elements.as_ref().unwrap();
    assert_eq!(inside.items.len(), 0);
    assert_eq!(inside.state.selected_index, None);
    // cursor moves degrade to no-ops on the empty list
    app.handle_key(Key::Down);
    app.handle_key(Key::Up);
    assert_eq!(app.elements.as_ref().unwrap().state.selected_index, None);
}

#[test]
fn breadcrumb_joins_segments_with_dots() {
    // {"a": {"b": [null]}}
    let doc = JsonValue::Object(vec![(
        key("a"),
        JsonValue::Object(vec![(key("b"), JsonValue::Array(vec![JsonValue::Null]))]),
    )]);
    let mut app = new_session(doc);
    app.handle_key(Key::Down);
    app.handle_key(Key::Enter);
    app.handle_key(Key::Down);
    app.handle_key(Key::Enter);
    assert_eq!(app.get_current_navigation_stack(), "a.b");
}

#[test]
fn resolve_follows_the_path_structurally() {
    // {"a": {"b": [true]}}
    let inner = JsonValue::Array(vec![JsonValue::Bool(true)]);
    let doc = JsonValue::Object(vec![(
        key("a"),
        JsonValue::Object(vec![(key("b"), inner)]),
    )]);
    let path = vec![key("a"), key("b"), key("0")];
    assert_eq!(resolve(&doc, &path), Some(&JsonValue::Bool(true)));
    assert_eq!(resolve(&doc, &vec![key("z")]), None);
    // array positions resolve only in canonical decimal form
    assert_eq!(resolve(&doc, &vec![key("a"), key("b"), key("00")]), None);
    assert_eq!(resolve(&doc, &vec![key("a"), key("b"), key("1")]), None);
    assert_eq!(resolve(&doc, &Vec::new()), Some(&doc));
}

#[test]
fn interrupt_quits_in_both_modes() {
    let mut app = new_session(sample_doc());
    assert!(app.handle_key(Key::Ctrl('c')));
    app.handle_key(Key::Char('/'));
    assert_eq!(app.get_current_route(), Route::Search);
    assert!(app.handle_key(Key::Ctrl('c')));
}

#[test]
fn tick_changes_nothing() {
    let mut app = new_session(sample_doc());
    let quit = app.handle_event(Event::Tick);
    assert!(!quit);
    assert_eq!(app.get_current_route(), Route::Main);
    assert_eq!(app.elements.as_ref().unwrap().items.len(), 2);
}

#[test]
fn unknown_keys_are_ignored() {
    let mut app = new_session(sample_doc());
    assert!(!app.handle_key(Key::Unknown));
    assert!(!app.handle_key(Key::Backspace));
    assert!(!app.handle_key(Key::Ctrl('x')));
    assert_eq!(app.get_current_route(), Route::Main);
    assert_eq!(app.navigation_stack, Vec::<String>::new());
}

#[test]
fn stale_path_recovers_to_root() {
    let mut app = new_session(sample_doc());
    // A path that no longer resolves is an internal inconsistency: the
    // session resets to the root instead of failing.
    app.navigation_stack = vec![key("nope")];
    app.set_elements();
    assert_eq!(app.navigation_stack, Vec::<String>::new());
    assert_eq!(app.elements.as_ref().unwrap().items.len(), 2);
}

#[test]
fn two_digit_positions_navigate_correctly() {
    let items: Vec<JsonValue> = (0..12).map(|i| num(&i.to_string())).collect();
    let doc = JsonValue::Array(items);
    let mut app = new_session(doc);
    assert_eq!(app.elements.as_ref().unwrap().items.len(), 12);
    // move the cursor to position 10 and check its label
    app.handle_key(Key::Down);
    for _ in 0..10 {
        app.handle_key(Key::Down);
    }
    let list = app.elements.as_ref().unwrap();
    assert_eq!(list.state.selected_index, Some(10));
    assert_eq!(list.items[10], Element::Number(Index::Key(key("10")), num("10")));
}

#[test]
fn first_member_wins_among_equal_keys() {
    // Key lookup is first-match, as in pointer resolution.
    let doc = JsonValue::Object(vec![
        (key("k"), num("1")),
        (key("k"), JsonValue::Object(vec![(key("x"), num("2"))])),
    ]);
    let path = vec![key("k")];
    assert_eq!(resolve(&doc, &path), Some(&num("1")));
}
