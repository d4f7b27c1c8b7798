use jsonview::digits::usize_to_string;
use jsonview::element::{get_element, Element, Index};
use jsonview::json::JsonValue;
use jsonview::list::{ListState, StatefulList, TabsState};

#[test]
fn positions_render_in_canonical_decimal() {
    assert_eq!(usize_to_string(0), "0");
    assert_eq!(usize_to_string(7), "7");
    assert_eq!(usize_to_string(10), "10");
    assert_eq!(usize_to_string(12345), "12345");
    assert_eq!(usize_to_string(1000), "1000");
}

#[test]
fn cursor_wraps_forward_and_backward() {
    let mut list = StatefulList::with_items(vec![1, 2, 3]);
    assert_eq!(list.state.selected_index, None);
    list.next();
    assert_eq!(list.state.selected_index, Some(0));
    list.next();
    list.next();
    list.next();
    // three more calls after the first: a full cycle over 3 rows
    assert_eq!(list.state.selected_index, Some(0));
    list.previous();
    assert_eq!(list.state.selected_index, Some(2));
    list.previous();
    assert_eq!(list.state.selected_index, Some(1));
}

#[test]
fn cursor_stays_unset_on_empty_list() {
    let mut list: StatefulList<u64> = StatefulList::with_items(Vec::new());
    list.next();
    assert_eq!(list.state.selected_index, None);
    list.previous();
    assert_eq!(list.state.selected_index, None);
    assert!(list.selected().is_none());
}

#[test]
fn unset_cursor_lands_on_first_row_from_either_direction() {
    let mut list = StatefulList::with_items(vec!["x", "y"]);
    list.previous();
    assert_eq!(list.state.selected_index, Some(0));
    let mut other = StatefulList::with_items(vec!["x", "y"]);
    other.next();
    assert_eq!(other.state.selected_index, Some(0));
}

#[test]
fn selected_returns_the_row_under_the_cursor() {
    let mut list = StatefulList::with_items(vec![10u64, 20, 30]);
    assert!(list.selected().is_none());
    list.next();
    list.next();
    assert_eq!(list.selected(), Some(&20u64));
}

#[test]
fn list_state_select_and_read_back() {
    let mut st = ListState::default();
    assert_eq!(st.selected(), None);
    st.select(Some(4));
    assert_eq!(st.selected(), Some(4));
    st.select(None);
    assert_eq!(st.selected(), None);
}

#[test]
fn tabs_wrap_both_ways() {
    let mut tabs = TabsState::new(vec!["Tab0", "Tab1"]);
    assert_eq!(tabs.index, 0);
    tabs.next();
    assert_eq!(tabs.index, 1);
    tabs.next();
    assert_eq!(tabs.index, 0);
    tabs.previous();
    assert_eq!(tabs.index, 1);
    tabs.previous();
    assert_eq!(tabs.index, 0);
}

#[test]
fn classification_is_total_and_exclusive() {
    let k = "k".to_string();
    assert!(matches!(
        get_element(&k, &JsonValue::Null),
        Element::Null(Index::Key(_))
    ));
    assert!(matches!(
        get_element(&k, &JsonValue::Bool(true)),
        Element::Bool(_, JsonValue::Bool(true))
    ));
    assert!(matches!(
        get_element(&k, &JsonValue::Number("3".to_string())),
        Element::Number(_, _)
    ));
    assert!(matches!(
        get_element(&k, &JsonValue::String("s".to_string())),
        Element::String(_, _)
    ));
    assert!(matches!(
        get_element(&k, &JsonValue::Array(Vec::new())),
        Element::Array(_, _)
    ));
    assert!(matches!(
        get_element(&k, &JsonValue::Object(Vec::new())),
        Element::Object(_, _)
    ));
}

#[test]
fn classified_element_keeps_label_and_value() {
    let k = "fruit".to_string();
    let v = JsonValue::String("orange".to_string());
    let e = get_element(&k, &v);
    assert_eq!(e, Element::String(Index::Key("fruit".to_string()), v));
}
