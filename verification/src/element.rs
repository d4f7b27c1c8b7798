use vstd::prelude::*;

use crate::digits::usize_to_string;
use crate::json::{json_model, JsonModel, JsonValue};

verus! {

/// A child's key or position within its parent, normalized to a string
/// segment: the display label and the path component in one.
#[derive(Debug, PartialEq, Clone)]
pub enum Index {
    Key(String),
}

impl Index {
    pub open spec fn key_view(self) -> Seq<char> {
        match self {
            Index::Key(s) => s@,
        }
    }
}

/// One displayable child of a container, tagged by the runtime type of its
/// JSON value. The tag always matches the value: see `is_classified`.
#[derive(Debug, PartialEq, Clone)]
pub enum Element {
    Bool(Index, JsonValue),
    String(Index, JsonValue),
    Array(Index, JsonValue),
    Object(Index, JsonValue),
    Number(Index, JsonValue),
    Null(Index),
}

impl Element {
    /// The label under which this element is shown, and which `enter` pushes
    /// onto the navigation path.
    pub open spec fn label(self) -> Seq<char> {
        match self {
            Element::Bool(k, _) => k.key_view(),
            Element::String(k, _) => k.key_view(),
            Element::Array(k, _) => k.key_view(),
            Element::Object(k, _) => k.key_view(),
            Element::Number(k, _) => k.key_view(),
            Element::Null(k) => k.key_view(),
        }
    }

    /// Whether this element can be entered.
    pub open spec fn is_container(self) -> bool {
        self is Array || self is Object
    }

    /// Decides `is_container` at run time.
    pub fn can_enter(&self) -> (r: bool)
        ensures
            r == self.is_container(),
    {
        match self {
            Element::Array(_, _) => true,
            Element::Object(_, _) => true,
            _ => false,
        }
    }
}

/// Classification is total and exclusive: the element carries the given
/// label, its variant is the one for the value's runtime type, and for all
/// but `Null` it carries the value itself.
pub open spec fn is_classified(label: Seq<char>, m: JsonModel, e: Element) -> bool {
    &&& e.label() == label
    &&& match m {
        JsonModel::Null => e is Null,
        JsonModel::Bool(_) => e matches Element::Bool(_, w) && w@ == m,
        JsonModel::Number(_) => e matches Element::Number(_, w) && w@ == m,
        JsonModel::String(_) => e matches Element::String(_, w) && w@ == m,
        JsonModel::Array(_) => e matches Element::Array(_, w) && w@ == m,
        JsonModel::Object(_) => e matches Element::Object(_, w) && w@ == m,
    }
}

/// Classifies one child under its label. Every JSON value maps to exactly
/// one variant; there is no failure path.
pub fn get_element(f: &String, j: &JsonValue) -> (e: Element)
    ensures
        is_classified(f@, j@, e),
{
    match j {
        JsonValue::Array(_) => Element::Array(Index::Key(f.clone()), j.clone()),
        JsonValue::Object(_) => Element::Object(Index::Key(f.clone()), j.clone()),
        JsonValue::Bool(_) => Element::Bool(Index::Key(f.clone()), j.clone()),
        JsonValue::String(_) => Element::String(Index::Key(f.clone()), j.clone()),
        JsonValue::Number(_) => Element::Number(Index::Key(f.clone()), j.clone()),
        JsonValue::Null => Element::Null(Index::Key(f.clone())),
    }
}

/// What the displayed list of a container must hold: one element per child,
/// in the container's own order, each classified under its label.
pub open spec fn is_element_list(m: JsonModel, es: Seq<Element>) -> bool {
    &&& es.len() == m.child_count()
    &&& forall|i: int|
        0 <= i < es.len() ==> is_classified(m.child_label(i), m.child_value(i), #[trigger] es[i])
}

/// Materializes the displayed list of a resolved value: object members in
/// member order, array items in position order with decimal labels. A leaf
/// has no children and yields the empty list.
pub fn build_elements(v: &JsonValue) -> (r: Vec<Element>)
    ensures
        is_element_list(v@, r@),
{
    let mut out: Vec<Element> = Vec::new();
    match v {
        JsonValue::Object(entries) => {
            let ghost ms = v@->Object_0;
            let mut i: usize = 0;
            while i < entries.len()
                invariant
                    i <= entries@.len(),
                    v@ is Object,
                    v@->Object_0 == ms,
                    ms.len() == entries@.len(),
                    forall|k: int|
                        0 <= k < ms.len() ==> ms[k] == (
                        entries@[k].0@,
                        json_model(entries@[k].1),
                        ),
                    out@.len() == i,
                    forall|k: int|
                        0 <= k < i ==> is_classified(
                            v@.child_label(k),
                            v@.child_value(k),
                            #[trigger] out@[k],
                        ),
                decreases entries@.len() - i,
            {
                let e = get_element(&entries[i].0, &entries[i].1);
                out.push(e);
                i = i + 1;
            }
            out
        },
        JsonValue::Array(items) => {
            let ghost ms = v@->Array_0;
            let mut i: usize = 0;
            while i < items.len()
                invariant
                    i <= items@.len(),
                    v@ is Array,
                    v@->Array_0 == ms,
                    ms.len() == items@.len(),
                    forall|k: int| 0 <= k < ms.len() ==> ms[k] == json_model(items@[k]),
                    out@.len() == i,
                    forall|k: int|
                        0 <= k < i ==> is_classified(
                            v@.child_label(k),
                            v@.child_value(k),
                            #[trigger] out@[k],
                        ),
                decreases items@.len() - i,
            {
                let label = usize_to_string(i);
                let e = get_element(&label, &items[i]);
                out.push(e);
                i = i + 1;
            }
            out
        },
        _ => out,
    }
}

} // verus!
