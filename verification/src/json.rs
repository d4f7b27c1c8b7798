use vstd::prelude::*;

use crate::digits::{dec_digits, lemma_dec_digits_injective, usize_to_string};

verus! {

/// The mathematical shape of a JSON document: what the contracts of this
/// library speak about.
#[verifier::ext_equal]
pub enum JsonModel {
    Null,
    Bool(bool),
    Number(Seq<char>),
    String(Seq<char>),
    Array(Seq<JsonModel>),
    Object(Seq<(Seq<char>, JsonModel)>),
}

/// A JSON document as the viewer holds it: numbers are kept in their rendered
/// textual form, and object members keep the order in which they arrived.
#[derive(Debug, PartialEq)]
pub enum JsonValue {
    Null,
    Bool(bool),
    Number(String),
    String(String),
    Array(Vec<JsonValue>),
    Object(Vec<(String, JsonValue)>),
}

pub open spec fn json_model(v: JsonValue) -> JsonModel
    decreases v,
{
    match v {
        JsonValue::Null => JsonModel::Null,
        JsonValue::Bool(b) => JsonModel::Bool(b),
        JsonValue::Number(s) => JsonModel::Number(s@),
        JsonValue::String(s) => JsonModel::String(s@),
        JsonValue::Array(items) => JsonModel::Array(
            Seq::new(items@.len(), |i: int| json_model_at(items@, i)),
        ),
        JsonValue::Object(entries) => JsonModel::Object(
            Seq::new(entries@.len(), |i: int| entry_model_at(entries@, i)),
        ),
    }
}

/// The model of one element of an array, guarded so that only positions
/// inside the array are reached.
pub open spec fn json_model_at(items: Seq<JsonValue>, i: int) -> JsonModel
    decreases items,
{
    if 0 <= i < items.len() {
        json_model(items[i])
    } else {
        JsonModel::Null
    }
}

/// The model of one member of an object, guarded in the same way.
pub open spec fn entry_model_at(entries: Seq<(String, JsonValue)>, i: int) -> (Seq<char>, JsonModel)
    decreases entries,
{
    if 0 <= i < entries.len() {
        (entries[i].0@, json_model(entries[i].1))
    } else {
        (Seq::empty(), JsonModel::Null)
    }
}

impl View for JsonValue {
    type V = JsonModel;

    open spec fn view(&self) -> JsonModel {
        json_model(*self)
    }
}

impl JsonModel {
    /// Containers are the values one can navigate into.
    pub open spec fn is_container(self) -> bool {
        self is Array || self is Object
    }

    pub open spec fn child_count(self) -> nat {
        match self {
            JsonModel::Array(items) => items.len(),
            JsonModel::Object(entries) => entries.len(),
            _ => 0,
        }
    }

    /// The label under which the child at position `i` is shown and addressed:
    /// an object member's key, or an array position in decimal.
    pub open spec fn child_label(self, i: int) -> Seq<char> {
        match self {
            JsonModel::Array(items) => dec_digits(i as nat),
            JsonModel::Object(entries) => entries[i].0,
            _ => Seq::empty(),
        }
    }

    pub open spec fn child_value(self, i: int) -> JsonModel {
        match self {
            JsonModel::Array(items) => items[i],
            JsonModel::Object(entries) => entries[i].1,
            _ => self,
        }
    }

    /// The child a path segment names: in an object the first member with that
    /// key, in an array the position whose canonical decimal form the segment
    /// is. Leaves have no children.
    pub open spec fn child_at(self, seg: Seq<char>) -> Option<JsonModel> {
        match self {
            JsonModel::Object(entries) => key_lookup(entries, seg),
            JsonModel::Array(items) => {
                if exists|i: int| 0 <= i < items.len() && #[trigger] dec_digits(i as nat) == seg {
                    let i = choose|i: int|
                        0 <= i < items.len() && #[trigger] dec_digits(i as nat) == seg;
                    Some(items[i])
                } else {
                    None
                }
            },
            _ => None,
        }
    }
}

/// First-match key lookup among an object's members.
pub open spec fn key_lookup(entries: Seq<(Seq<char>, JsonModel)>, seg: Seq<char>) -> Option<
    JsonModel,
>
    decreases entries.len(),
{
    if entries.len() == 0 {
        None
    } else if entries[0].0 == seg {
        Some(entries[0].1)
    } else {
        key_lookup(entries.subrange(1, entries.len() as int), seg)
    }
}

/// The views of a sequence of strings: path segments or record lines.
pub open spec fn str_views(path: Seq<String>) -> Seq<Seq<char>> {
    Seq::new(path.len(), |i: int| path[i]@)
}

/// Structural resolution of a path against a document, segment by segment.
/// The empty path resolves to the document itself.
pub open spec fn resolve_path(m: JsonModel, path: Seq<Seq<char>>) -> Option<JsonModel>
    decreases path.len(),
{
    if path.len() == 0 {
        Some(m)
    } else {
        match m.child_at(path[0]) {
            Some(c) => resolve_path(c, path.subrange(1, path.len() as int)),
            None => None,
        }
    }
}

/// Resolving one segment more means resolving the shorter path and then
/// stepping to the child that the last segment names.
pub proof fn lemma_resolve_push(m: JsonModel, path: Seq<Seq<char>>, seg: Seq<char>)
    ensures
        resolve_path(m, path) is None ==> resolve_path(m, path.push(seg)) is None,
        resolve_path(m, path) matches Some(c) ==> resolve_path(m, path.push(seg)) == c.child_at(
            seg,
        ),
    decreases path.len(),
{
    let longer = path.push(seg);
    if path.len() == 0 {
        assert(longer[0] == seg);
        assert(longer.subrange(1, longer.len() as int) =~= Seq::<Seq<char>>::empty());
        match m.child_at(seg) {
            Some(c) => {
                assert(resolve_path(c, Seq::<Seq<char>>::empty()) == Some(c));
                assert(resolve_path(m, longer) == Some(c));
            },
            None => {},
        }
    } else {
        assert(longer[0] == path[0]);
        assert(longer.subrange(1, longer.len() as int) =~= path.subrange(
            1,
            path.len() as int,
        ).push(seg));
        match m.child_at(path[0]) {
            Some(c) => {
                lemma_resolve_push(c, path.subrange(1, path.len() as int), seg);
            },
            None => {},
        }
    }
}

impl Clone for JsonValue {
    /// A deep copy whose view is the view of the original.
    fn clone(&self) -> (r: Self)
        ensures
            r@ == self@,
        decreases *self,
    {
        match self {
            JsonValue::Null => JsonValue::Null,
            JsonValue::Bool(b) => JsonValue::Bool(*b),
            JsonValue::Number(s) => JsonValue::Number(s.clone()),
            JsonValue::String(s) => JsonValue::String(s.clone()),
            JsonValue::Array(items) => {
                let mut out: Vec<JsonValue> = Vec::new();
                let mut i: usize = 0;
                while i < items.len()
                    invariant
                        i <= items@.len(),
                        out@.len() == i,
                        forall|j: int| 0 <= j < i ==> json_model(out@[j]) == json_model(items@[j]),
                        decreases_to!(*self => items@),
                    decreases items@.len() - i,
                {
                    proof {
                        assert(decreases_to!(items@ => items@[i as int]));
                    }
                    out.push(items[i].clone());
                    i = i + 1;
                }
                let r = JsonValue::Array(out);
                proof {
                    let s1 = r@->Array_0;
                    let s2 = (*self)@->Array_0;
                    assert forall|k: int| 0 <= k < s1.len() implies s1[k] == s2[k] by {
                        assert(s1[k] == json_model_at(out@, k));
                        assert(s2[k] == json_model_at(items@, k));
                    }
                    assert(s1 =~= s2);
                    assert(r@ =~= (*self)@);
                }
                r
            },
            JsonValue::Object(entries) => {
                let mut out: Vec<(String, JsonValue)> = Vec::new();
                let mut i: usize = 0;
                while i < entries.len()
                    invariant
                        i <= entries@.len(),
                        out@.len() == i,
                        forall|j: int|
                            0 <= j < i ==> out@[j].0@ == entries@[j].0@ && json_model(out@[j].1)
                                == json_model(entries@[j].1),
                        decreases_to!(*self => entries@),
                    decreases entries@.len() - i,
                {
                    proof {
                        assert(decreases_to!(entries@ => entries@[i as int]));
                    }
                    let entry = (entries[i].0.clone(), entries[i].1.clone());
                    out.push(entry);
                    i = i + 1;
                }
                let r = JsonValue::Object(out);
                proof {
                    let s1 = r@->Object_0;
                    let s2 = (*self)@->Object_0;
                    assert forall|k: int| 0 <= k < s1.len() implies s1[k] == s2[k] by {
                        assert(s1[k] == entry_model_at(out@, k));
                        assert(s2[k] == entry_model_at(entries@, k));
                    }
                    assert(s1 =~= s2);
                    assert(r@ =~= (*self)@);
                }
                r
            },
        }
    }
}

/// Steps from a value to the child a segment names, as `child_at` describes.
pub fn child_lookup<'a>(v: &'a JsonValue, seg: &String) -> (r: Option<&'a JsonValue>)
    ensures
        match r {
            Some(c) => v@.child_at(seg@) == Some(c@),
            None => v@.child_at(seg@) is None,
        },
{
    match v {
        JsonValue::Object(entries) => {
            let ghost ms = v@->Object_0;
            proof {
                assert(ms.subrange(0, ms.len() as int) =~= ms);
            }
            let mut j: usize = 0;
            while j < entries.len()
                invariant
                    j <= entries@.len(),
                    v@ is Object,
                    v@->Object_0 == ms,
                    ms.len() == entries@.len(),
                    forall|k: int|
                        0 <= k < entries@.len() ==> ms[k] == (
                        entries@[k].0@,
                        json_model(entries@[k].1),
                        ),
                    key_lookup(ms, seg@) == key_lookup(
                        ms.subrange(j as int, ms.len() as int),
                        seg@,
                    ),
                decreases entries@.len() - j,
            {
                if entries[j].0 == *seg {
                    proof {
                        let tail = ms.subrange(j as int, ms.len() as int);
                        assert(tail[0] == ms[j as int]);
                        assert(tail[0].0 == seg@);
                        assert(key_lookup(tail, seg@) == Some(tail[0].1));
                        assert(v@.child_at(seg@) == key_lookup(ms, seg@));
                        assert(v@.child_at(seg@) == Some(json_model(entries@[j as int].1)));
                    }
                    return Some(&entries[j].1);
                }
                proof {
                    let tail = ms.subrange(j as int, ms.len() as int);
                    assert(tail.subrange(1, tail.len() as int) =~= ms.subrange(
                        j + 1,
                        ms.len() as int,
                    ));
                }
                j = j + 1;
            }
            proof {
                assert(ms.subrange(j as int, ms.len() as int) =~= Seq::<
                    (Seq<char>, JsonModel),
                >::empty());
                assert(v@.child_at(seg@) == key_lookup(ms, seg@));
            }
            None
        },
        JsonValue::Array(items) => {
            let ghost ms = v@->Array_0;
            let mut j: usize = 0;
            while j < items.len()
                invariant
                    j <= items@.len(),
                    v@ is Array,
                    v@->Array_0 == ms,
                    ms.len() == items@.len(),
                    forall|k: int| 0 <= k < items@.len() ==> ms[k] == json_model(items@[k]),
                    forall|k: int| 0 <= k < j ==> #[trigger] dec_digits(k as nat) != seg@,
                decreases items@.len() - j,
            {
                let label = usize_to_string(j);
                if label == *seg {
                    proof {
                        assert(dec_digits(j as nat) == seg@);
                        assert forall|i: int|
                            0 <= i < ms.len() && #[trigger] dec_digits(i as nat)
                                == seg@ implies i == j by {
                            lemma_dec_digits_injective(i as nat, j as nat);
                        }
                        let ji: int = j as int;
                        assert(0 <= ji < ms.len() && dec_digits(ji as nat) == seg@);
                        assert(exists|i: int|
                            0 <= i < ms.len() && #[trigger] dec_digits(i as nat) == seg@);
                        assert(v@.child_at(seg@) == Some(ms[j as int]));
                        assert(ms[j as int] == json_model(items@[j as int]));
                    }
                    return Some(&items[j]);
                }
                j = j + 1;
            }
            proof {
                if exists|i: int| 0 <= i < ms.len() && #[trigger] dec_digits(i as nat) == seg@ {
                    let w = choose|i: int|
                        0 <= i < ms.len() && #[trigger] dec_digits(i as nat) == seg@;
                    assert(dec_digits(w as nat) != seg@);
                }
                assert(v@.child_at(seg@) is None);
            }
            None
        },
        _ => None,
    }
}

/// Walks a whole path down from `doc`, returning the value it resolves to, or
/// `None` where some segment does not name a child.
pub fn resolve<'a>(doc: &'a JsonValue, path: &Vec<String>) -> (r: Option<&'a JsonValue>)
    ensures
        match r {
            Some(c) => resolve_path(doc@, str_views(path@)) == Some(c@),
            None => resolve_path(doc@, str_views(path@)) is None,
        },
{
    let ghost segs = str_views(path@);
    proof {
        assert(segs.subrange(0, segs.len() as int) =~= segs);
    }
    let mut cur: &JsonValue = doc;
    let mut idx: usize = 0;
    while idx < path.len()
        invariant
            idx <= path@.len(),
            segs == str_views(path@),
            resolve_path(doc@, segs) == resolve_path(
                cur@,
                segs.subrange(idx as int, segs.len() as int),
            ),
        decreases path@.len() - idx,
    {
        let seg: &String = &path[idx];
        proof {
            let tail = segs.subrange(idx as int, segs.len() as int);
            assert(tail[0] == seg@);
            assert(tail.subrange(1, tail.len() as int) =~= segs.subrange(
                idx + 1,
                segs.len() as int,
            ));
        }
        match child_lookup(cur, seg) {
            Some(c) => {
                proof {
                    let tail = segs.subrange(idx as int, segs.len() as int);
                    assert(resolve_path(cur@, tail) == resolve_path(
                        c@,
                        tail.subrange(1, tail.len() as int),
                    ));
                }
                cur = c;
                idx = idx + 1;
            },
            None => {
                proof {
                    let tail = segs.subrange(idx as int, segs.len() as int);
                    assert(resolve_path(cur@, tail) is None);
                }
                return None;
            },
        }
    }
    proof {
        assert(segs.subrange(idx as int, segs.len() as int) =~= Seq::<Seq<char>>::empty());
    }
    Some(cur)
}

/// A key that some member carries is found by `key_lookup`.
pub proof fn lemma_key_lookup_found(entries: Seq<(Seq<char>, JsonModel)>, seg: Seq<char>, i: int)
    requires
        0 <= i < entries.len(),
        entries[i].0 == seg,
    ensures
        key_lookup(entries, seg) is Some,
    decreases entries.len(),
{
    if entries[0].0 == seg {
    } else {
        let tail = entries.subrange(1, entries.len() as int);
        assert(tail[i - 1] == entries[i]);
        lemma_key_lookup_found(tail, seg, i - 1);
    }
}

/// Every label a container shows leads somewhere: stepping through
/// `child_at` with a displayed label succeeds.
pub proof fn lemma_child_at_of_label(c: JsonModel, i: int)
    requires
        0 <= i < c.child_count(),
    ensures
        c.child_at(c.child_label(i)) is Some,
{
    match c {
        JsonModel::Object(entries) => {
            lemma_key_lookup_found(entries, entries[i].0, i);
        },
        JsonModel::Array(items) => {
            assert(0 <= i < items.len() && dec_digits(i as nat) == c.child_label(i));
            assert(exists|k: int|
                0 <= k < items.len() && #[trigger] dec_digits(k as nat) == c.child_label(i));
        },
        _ => {},
    }
}

/// A prefix of a resolving path resolves as well.
pub proof fn lemma_resolve_prefix(m: JsonModel, path: Seq<Seq<char>>)
    requires
        path.len() > 0,
        resolve_path(m, path) is Some,
    ensures
        resolve_path(m, path.drop_last()) is Some,
{
    assert(path.drop_last().push(path.last()) =~= path);
    lemma_resolve_push(m, path.drop_last(), path.last());
}

/// Entering a displayed child: pushing the label of child `i` of the value
/// the path resolves to makes the longer path resolve to exactly the child
/// that `child_at` names — and for an array, to the `i`-th element itself.
pub proof fn lemma_enter_resolves(m: JsonModel, path: Seq<Seq<char>>, c: JsonModel, i: int)
    requires
        resolve_path(m, path) == Some(c),
        0 <= i < c.child_count(),
    ensures
        resolve_path(m, path.push(c.child_label(i))) == c.child_at(c.child_label(i)),
        resolve_path(m, path.push(c.child_label(i))) is Some,
        c is Array ==> resolve_path(m, path.push(c.child_label(i))) == Some(c.child_value(i)),
{
    lemma_resolve_push(m, path, c.child_label(i));
    lemma_child_at_of_label(c, i);
    if c is Array {
        let items = c->Array_0;
        let label = c.child_label(i);
        assert(dec_digits(i as nat) == label);
        assert forall|k: int|
            0 <= k < items.len() && #[trigger] dec_digits(k as nat) == label implies k == i by {
            lemma_dec_digits_injective(k as nat, i as nat);
        }
        assert(c.child_at(label) == Some(items[i]));
    }
}

/// Leaving undoes entering: after a push, dropping the last segment makes
/// the path resolve to what it resolved to before.
pub proof fn lemma_enter_then_leave(m: JsonModel, path: Seq<Seq<char>>, seg: Seq<char>)
    ensures
        resolve_path(m, path.push(seg).drop_last()) == resolve_path(m, path),
{
    assert(path.push(seg).drop_last() =~= path);
}

} // verus!
