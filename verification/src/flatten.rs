use vstd::prelude::*;

use crate::digits::{dec_digits, usize_to_string};
use crate::json::{json_model, str_views, JsonModel, JsonValue};

verus! {

/// How a leaf renders in a search record: `NULL` for null, `true`/`false`
/// for booleans, and the stored text for numbers and strings.
pub open spec fn leaf_text(m: JsonModel) -> Seq<char>
    recommends
        !m.is_container(),
{
    match m {
        JsonModel::Null => "NULL"@,
        JsonModel::Bool(b) => if b {
            "true"@
        } else {
            "false"@
        },
        JsonModel::Number(s) => s,
        JsonModel::String(s) => s,
        _ => Seq::empty(),
    }
}

/// One search record: the pointer to a leaf, a separator, and the leaf text.
pub open spec fn record_line(path: Seq<char>, m: JsonModel) -> Seq<char> {
    path + " : "@ + leaf_text(m)
}

/// All search records of a subtree, in document pre-order. Only leaves
/// produce records; containers only contribute the records of their
/// children. `path` is the pointer to the subtree itself.
pub open spec fn records_of(m: JsonModel, path: Seq<char>) -> Seq<Seq<char>>
    decreases m, 0int,
{
    match m {
        JsonModel::Array(items) => array_records(items, path, 0),
        JsonModel::Object(entries) => object_records(entries, path, 0),
        _ => seq![record_line(path, m)],
    }
}

/// The records of the array elements from position `i` on.
pub open spec fn array_records(items: Seq<JsonModel>, path: Seq<char>, i: int) -> Seq<Seq<char>>
    decreases items, items.len() - i,
{
    if i < 0 || i >= items.len() {
        Seq::empty()
    } else {
        records_of(items[i], path + "/"@ + dec_digits(i as nat)) + array_records(
            items,
            path,
            i + 1,
        )
    }
}

/// The records of the object members from position `i` on.
pub open spec fn object_records(
    entries: Seq<(Seq<char>, JsonModel)>,
    path: Seq<char>,
    i: int,
) -> Seq<Seq<char>>
    decreases entries, entries.len() - i,
{
    if i < 0 || i >= entries.len() {
        Seq::empty()
    } else {
        records_of(entries[i].1, path + "/"@ + entries[i].0) + object_records(entries, path, i + 1)
    }
}

/// How many leaves a subtree holds.
pub open spec fn leaf_count(m: JsonModel) -> nat
    decreases m, 0int,
{
    match m {
        JsonModel::Array(items) => array_leaf_count(items, 0),
        JsonModel::Object(entries) => object_leaf_count(entries, 0),
        _ => 1,
    }
}

pub open spec fn array_leaf_count(items: Seq<JsonModel>, i: int) -> nat
    decreases items, items.len() - i,
{
    if i < 0 || i >= items.len() {
        0
    } else {
        leaf_count(items[i]) + array_leaf_count(items, i + 1)
    }
}

pub open spec fn object_leaf_count(entries: Seq<(Seq<char>, JsonModel)>, i: int) -> nat
    decreases entries, entries.len() - i,
{
    if i < 0 || i >= entries.len() {
        0
    } else {
        leaf_count(entries[i].1) + object_leaf_count(entries, i + 1)
    }
}

/// Every leaf gives exactly one record: the index is as long as the document
/// has leaves, whatever path prefix the walk started from.
pub proof fn lemma_records_len(m: JsonModel, path: Seq<char>)
    ensures
        records_of(m, path).len() == leaf_count(m),
    decreases m, 0int,
{
    match m {
        JsonModel::Array(items) => {
            lemma_array_records_len(items, path, 0);
        },
        JsonModel::Object(entries) => {
            lemma_object_records_len(entries, path, 0);
        },
        _ => {},
    }
}

proof fn lemma_array_records_len(items: Seq<JsonModel>, path: Seq<char>, i: int)
    ensures
        array_records(items, path, i).len() == array_leaf_count(items, i),
    decreases items, items.len() - i,
{
    if 0 <= i < items.len() {
        lemma_records_len(items[i], path + "/"@ + dec_digits(i as nat));
        lemma_array_records_len(items, path, i + 1);
    }
}

proof fn lemma_object_records_len(entries: Seq<(Seq<char>, JsonModel)>, path: Seq<char>, i: int)
    ensures
        object_records(entries, path, i).len() == object_leaf_count(entries, i),
    decreases entries, entries.len() - i,
{
    if 0 <= i < entries.len() {
        lemma_records_len(entries[i].1, path + "/"@ + entries[i].0);
        lemma_object_records_len(entries, path, i + 1);
    }
}

/// The builder is deterministic: any two record lists built from the same
/// document are the same list.
pub proof fn lemma_builder_deterministic(m: JsonModel, r1: Seq<Seq<char>>, r2: Seq<Seq<char>>)
    requires
        r1 == records_of(m, Seq::<char>::empty()),
        r2 == records_of(m, Seq::<char>::empty()),
    ensures
        r1 == r2,
{
}

/// Appends the records of the subtree `v`, whose pointer is `path`, to `out`.
fn append_records(v: &JsonValue, path: &String, out: &mut Vec<String>)
    ensures
        str_views(final(out)@) == str_views(old(out)@) + records_of(v@, path@),
    decreases *v,
{
    match v {
        JsonValue::Null => {
            let mut line = path.clone();
            line.append(" : ");
            line.append("NULL");
            proof {
                assert(line@ =~= record_line(path@, v@));
            }
            out.push(line);
            proof {
                assert(str_views(out@) =~= str_views(old(out)@) + records_of(v@, path@));
            }
        },
        JsonValue::Bool(b) => {
            let mut line = path.clone();
            line.append(" : ");
            if *b {
                line.append("true");
            } else {
                line.append("false");
            }
            proof {
                assert(line@ =~= record_line(path@, v@));
            }
            out.push(line);
            proof {
                assert(str_views(out@) =~= str_views(old(out)@) + records_of(v@, path@));
            }
        },
        JsonValue::Number(s) => {
            let mut line = path.clone();
            line.append(" : ");
            line.append(s.as_str());
            proof {
                assert(line@ =~= record_line(path@, v@));
            }
            out.push(line);
            proof {
                assert(str_views(out@) =~= str_views(old(out)@) + records_of(v@, path@));
            }
        },
        JsonValue::String(s) => {
            let mut line = path.clone();
            line.append(" : ");
            line.append(s.as_str());
            proof {
                assert(line@ =~= record_line(path@, v@));
            }
            out.push(line);
            proof {
                assert(str_views(out@) =~= str_views(old(out)@) + records_of(v@, path@));
            }
        },
        JsonValue::Array(items) => {
            let ghost ms = v@->Array_0;
            let mut i: usize = 0;
            while i < items.len()
                invariant
                    i <= items@.len(),
                    v@ is Array,
                    v@->Array_0 == ms,
                    ms.len() == items@.len(),
                    forall|k: int| 0 <= k < ms.len() ==> ms[k] == json_model(items@[k]),
                    decreases_to!(*v => items@),
                    str_views(out@) + array_records(ms, path@, i as int) =~= str_views(
                        old(out)@,
                    ) + array_records(ms, path@, 0),
                decreases items@.len() - i,
            {
                let label = usize_to_string(i);
                let mut child_path = path.clone();
                child_path.append("/");
                child_path.append(label.as_str());
                proof {
                    assert(child_path@ =~= path@ + "/"@ + dec_digits(i as nat));
                    assert(decreases_to!(items@ => items@[i as int]));
                }
                append_records(&items[i], &child_path, out);
                proof {
                    assert(str_views(out@) + array_records(ms, path@, i + 1) =~= str_views(
                        old(out)@,
                    ) + array_records(ms, path@, 0));
                }
                i = i + 1;
            }
            proof {
                assert(array_records(ms, path@, items@.len() as int) =~= Seq::<Seq<char>>::empty());
                assert(str_views(out@) =~= str_views(old(out)@) + records_of(v@, path@));
            }
        },
        JsonValue::Object(entries) => {
            let ghost ms = v@->Object_0;
            let mut i: usize = 0;
            while i < entries.len()
                invariant
                    i <= entries@.len(),
                    v@ is Object,
                    v@->Object_0 == ms,
                    ms.len() == entries@.len(),
                    forall|k: int|
                        0 <= k < ms.len() ==> ms[k] == (
                        entries@[k].0@,
                        json_model(entries@[k].1),
                        ),
                    decreases_to!(*v => entries@),
                    str_views(out@) + object_records(ms, path@, i as int) =~= str_views(
                        old(out)@,
                    ) + object_records(ms, path@, 0),
                decreases entries@.len() - i,
            {
                let mut child_path = path.clone();
                child_path.append("/");
                child_path.append(entries[i].0.as_str());
                proof {
                    assert(child_path@ =~= path@ + "/"@ + ms[i as int].0);
                    assert(decreases_to!(entries@ => entries@[i as int]));
                }
                append_records(&entries[i].1, &child_path, out);
                proof {
                    assert(str_views(out@) + object_records(ms, path@, i + 1) =~= str_views(
                        old(out)@,
                    ) + object_records(ms, path@, 0));
                }
                i = i + 1;
            }
            proof {
                assert(object_records(ms, path@, entries@.len() as int) =~= Seq::<
                    Seq<char>,
                >::empty());
                assert(str_views(out@) =~= str_views(old(out)@) + records_of(v@, path@));
            }
        },
    }
}

/// Walks the whole document once, depth first and in order, and returns one
/// `pointer : value` line for every leaf.
pub fn build_fuzzy_index(doc: &JsonValue) -> (r: Vec<String>)
    ensures
        str_views(r@) == records_of(doc@, Seq::<char>::empty()),
{
    let mut out: Vec<String> = Vec::new();
    let path = String::new();
    append_records(doc, &path, &mut out);
    proof {
        assert(str_views(Seq::<String>::empty()) =~= Seq::<Seq<char>>::empty());
        assert(str_views(out@) =~= records_of(doc@, Seq::<char>::empty()));
    }
    out
}

} // verus!
