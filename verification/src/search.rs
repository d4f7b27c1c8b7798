use vstd::prelude::*;

use crate::json::str_views;

verus! {

/// Case folding for the matcher: an ASCII upper-case letter stands for its
/// lower-case form; every other character stands for its own code point.
pub open spec fn fold_char(c: char) -> int {
    if 65 <= c as u32 && c as u32 <= 90 {
        c as u32 + 32
    } else {
        c as u32 as int
    }
}

fn fold_char_exec(c: char) -> (r: u32)
    ensures
        r as int == fold_char(c),
{
    let u = c as u32;
    if 65 <= u && u <= 90 {
        u + 32
    } else {
        u
    }
}

/// A query matches a record when the query's characters all appear in the
/// record, in order, compared case-insensitively: a subsequence test.
pub open spec fn is_fuzzy_match(q: Seq<char>, t: Seq<char>) -> bool
    decreases q.len() + t.len(),
{
    if q.len() == 0 {
        true
    } else if t.len() == 0 {
        false
    } else if fold_char(q[0]) == fold_char(t[0]) {
        is_fuzzy_match(q.subrange(1, q.len() as int), t.subrange(1, t.len() as int))
    } else {
        is_fuzzy_match(q, t.subrange(1, t.len() as int))
    }
}

/// Decides `is_fuzzy_match` for a concrete query and record.
pub fn fuzzy_match(query: &Vec<char>, text: &String) -> (r: bool)
    ensures
        r == is_fuzzy_match(query@, text@),
{
    let n = text.as_str().unicode_len();
    let mut qi: usize = 0;
    let mut ti: usize = 0;
    proof {
        assert(query@.subrange(0, query@.len() as int) =~= query@);
        assert(text@.subrange(0, text@.len() as int) =~= text@);
    }
    while qi < query.len() && ti < n
        invariant
            qi <= query@.len(),
            ti <= text@.len(),
            n == text@.len(),
            is_fuzzy_match(query@, text@) == is_fuzzy_match(
                query@.subrange(qi as int, query@.len() as int),
                text@.subrange(ti as int, text@.len() as int),
            ),
        decreases text@.len() - ti,
    {
        let qc = query[qi];
        let tc = text.as_str().get_char(ti);
        proof {
            let qs = query@.subrange(qi as int, query@.len() as int);
            let ts = text@.subrange(ti as int, text@.len() as int);
            assert(qs[0] == query@[qi as int]);
            assert(ts[0] == text@[ti as int]);
            assert(qs.subrange(1, qs.len() as int) =~= query@.subrange(
                qi + 1,
                query@.len() as int,
            ));
            assert(ts.subrange(1, ts.len() as int) =~= text@.subrange(
                ti + 1,
                text@.len() as int,
            ));
        }
        if fold_char_exec(qc) == fold_char_exec(tc) {
            qi = qi + 1;
            ti = ti + 1;
        } else {
            ti = ti + 1;
        }
    }
    proof {
        if qi == query@.len() {
            assert(query@.subrange(qi as int, query@.len() as int) =~= Seq::<char>::empty());
        } else {
            assert(text@.subrange(ti as int, text@.len() as int) =~= Seq::<char>::empty());
        }
    }
    qi == query.len()
}

/// The records that match the query, kept in their original order: a stable
/// filter, not a ranked search.
pub open spec fn filtered(q: Seq<char>, rs: Seq<Seq<char>>) -> Seq<Seq<char>>
    decreases rs.len(),
{
    if rs.len() == 0 {
        Seq::empty()
    } else {
        let rest = filtered(q, rs.drop_last());
        if is_fuzzy_match(q, rs.last()) {
            rest.push(rs.last())
        } else {
            rest
        }
    }
}

/// An empty query keeps every record: filtering with it is the identity.
pub proof fn lemma_empty_query_keeps_all(q: Seq<char>, rs: Seq<Seq<char>>)
    requires
        q.len() == 0,
    ensures
        filtered(q, rs) == rs,
    decreases rs.len(),
{
    if rs.len() == 0 {
        assert(filtered(q, rs) =~= rs);
    } else {
        lemma_empty_query_keeps_all(q, rs.drop_last());
        assert(is_fuzzy_match(q, rs.last()));
        assert(filtered(q, rs) =~= rs);
    }
}

/// Keeps the records that match the query, in their original order.
pub fn filter_records(query: &Vec<char>, records: &Vec<String>) -> (r: Vec<String>)
    ensures
        str_views(r@) == filtered(query@, str_views(records@)),
{
    let ghost all = str_views(records@);
    let mut out: Vec<String> = Vec::new();
    let mut i: usize = 0;
    proof {
        assert(all.subrange(0, 0) =~= Seq::<Seq<char>>::empty());
        assert(str_views(out@) =~= Seq::<Seq<char>>::empty());
    }
    while i < records.len()
        invariant
            i <= records@.len(),
            all == str_views(records@),
            str_views(out@) == filtered(query@, all.subrange(0, i as int)),
        decreases records@.len() - i,
    {
        proof {
            let pre = all.subrange(0, i as int);
            let nxt = all.subrange(0, i + 1);
            assert(nxt.drop_last() =~= pre);
            assert(nxt.last() == all[i as int]);
            assert(all[i as int] == records@[i as int]@);
        }
        if fuzzy_match(query, &records[i]) {
            out.push(records[i].clone());
            proof {
                assert(str_views(out@) =~= filtered(query@, all.subrange(0, i + 1)));
            }
        } else {
            proof {
                assert(str_views(out@) =~= filtered(query@, all.subrange(0, i + 1)));
            }
        }
        i = i + 1;
    }
    proof {
        assert(all.subrange(0, all.len() as int) =~= all);
    }
    out
}

} // verus!
