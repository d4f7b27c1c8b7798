use vstd::prelude::*;

use vstd::arithmetic::div_mod::{
    lemma_fundamental_div_mod, lemma_fundamental_div_mod_converse, lemma_mod_pos_bound,
    lemma_mod_self_0, lemma_small_mod,
};

verus! {

/// The cursor state of a displayed list: at most one selected row.
#[derive(Debug, PartialEq)]
pub struct ListState {
    pub selected_index: Option<usize>,
}

impl Default for ListState {
    /// A fresh cursor selects nothing.
    fn default() -> (r: Self)
        ensures
            r.selected_index is None,
    {
        ListState { selected_index: None }
    }
}

impl ListState {
    pub fn selected(&self) -> (r: Option<usize>)
        ensures
            r == self.selected_index,
    {
        self.selected_index
    }

    pub fn select(&mut self, index: Option<usize>)
        ensures
            final(self).selected_index == index,
    {
        self.selected_index = index;
    }
}

/// Where the cursor lands when it moves one row down: it wraps from the
/// last row to the first.
pub open spec fn step_next(i: nat, len: nat) -> nat
    recommends
        i < len,
{
    if i + 1 >= len {
        0
    } else {
        i + 1
    }
}

/// Where the cursor lands when it moves one row up: it wraps from the first
/// row to the last.
pub open spec fn step_previous(i: nat, len: nat) -> nat
    recommends
        i < len,
        len > 0,
{
    if i == 0 {
        (len - 1) as nat
    } else {
        (i - 1) as nat
    }
}

/// The cursor after `k` single steps down.
pub open spec fn iter_next(i: nat, len: nat, k: nat) -> nat
    decreases k,
{
    if k == 0 {
        i
    } else {
        step_next(iter_next(i, len, (k - 1) as nat), len)
    }
}

proof fn lemma_iter_next_mod(i: nat, len: nat, k: nat)
    requires
        i < len,
    ensures
        iter_next(i, len, k) as int == (i as int + k as int) % (len as int),
    decreases k,
{
    if k == 0 {
        lemma_small_mod(i, len);
    } else {
        lemma_iter_next_mod(i, len, (k - 1) as nat);
        let p = (i + k - 1) % (len as int);
        lemma_mod_pos_bound(i + k - 1, len as int);
        lemma_fundamental_div_mod(i + k - 1, len as int);
        let q = (i + k - 1) / (len as int);
        if p + 1 >= len {
            assert(i + k == (q + 1) * (len as int) + 0) by (nonlinear_arith)
                requires
                    i + k - 1 == (len as int) * q + p,
                    p + 1 == len,
            ;
            lemma_fundamental_div_mod_converse(i as int + k as int, len as int, q + 1, 0);
        } else {
            assert(i + k == q * (len as int) + (p + 1)) by (nonlinear_arith)
                requires
                    i + k - 1 == (len as int) * q + p,
            ;
            lemma_fundamental_div_mod_converse(i as int + k as int, len as int, q, p + 1);
        }
    }
}

/// Wrap-around cycle law: moving the cursor down as many times as the list
/// has rows returns it to its starting row.
pub proof fn lemma_next_cycle(i: nat, len: nat)
    requires
        i < len,
    ensures
        iter_next(i, len, len) == i,
{
    lemma_iter_next_mod(i, len, len);
    lemma_fundamental_div_mod_converse(i as int + len as int, len as int, 1, i as int);
}

/// One step up undoes one step down, and the other way round.
pub proof fn lemma_previous_inverts_next(i: nat, len: nat)
    requires
        i < len,
    ensures
        step_previous(step_next(i, len), len) == i,
        step_next(step_previous(i, len), len) == i,
{
}

/// An ordered list of rows together with a single-selection cursor.
#[derive(Debug, PartialEq)]
pub struct StatefulList<T> {
    pub state: ListState,
    pub items: Vec<T>,
}

/// How one `next` call relates a list to its successor: rows unchanged, the
/// cursor one row further down (wrapping), set to the first row if it was
/// unset, and untouched on an empty list.
pub open spec fn stepped_next<T>(a: StatefulList<T>, b: StatefulList<T>) -> bool {
    &&& b.items == a.items
    &&& a.items@.len() == 0 ==> b.state == a.state
    &&& a.items@.len() > 0 ==> (match a.state.selected_index {
        None => b.state.selected_index == Some(0usize),
        Some(i) => b.state.selected_index matches Some(j) && j as nat == step_next(
            i as nat,
            a.items@.len(),
        ),
    })
}

/// How one `previous` call relates a list to its successor.
pub open spec fn stepped_previous<T>(a: StatefulList<T>, b: StatefulList<T>) -> bool {
    &&& b.items == a.items
    &&& a.items@.len() == 0 ==> b.state == a.state
    &&& a.items@.len() > 0 ==> (match a.state.selected_index {
        None => b.state.selected_index == Some(0usize),
        Some(i) => b.state.selected_index matches Some(j) && j as nat == step_previous(
            i as nat,
            a.items@.len(),
        ),
    })
}

impl<T> StatefulList<T> {
    /// The cursor, when set, stays inside the list; on an empty list it is
    /// never set.
    pub open spec fn wf(self) -> bool {
        match self.state.selected_index {
            Some(i) => i < self.items@.len(),
            None => true,
        }
    }

    /// A fresh list over the given rows, with the cursor unset.
    pub fn with_items(items: Vec<T>) -> (r: StatefulList<T>)
        ensures
            r.items == items,
            r.state.selected_index is None,
            r.wf(),
    {
        StatefulList { state: ListState::default(), items }
    }

    /// Moves the cursor one row down, wrapping at the end; a cursor that was
    /// unset lands on the first row. On an empty list this is a no-op.
    pub fn next(&mut self)
        requires
            old(self).wf(),
        ensures
            final(self).wf(),
            stepped_next(*old(self), *final(self)),
    {
        let len = self.items.len();
        if len == 0 {
            return ;
        }
        let i: usize = match self.state.selected() {
            Some(i) => if i >= len - 1 {
                0
            } else {
                i + 1
            },
            None => 0,
        };
        self.state.select(Some(i));
    }

    /// Moves the cursor one row up, wrapping at the start; a cursor that was
    /// unset lands on the first row. On an empty list this is a no-op.
    pub fn previous(&mut self)
        requires
            old(self).wf(),
        ensures
            final(self).wf(),
            stepped_previous(*old(self), *final(self)),
    {
        let len = self.items.len();
        if len == 0 {
            return ;
        }
        let i: usize = match self.state.selected() {
            Some(i) => if i == 0 {
                len - 1
            } else {
                i - 1
            },
            None => 0,
        };
        self.state.select(Some(i));
    }

    /// The row under the cursor, if any.
    pub fn selected(&self) -> (r: Option<&T>)
        requires
            self.wf(),
        ensures
            match self.state.selected_index {
                Some(i) => r matches Some(x) && *x == self.items@[i as int],
                None => r is None,
            },
    {
        match self.state.selected() {
            Some(i) => Some(&self.items[i]),
            None => None,
        }
    }
}

/// A row of tab titles with the highlighted position.
pub struct TabsState<'a> {
    pub titles: Vec<&'a str>,
    pub index: usize,
}

impl<'a> TabsState<'a> {
    pub fn new(titles: Vec<&'a str>) -> (r: TabsState<'a>)
        ensures
            r.titles == titles,
            r.index == 0,
    {
        TabsState { titles, index: 0 }
    }

    /// Highlights the following tab, wrapping past the last one.
    pub fn next(&mut self)
        requires
            old(self).index < old(self).titles@.len(),
        ensures
            final(self).titles == old(self).titles,
            final(self).index as nat == step_next(old(self).index as nat, old(self).titles@.len()),
            final(self).index < final(self).titles@.len(),
    {
        let n = self.titles.len();
        proof {
            if self.index + 1 == n {
                lemma_mod_self_0(n as int);
            } else {
                lemma_small_mod((self.index + 1) as nat, n as nat);
            }
        }
        self.index = (self.index + 1) % n;
    }

    /// Highlights the preceding tab, wrapping past the first one.
    pub fn previous(&mut self)
        requires
            old(self).index < old(self).titles@.len(),
        ensures
            final(self).titles == old(self).titles,
            final(self).index as nat == step_previous(
                old(self).index as nat,
                old(self).titles@.len(),
            ),
            final(self).index < final(self).titles@.len(),
    {
        if self.index > 0 {
            self.index = self.index - 1;
        } else {
            self.index = self.titles.len() - 1;
        }
    }
}

} // verus!
