use vstd::prelude::*;

use crate::element::{build_elements, is_element_list, Element, Index};
use crate::flatten::{build_fuzzy_index, records_of};
use crate::json::{
    lemma_child_at_of_label, lemma_resolve_prefix, lemma_resolve_push, resolve,
    resolve_path, str_views, JsonModel, JsonValue,
};
use crate::list::{stepped_next, stepped_previous, StatefulList};
use crate::search::{filter_records, filtered, lemma_empty_query_keeps_all};

verus! {

/// Which interaction mode is live: tree navigation or query-driven search.
#[derive(Debug, Clone, Copy, PartialEq, Eq, Structural)]
pub enum Route {
    Search,
    Main,
}

/// One abstract key, as the terminal collaborator reports it. Keys the
/// state machine does not know are handed in as `Unknown` and ignored.
#[derive(Debug, Clone, Copy, PartialEq, Eq, Structural)]
pub enum Key {
    Char(char),
    Ctrl(char),
    Up,
    Down,
    Enter,
    Esc,
    Backspace,
    Unknown,
}

/// One event of the session loop: an input key, or the periodic tick that
/// only keeps the render loop alive.
#[derive(Debug, Clone, Copy, PartialEq, Eq, Structural)]
pub enum Event {
    Input(Key),
    Tick,
}

/// Where the terminal cursor of the query line stands: at the end of the
/// query, capped at the widest position a terminal column can hold.
pub open spec fn cursor_for(len: nat) -> u16 {
    if len >= 65535 {
        65535
    } else {
        len as u16
    }
}

/// The interaction state machine: the document, the navigation stack, the
/// displayed element list, and the search state, under one owner.
pub struct App {
    pub json: Option<JsonValue>,
    pub navigation_stack: Vec<String>,
    pub elements: Option<StatefulList<Element>>,
    pub fuzzy_index: Option<Vec<String>>,
    pub fuzzy_elements: Option<StatefulList<String>>,
    pub user_input: Vec<char>,
    pub input_cursor_position: u16,
    pub current_route: Route,
}

/// No field of the state changed.
pub open spec fn same_state(a: App, b: App) -> bool {
    &&& b.json == a.json
    &&& b.navigation_stack == a.navigation_stack
    &&& b.elements == a.elements
    &&& b.fuzzy_index == a.fuzzy_index
    &&& b.fuzzy_elements == a.fuzzy_elements
    &&& b.user_input == a.user_input
    &&& b.input_cursor_position == a.input_cursor_position
    &&& b.current_route == a.current_route
}

/// The element list was freshly materialized: its cursor is unset.
pub open spec fn fresh_elements(b: App) -> bool {
    b.elements matches Some(l) && l.state.selected_index is None
}

/// The Browse data — document, path and element list — is untouched.
pub open spec fn browse_kept(a: App, b: App) -> bool {
    &&& b.json == a.json
    &&& b.navigation_stack == a.navigation_stack
    &&& b.elements == a.elements
}

/// The Search data — index, filtered list, query and its cursor — is
/// untouched.
pub open spec fn search_kept(a: App, b: App) -> bool {
    &&& b.fuzzy_index == a.fuzzy_index
    &&& b.fuzzy_elements == a.fuzzy_elements
    &&& b.user_input == a.user_input
    &&& b.input_cursor_position == a.input_cursor_position
}

/// The transition table of the state machine, as one relation between the
/// state before a key, the key, the state after it, and whether the session
/// ends: what one key changed and what it kept.
pub open spec fn key_transition(pre: App, key: Key, post: App, quit: bool) -> bool {
    &&& quit == (key == Key::Ctrl('c'))
    &&& key == Key::Ctrl('c') ==> same_state(pre, post)
    &&& key == Key::Unknown ==> same_state(pre, post)
    &&& (pre.current_route == Route::Main && key == Key::Down) ==> ({
        &&& search_kept(pre, post)
        &&& post.json == pre.json
        &&& post.navigation_stack == pre.navigation_stack
        &&& post.current_route == Route::Main
        &&& pre.elements matches Some(a) && post.elements matches Some(b) && stepped_next(a, b)
    })
    &&& (pre.current_route == Route::Main && key == Key::Up) ==> ({
        &&& search_kept(pre, post)
        &&& post.json == pre.json
        &&& post.navigation_stack == pre.navigation_stack
        &&& post.current_route == Route::Main
        &&& pre.elements matches Some(a) && post.elements matches Some(b) && stepped_previous(
            a,
            b,
        )
    })
    &&& (pre.current_route == Route::Main && key == Key::Enter) ==> ({
        &&& search_kept(pre, post)
        &&& post.json == pre.json
        &&& post.current_route == Route::Main
        &&& match pre.selected_element() {
            Some(e) => if e.is_container() {
                post.path() == pre.path().push(e.label()) && fresh_elements(post)
            } else {
                same_state(pre, post)
            },
            None => same_state(pre, post),
        }
    })
    &&& (pre.current_route == Route::Main && key == Key::Esc) ==> ({
        &&& search_kept(pre, post)
        &&& post.json == pre.json
        &&& post.current_route == Route::Main
        &&& if pre.navigation_stack@.len() == 0 {
            same_state(pre, post)
        } else {
            post.path() == pre.path().drop_last() && fresh_elements(post)
        }
    })
    &&& (pre.current_route == Route::Main && key == Key::Char('/')) ==> ({
        &&& browse_kept(pre, post)
        &&& post.current_route == Route::Search
        &&& post.user_input@.len() == 0
        &&& (pre.fuzzy_index is Some ==> post.fuzzy_index == pre.fuzzy_index)
        &&& post.fuzzy_elements matches Some(fl) && (fl.items@.len() > 0
            ==> fl.state.selected_index == Some(0usize))
    })
    &&& pre.current_route == Route::Main ==> (key matches Key::Char(c) && c != '/'
        ==> same_state(pre, post))
    &&& (pre.current_route == Route::Main && key == Key::Backspace) ==> same_state(pre, post)
    &&& pre.current_route == Route::Main ==> (key matches Key::Ctrl(c) && c != 'c'
        ==> same_state(pre, post))
    &&& pre.current_route == Route::Search ==> (key matches Key::Char(c) ==> ({
        &&& browse_kept(pre, post)
        &&& post.current_route == Route::Search
        &&& post.user_input@ == pre.user_input@.push(c)
        &&& post.fuzzy_index == pre.fuzzy_index
    }))
    &&& (pre.current_route == Route::Search && key == Key::Backspace) ==> ({
        &&& browse_kept(pre, post)
        &&& post.current_route == Route::Search
        &&& post.user_input@ == (if pre.user_input@.len() == 0 {
            pre.user_input@
        } else {
            pre.user_input@.drop_last()
        })
        &&& post.fuzzy_index == pre.fuzzy_index
    })
    &&& (pre.current_route == Route::Search && key == Key::Down) ==> ({
        &&& browse_kept(pre, post)
        &&& post.current_route == Route::Search
        &&& post.user_input == pre.user_input
        &&& post.fuzzy_index == pre.fuzzy_index
        &&& pre.fuzzy_elements matches Some(a) && post.fuzzy_elements matches Some(b)
            && stepped_next(a, b)
    })
    &&& (pre.current_route == Route::Search && key == Key::Up) ==> ({
        &&& browse_kept(pre, post)
        &&& post.current_route == Route::Search
        &&& post.user_input == pre.user_input
        &&& post.fuzzy_index == pre.fuzzy_index
        &&& pre.fuzzy_elements matches Some(a) && post.fuzzy_elements matches Some(b)
            && stepped_previous(a, b)
    })
    &&& pre.current_route == Route::Search ==> (key matches Key::Ctrl(c) && c == 'q' ==> ({
        &&& browse_kept(pre, post)
        &&& post.current_route == Route::Main
        &&& post.fuzzy_index == pre.fuzzy_index
        &&& post.fuzzy_elements == pre.fuzzy_elements
        &&& post.user_input@.len() == 0
    }))
    &&& (pre.current_route == Route::Search && key == Key::Enter) ==> same_state(pre, post)
    &&& (pre.current_route == Route::Search && key == Key::Esc) ==> same_state(pre, post)
    &&& pre.current_route == Route::Search ==> (key matches Key::Ctrl(c) && c != 'c' && c != 'q'
        ==> same_state(pre, post))
}

impl App {

    /// The document's model.
    pub open spec fn doc(self) -> JsonModel
        recommends
            self.json is Some,
    {
        self.json->0@
    }

    /// The navigation path, as segment views.
    pub open spec fn path(self) -> Seq<Seq<char>> {
        str_views(self.navigation_stack@)
    }

    /// The value the navigation path resolves to.
    pub open spec fn cur_view(self) -> Option<JsonModel>
        recommends
            self.json is Some,
    {
        resolve_path(self.doc(), self.path())
    }

    /// The element under the Browse cursor.
    pub open spec fn selected_element(self) -> Option<Element> {
        match self.elements {
            Some(l) => match l.state.selected_index {
                Some(i) => if i < l.items@.len() {
                    Some(l.items@[i as int])
                } else {
                    None
                },
                None => None,
            },
            None => None,
        }
    }

    /// In Search mode, the filtered list is exactly the full index filtered
    /// by the live query.
    pub open spec fn search_live(self) -> bool {
        &&& self.fuzzy_index matches Some(ix)
        &&& self.fuzzy_elements matches Some(fl) && str_views(fl.items@) == filtered(
            self.user_input@,
            str_views(ix@),
        )
    }

    /// The session invariant: a document is loaded, the path resolves, the
    /// displayed list shows the resolved value's children, a built index
    /// holds one record per leaf, and in Search mode the filtered list
    /// matches the query.
    pub open spec fn wf(self) -> bool {
        &&& self.json is Some
        &&& self.cur_view() is Some
        &&& self.elements matches Some(l) && l.wf() && is_element_list(
            self.cur_view()->0,
            l.items@,
        )
        &&& match self.fuzzy_index {
            Some(ix) => str_views(ix@) == records_of(self.doc(), Seq::<char>::empty()),
            None => true,
        }
        &&& match self.fuzzy_elements {
            Some(fl) => fl.wf(),
            None => true,
        }
        &&& self.current_route == Route::Search ==> self.search_live()
        &&& self.input_cursor_position == cursor_for(self.user_input@.len())
    }

    /// A fresh session: no document yet, the path at the root, Browse mode.
    pub fn init() -> (app: App)
        ensures
            app.json is None,
            app.navigation_stack@.len() == 0,
            app.elements is None,
            app.fuzzy_index is None,
            app.fuzzy_elements is None,
            app.user_input@.len() == 0,
            app.input_cursor_position == 0,
            app.current_route == Route::Main,
    {
        App {
            json: None,
            navigation_stack: Vec::new(),
            elements: None,
            fuzzy_index: None,
            fuzzy_elements: None,
            user_input: Vec::new(),
            input_cursor_position: 0,
            current_route: Route::Main,
        }
    }

    pub fn get_current_route(&self) -> (r: Route)
        ensures
            r == self.current_route,
    {
        self.current_route
    }

    pub fn set_current_route(&mut self, route: Route)
        ensures
            final(self).current_route == route,
            browse_kept(*old(self), *final(self)),
            search_kept(*old(self), *final(self)),
    {
        self.current_route = route;
    }

    /// Loads (or unloads) the parsed document. The fuzzy index belongs to
    /// the previous document, so it is dropped with it.
    pub fn set_json(&mut self, js: Option<JsonValue>)
        ensures
            final(self).json == js,
            final(self).fuzzy_index is None,
            final(self).fuzzy_elements is None,
            final(self).navigation_stack == old(self).navigation_stack,
            final(self).elements == old(self).elements,
            final(self).user_input == old(self).user_input,
            final(self).input_cursor_position == old(self).input_cursor_position,
            final(self).current_route == old(self).current_route,
    {
        self.json = js;
        self.fuzzy_index = None;
        self.fuzzy_elements = None;
    }

    /// Re-materializes the displayed element list from the value the path
    /// resolves to, with the cursor unset. A path that no longer resolves is
    /// an internal inconsistency: the session recovers by resetting to the
    /// root rather than failing.
    pub fn set_elements(&mut self)
        requires
            old(self).json is Some,
        ensures
            final(self).json == old(self).json,
            final(self).fuzzy_index == old(self).fuzzy_index,
            final(self).fuzzy_elements == old(self).fuzzy_elements,
            final(self).user_input == old(self).user_input,
            final(self).input_cursor_position == old(self).input_cursor_position,
            final(self).current_route == old(self).current_route,
            old(self).cur_view() is Some ==> final(self).navigation_stack == old(
                self,
            ).navigation_stack,
            old(self).cur_view() is None ==> final(self).navigation_stack@.len() == 0,
            final(self).cur_view() is Some,
            final(self).elements matches Some(l) && l.wf() && l.state.selected_index is None
                && is_element_list(final(self).cur_view()->0, l.items@),
    {
        let js: &JsonValue = self.json.as_ref().unwrap();
        match resolve(js, &self.navigation_stack) {
            Some(c) => {
                let items = build_elements(c);
                self.elements = Some(StatefulList::with_items(items));
            },
            None => {
                self.navigation_stack = Vec::new();
                let doc_ref: &JsonValue = self.json.as_ref().unwrap();
                let items = build_elements(doc_ref);
                self.elements = Some(StatefulList::with_items(items));
                proof {
                    assert(str_views(self.navigation_stack@) =~= Seq::<Seq<char>>::empty());
                }
            },
        }
    }

    /// `enter`: pushes the selected element's segment onto the path — only
    /// when that element is a container. For any other selection, or none,
    /// this is a no-op.
    pub fn set_route(&mut self)
        requires
            old(self).elements matches Some(l) && l.wf(),
        ensures
            final(self).json == old(self).json,
            final(self).elements == old(self).elements,
            final(self).fuzzy_index == old(self).fuzzy_index,
            final(self).fuzzy_elements == old(self).fuzzy_elements,
            final(self).user_input == old(self).user_input,
            final(self).input_cursor_position == old(self).input_cursor_position,
            final(self).current_route == old(self).current_route,
            match old(self).selected_element() {
                Some(e) => if e.is_container() {
                    final(self).path() == old(self).path().push(e.label())
                } else {
                    final(self).navigation_stack == old(self).navigation_stack
                },
                None => final(self).navigation_stack == old(self).navigation_stack,
            },
    {
        let ghost o = *self;
        let l = self.elements.as_ref().unwrap();
        let pushed: Option<String> = match l.selected() {
            Some(e) => match e {
                Element::Array(Index::Key(k), _) => Some(k.clone()),
                Element::Object(Index::Key(k), _) => Some(k.clone()),
                Element::Bool(_, _) => None,
                Element::String(_, _) => None,
                Element::Number(_, _) => None,
                Element::Null(_) => None,
            },
            None => None,
        };
        match pushed {
            Some(k) => {
                self.navigation_stack.push(k);
                proof {
                    assert(str_views(self.navigation_stack@) =~= str_views(
                        o.navigation_stack@,
                    ).push(o.selected_element()->0.label()));
                }
            },
            None => {},
        }
    }

    /// `leave`: pops the last path segment; at the root this is a no-op.
    pub fn pop_route(&mut self)
        ensures
            final(self).json == old(self).json,
            final(self).elements == old(self).elements,
            final(self).fuzzy_index == old(self).fuzzy_index,
            final(self).fuzzy_elements == old(self).fuzzy_elements,
            final(self).user_input == old(self).user_input,
            final(self).input_cursor_position == old(self).input_cursor_position,
            final(self).current_route == old(self).current_route,
            old(self).navigation_stack@.len() == 0 ==> final(self).navigation_stack == old(
                self,
            ).navigation_stack,
            old(self).navigation_stack@.len() > 0 ==> final(self).path() == old(
                self,
            ).path().drop_last(),
    {
        let ghost o = *self;
        if self.navigation_stack.len() > 0 {
            self.navigation_stack.pop();
            proof {
                assert(str_views(self.navigation_stack@) =~= str_views(
                    o.navigation_stack@,
                ).drop_last());
            }
        }
    }

    /// The breadcrumb: the path segments joined with dots; the root renders
    /// as the empty string.
    pub fn get_current_navigation_stack(&self) -> (r: String)
        ensures
            r@ == display_path(self.path()),
    {
        let ghost segs = self.path();
        let mut r = String::new();
        let mut i: usize = 0;
        proof {
            assert(segs.subrange(0, 0) =~= Seq::<Seq<char>>::empty());
        }
        while i < self.navigation_stack.len()
            invariant
                i <= self.navigation_stack@.len(),
                segs == self.path(),
                segs.len() == self.navigation_stack@.len(),
                r@ == display_path(segs.subrange(0, i as int)),
            decreases self.navigation_stack@.len() - i,
        {
            proof {
                let pre = segs.subrange(0, i as int);
                let nxt = segs.subrange(0, i + 1);
                assert(nxt.drop_last() =~= pre);
                assert(nxt.last() == segs[i as int]);
                assert(segs[i as int] == self.navigation_stack@[i as int]@);
            }
            if i > 0 {
                r.append(".");
            }
            r.append(self.navigation_stack[i].as_str());
            proof {
                assert(r@ =~= display_path(segs.subrange(0, i + 1)));
            }
            i = i + 1;
        }
        proof {
            assert(segs.subrange(0, segs.len() as int) =~= segs);
        }
        r
    }

    /// Entering Search mode: builds the fuzzy index once per document (it is
    /// kept if already built), clears the query, shows the full index as the
    /// filtered list, and puts the cursor on the first row if there is one.
    pub fn set_fuzzy_elements(&mut self)
        requires
            old(self).json is Some,
            match old(self).fuzzy_index {
                Some(ix) => str_views(ix@) == records_of(old(self).doc(), Seq::<char>::empty()),
                None => true,
            },
        ensures
            final(self).json == old(self).json,
            final(self).navigation_stack == old(self).navigation_stack,
            final(self).elements == old(self).elements,
            final(self).current_route == old(self).current_route,
            final(self).user_input@.len() == 0,
            final(self).input_cursor_position == 0,
            old(self).fuzzy_index is Some ==> final(self).fuzzy_index == old(self).fuzzy_index,
            final(self).fuzzy_index matches Some(ix) && str_views(ix@) == records_of(
                old(self).doc(),
                Seq::<char>::empty(),
            ),
            final(self).search_live(),
            final(self).fuzzy_elements matches Some(fl) && fl.wf() && (fl.items@.len() > 0
                ==> fl.state.selected_index == Some(0usize)) && (fl.items@.len() == 0
                ==> fl.state.selected_index is None),
    {
        if self.fuzzy_index.is_none() {
            let js: &JsonValue = self.json.as_ref().unwrap();
            let ix = build_fuzzy_index(js);
            self.fuzzy_index = Some(ix);
        }
        self.user_input = Vec::new();
        self.input_cursor_position = 0;
        let ix_ref: &Vec<String> = self.fuzzy_index.as_ref().unwrap();
        let full = filter_records(&self.user_input, ix_ref);
        proof {
            lemma_empty_query_keeps_all(self.user_input@, str_views(ix_ref@));
        }
        let n = full.len();
        let mut fl = StatefulList::with_items(full);
        if n > 0 {
            fl.state.select(Some(0));
        }
        self.fuzzy_elements = Some(fl);
    }

    /// Recomputes the filtered list for the current query, in record order,
    /// with the cursor on the first row if any row matches.
    pub fn search_and_set_fuzzy_data(&mut self)
        requires
            old(self).fuzzy_index is Some,
        ensures
            final(self).json == old(self).json,
            final(self).navigation_stack == old(self).navigation_stack,
            final(self).elements == old(self).elements,
            final(self).current_route == old(self).current_route,
            final(self).user_input == old(self).user_input,
            final(self).input_cursor_position == old(self).input_cursor_position,
            final(self).fuzzy_index == old(self).fuzzy_index,
            final(self).fuzzy_elements matches Some(fl) && fl.wf() && str_views(fl.items@)
                == filtered(old(self).user_input@, str_views(old(self).fuzzy_index->0@)) && (
            fl.items@.len() > 0 ==> fl.state.selected_index == Some(0usize)) && (fl.items@.len()
                == 0 ==> fl.state.selected_index is None),
    {
        let ix_ref: &Vec<String> = self.fuzzy_index.as_ref().unwrap();
        let found = filter_records(&self.user_input, ix_ref);
        let n = found.len();
        let mut fl = StatefulList::with_items(found);
        if n > 0 {
            fl.state.select(Some(0));
        }
        self.fuzzy_elements = Some(fl);
    }

    fn sync_cursor(&mut self)
        ensures
            final(self).json == old(self).json,
            final(self).navigation_stack == old(self).navigation_stack,
            final(self).elements == old(self).elements,
            final(self).fuzzy_index == old(self).fuzzy_index,
            final(self).fuzzy_elements == old(self).fuzzy_elements,
            final(self).user_input == old(self).user_input,
            final(self).current_route == old(self).current_route,
            final(self).input_cursor_position == cursor_for(final(self).user_input@.len()),
    {
        let n = self.user_input.len();
        if n >= 65535 {
            self.input_cursor_position = 65535;
        } else {
            self.input_cursor_position = n as u16;
        }
    }

    /// One key of either mode, handled as `key_transition` describes.
    /// Returns whether the session ends.
    pub fn handle_key(&mut self, key: Key) -> (quit: bool)
        requires
            old(self).wf(),
        ensures
            final(self).wf(),
            key_transition(*old(self), key, *final(self), quit),
    {
        match key {
            Key::Ctrl(c) => {
                if c == 'c' {
                    true
                } else {
                    if c == 'q' {
                        if self.current_route == Route::Search {
                            self.user_input = Vec::new();
                            self.input_cursor_position = 0;
                            self.current_route = Route::Main;
                        }
                    }
                    false
                }
            },
            Key::Char(ch) => {
                if self.current_route == Route::Search {
                    self.user_input.push(ch);
                    self.sync_cursor();
                    self.search_and_set_fuzzy_data();
                } else {
                    if ch == '/' {
                        self.set_current_route(Route::Search);
                        self.set_fuzzy_elements();
                    }
                }
                false
            },
            Key::Down => {
                if self.current_route == Route::Search {
                    match &mut self.fuzzy_elements {
                        Some(fl) => fl.next(),
                        None => {},
                    }
                } else {
                    match &mut self.elements {
                        Some(l) => l.next(),
                        None => {},
                    }
                }
                false
            },
            Key::Up => {
                if self.current_route == Route::Search {
                    match &mut self.fuzzy_elements {
                        Some(fl) => fl.previous(),
                        None => {},
                    }
                } else {
                    match &mut self.elements {
                        Some(l) => l.previous(),
                        None => {},
                    }
                }
                false
            },
            Key::Enter => {
                if self.current_route == Route::Main {
                    let ghost o = *self;
                    let l = self.elements.as_ref().unwrap();
                    let can = match l.selected() {
                        Some(e) => e.can_enter(),
                        None => false,
                    };
                    if can {
                        self.set_route();
                        proof {
                            let c = o.cur_view()->0;
                            let i = o.elements->0.state.selected_index->0 as int;
                            lemma_child_at_of_label(c, i);
                            lemma_resolve_push(o.doc(), o.path(), o.selected_element()->0.label());
                            assert(self.cur_view() is Some);
                        }
                        self.set_elements();
                    }
                }
                false
            },
            Key::Esc => {
                if self.current_route == Route::Main && self.navigation_stack.len() > 0 {
                    let ghost o = *self;
                    self.pop_route();
                    proof {
                        lemma_resolve_prefix(o.doc(), o.path());
                        assert(self.cur_view() is Some);
                    }
                    self.set_elements();
                }
                false
            },
            Key::Backspace => {
                if self.current_route == Route::Search {
                    let _dropped = self.user_input.pop();
                    self.sync_cursor();
                    self.search_and_set_fuzzy_data();
                }
                false
            },
            Key::Unknown => false,
        }
    }

    /// One step of the session loop: a tick changes nothing; an input key
    /// is handled exactly as `key_transition` describes.
    pub fn handle_event(&mut self, ev: Event) -> (quit: bool)
        requires
            old(self).wf(),
        ensures
            final(self).wf(),
            quit == (ev == Event::Input(Key::Ctrl('c'))),
            ev is Tick ==> same_state(*old(self), *final(self)),
            ev matches Event::Input(k) ==> key_transition(*old(self), k, *final(self), quit),
    {
        match ev {
            Event::Input(key) => self.handle_key(key),
            Event::Tick => false,
        }
    }
}

/// A session over a freshly parsed document: at the root, in Browse mode,
/// with the root's children materialized — ready for the event loop.
pub fn new_session(doc: JsonValue) -> (app: App)
    ensures
        app.wf(),
        app.json == Some(doc),
        app.navigation_stack@.len() == 0,
        app.user_input@.len() == 0,
        app.current_route == Route::Main,
        app.fuzzy_index is None,
{
    let mut app = App::init();
    app.set_json(Some(doc));
    proof {
        assert(str_views(app.navigation_stack@) =~= Seq::<Seq<char>>::empty());
    }
    app.set_elements();
    app
}

/// The breadcrumb text: segments joined with `.`; empty for the root.
pub open spec fn display_path(segs: Seq<Seq<char>>) -> Seq<char>
    decreases segs.len(),
{
    if segs.len() == 0 {
        Seq::empty()
    } else if segs.len() == 1 {
        segs[0]
    } else {
        display_path(segs.drop_last()) + "."@ + segs.last()
    }
}

} // verus!
