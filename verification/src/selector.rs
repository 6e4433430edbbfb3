//! The incremental-filter list selector: filtering, selection tracking, and
//! wrap-around navigation over the filtered view.

use vstd::prelude::*;

use crate::text::{contains_substr, lower_of, pop_char, push_char, str_contains, str_eq,
    to_lowercase};

verus! {

/// Whether `name` passes the filter `filter`. An empty filter accepts every
/// name; otherwise the filter must occur in the name as a substring, after
/// lowercasing both when `ignore_case` is set.
pub open spec fn spec_matches(name: Seq<char>, filter: Seq<char>, ignore_case: bool) -> bool {
    if filter.len() == 0 {
        true
    } else if ignore_case {
        contains_substr(lower_of(name), lower_of(filter))
    } else {
        contains_substr(name, filter)
    }
}

/// The filter predicate as a function value, so that every use names one and
/// the same predicate term.
pub open spec fn match_pred(filter: Seq<char>, ignore_case: bool) -> spec_fn(Seq<char>) -> bool {
    |name: Seq<char>| spec_matches(name, filter, ignore_case)
}

/// The names that pass the filter, in their original order.
pub open spec fn spec_visible(names: Seq<Seq<char>>, filter: Seq<char>, ignore_case: bool) -> Seq<
    Seq<char>,
> {
    names.filter(match_pred(filter, ignore_case))
}

/// Where the selection lands after a reset: the first visible name, or absent
/// when nothing is visible.
pub open spec fn reset_target(visible: Seq<Seq<char>>) -> Option<Seq<char>> {
    if visible.len() == 0 {
        None
    } else {
        Some(visible[0])
    }
}

/// Where the selection lands after one step down through `visible`: the name
/// after the first occurrence of the current selection, wrapping to the first
/// name from the end, from an unknown selection, or from no selection at all.
/// An empty visible list leaves the selection alone.
pub open spec fn down_target(visible: Seq<Seq<char>>, selected: Option<Seq<char>>) -> Option<
    Seq<char>,
> {
    if visible.len() == 0 {
        selected
    } else {
        match selected {
            None => Some(visible[0]),
            Some(name) => match visible.index_of_first(name) {
                Some(i) => if i + 1 < visible.len() {
                    Some(visible[i + 1])
                } else {
                    Some(visible[0])
                },
                None => Some(visible[0]),
            },
        }
    }
}

/// Where the selection lands after one step up through `visible`: the name
/// before the last occurrence of the current selection, wrapping to the last
/// name from the beginning, from an unknown selection, or from no selection
/// at all. An empty visible list leaves the selection alone.
pub open spec fn up_target(visible: Seq<Seq<char>>, selected: Option<Seq<char>>) -> Option<
    Seq<char>,
> {
    if visible.len() == 0 {
        selected
    } else {
        match selected {
            None => Some(visible.last()),
            Some(name) => match visible.index_of_last(name) {
                Some(i) => if i > 0 {
                    Some(visible[i - 1])
                } else {
                    Some(visible.last())
                },
                None => Some(visible.last()),
            },
        }
    }
}

/// The selector: an ordered list of item names, a substring filter, and the
/// name of the currently selected item, which always passes the filter.
pub struct Selector {
    pub items: Vec<String>,
    pub filter: String,
    pub ignore_case: bool,
    pub selected: Option<String>,
}

impl Selector {
    /// The item names, as character sequences.
    pub open spec fn names(self) -> Seq<Seq<char>> {
        self.items.deep_view()
    }

    /// The selected name, if any.
    pub open spec fn sel(self) -> Option<Seq<char>> {
        self.selected.deep_view()
    }

    /// The names currently passing the filter, in item order.
    pub open spec fn visible_names(self) -> Seq<Seq<char>> {
        spec_visible(self.names(), self.filter@, self.ignore_case)
    }

    /// The selection invariant: the selected name is one of the visible
    /// names, and it is absent exactly when nothing is visible.
    pub open spec fn wf(self) -> bool {
        match self.sel() {
            None => self.visible_names().len() == 0,
            Some(name) => self.visible_names().contains(name),
        }
    }

    /// A fresh selector: no items, an empty filter, nothing selected.
    pub fn new(ignore_case: bool) -> (s: Selector)
        ensures
            s.names().len() == 0,
            s.filter@.len() == 0,
            s.ignore_case == ignore_case,
            s.sel() is None,
            s.wf(),
    {
        let s = Selector { items: Vec::new(), filter: String::new(), ignore_case, selected: None };
        proof {
            reveal(Seq::filter);
            assert(s.names() =~= Seq::<Seq<char>>::empty());
        }
        s
    }

    /// The items that pass the current filter, in their original order.
    pub fn visible(&self) -> (v: Vec<String>)
        ensures
            v.deep_view() == self.visible_names(),
    {
        let mut v: Vec<String> = Vec::new();
        proof {
            reveal(Seq::filter);
            assert(self.names().take(0) =~= Seq::<Seq<char>>::empty());
            assert(v.deep_view() =~= spec_visible(
                self.names().take(0),
                self.filter@,
                self.ignore_case,
            ));
        }
        let n = self.items.len();
        let mut i: usize = 0;
        while i < n
            invariant
                n == self.items.len(),
                i <= n,
                v.deep_view() == spec_visible(
                    self.names().take(i as int),
                    self.filter@,
                    self.ignore_case,
                ),
            decreases n - i,
        {
            let name = &self.items[i];
            let ghost prev = v.deep_view();
            proof {
                assert(self.names().take(i + 1) =~= self.names().take(i as int).push(
                    self.names()[i as int],
                ));
                lemma_visible_push(
                    self.names().take(i as int),
                    self.filter@,
                    self.ignore_case,
                    self.names()[i as int],
                );
            }
            if name_matches(name.as_str(), self.filter.as_str(), self.ignore_case) {
                v.push(name.clone());
                proof {
                    assert(v.deep_view() =~= prev.push(self.names()[i as int]));
                }
            }
            i += 1;
        }
        proof {
            assert(self.names().take(n as int) =~= self.names());
        }
        v
    }

    /// Discard the selection and point it at the first visible item, or at
    /// nothing when the filter hides everything.
    pub fn reset_selection(&mut self)
        ensures
            final(self).items == old(self).items,
            final(self).filter == old(self).filter,
            final(self).ignore_case == old(self).ignore_case,
            final(self).sel() == reset_target(old(self).visible_names()),
            final(self).wf(),
    {
        let v = self.visible();
        if v.len() == 0 {
            self.selected = None;
        } else {
            self.selected = Some(v[0].clone());
            proof {
                let vis = old(self).visible_names();
                assert(vis.contains(vis[0]));
            }
        }
    }

    /// Append one character to the filter; the selection resets to the first
    /// name still visible.
    pub fn append_char(&mut self, c: char)
        ensures
            final(self).items == old(self).items,
            final(self).ignore_case == old(self).ignore_case,
            final(self).filter@ == old(self).filter@.push(c),
            final(self).sel() == reset_target(final(self).visible_names()),
            final(self).wf(),
    {
        push_char(&mut self.filter, c);
        self.reset_selection();
    }

    /// Drop the last character of the filter (a no-op on an empty filter);
    /// the selection resets to the first name then visible.
    pub fn delete_char(&mut self)
        ensures
            final(self).items == old(self).items,
            final(self).ignore_case == old(self).ignore_case,
            old(self).filter@.len() == 0 ==> final(self).filter@ == old(self).filter@,
            old(self).filter@.len() > 0 ==> final(self).filter@ == old(self).filter@.drop_last(),
            final(self).sel() == reset_target(final(self).visible_names()),
            final(self).wf(),
    {
        let _ = pop_char(&mut self.filter);
        self.reset_selection();
    }

    /// Replace the whole item list. A selection that is still visible under
    /// the new list is kept; otherwise the selection resets.
    pub fn set_items(&mut self, items: Vec<String>)
        ensures
            final(self).names() == items.deep_view(),
            final(self).filter == old(self).filter,
            final(self).ignore_case == old(self).ignore_case,
            final(self).wf(),
            ({
                let vis = spec_visible(items.deep_view(), old(self).filter@, old(self).ignore_case);
                match old(self).sel() {
                    Some(name) => final(self).sel() == (if vis.contains(name) {
                        old(self).sel()
                    } else {
                        reset_target(vis)
                    }),
                    None => final(self).sel() == reset_target(vis),
                }
            }),
    {
        self.items = items;
        let keep: bool = match &self.selected {
            None => false,
            Some(name) => {
                let ok = name_matches(name.as_str(), self.filter.as_str(), self.ignore_case)
                    && contains_name(&self.items, name);
                proof {
                    lemma_visible_contains(self.names(), self.filter@, self.ignore_case, name@);
                }
                ok
            },
        };
        if !keep {
            self.reset_selection();
        }
    }

    /// Move the selection one step down the visible list, wrapping to the
    /// top. With nothing visible this is a no-op.
    pub fn select_down(&mut self)
        requires
            old(self).wf(),
        ensures
            final(self).items == old(self).items,
            final(self).filter == old(self).filter,
            final(self).ignore_case == old(self).ignore_case,
            final(self).sel() == down_target(old(self).visible_names(), old(self).sel()),
            final(self).wf(),
    {
        let v = self.visible();
        if v.len() == 0 {
            return;
        }
        let ghost vis = old(self).visible_names();
        let target: String = match &self.selected {
            None => v[0].clone(),
            Some(name) => {
                match index_of_first_name(&v, name) {
                    Some(i) => {
                        proof {
                            lemma_pins_index_of_first(v.deep_view(), name@, i as int);
                        }
                        if i + 1 < v.len() {
                            v[i + 1].clone()
                        } else {
                            v[0].clone()
                        }
                    },
                    None => {
                        proof {
                            lemma_pins_no_index_of_first(v.deep_view(), name@);
                        }
                        v[0].clone()
                    },
                }
            },
        };
        proof {
            assert(exists|k: int| 0 <= k < vis.len() && vis[k] == target@);
        }
        self.selected = Some(target);
    }

    /// Move the selection one step up the visible list, wrapping to the
    /// bottom. With nothing visible this is a no-op.
    pub fn select_up(&mut self)
        requires
            old(self).wf(),
        ensures
            final(self).items == old(self).items,
            final(self).filter == old(self).filter,
            final(self).ignore_case == old(self).ignore_case,
            final(self).sel() == up_target(old(self).visible_names(), old(self).sel()),
            final(self).wf(),
    {
        let v = self.visible();
        if v.len() == 0 {
            return;
        }
        let ghost vis = old(self).visible_names();
        let target: String = match &self.selected {
            None => v[v.len() - 1].clone(),
            Some(name) => {
                match index_of_last_name(&v, name) {
                    Some(i) => {
                        proof {
                            lemma_pins_index_of_last(v.deep_view(), name@, i as int);
                        }
                        if i > 0 {
                            v[i - 1].clone()
                        } else {
                            v[v.len() - 1].clone()
                        }
                    },
                    None => {
                        proof {
                            lemma_pins_no_index_of_last(v.deep_view(), name@);
                        }
                        v[v.len() - 1].clone()
                    },
                }
            },
        };
        proof {
            assert(exists|k: int| 0 <= k < vis.len() && vis[k] == target@);
        }
        self.selected = Some(target);
    }

    /// The index of the item to act on when the selection is committed: the
    /// first item whose name equals the selected name, or nothing when no
    /// item is selected.
    pub fn commit(&self) -> (r: Option<usize>)
        requires
            self.wf(),
        ensures
            match (self.sel(), r) {
                (None, None) => true,
                (Some(name), Some(i)) => i < self.names().len() && self.names()[i as int] == name
                    && (forall|j: int| 0 <= j < i ==> self.names()[j] != name),
                _ => false,
            },
    {
        match &self.selected {
            None => None,
            Some(name) => {
                proof {
                    lemma_visible_contains(self.names(), self.filter@, self.ignore_case, name@);
                }
                let r = index_of_first_name(&self.items, name);
                proof {
                    assert(r is Some) by {
                        if r is None {
                            assert(!self.names().contains(name@));
                        }
                    }
                }
                r
            },
        }
    }

    /// One row per visible item: its name, and whether it is the selected
    /// one.
    pub fn rows(&self) -> (r: Vec<(String, bool)>)
        ensures
            r@.len() == self.visible_names().len(),
            forall|i: int|
                0 <= i < r@.len() ==> (#[trigger] r@[i]).0@ == self.visible_names()[i],
            forall|i: int|
                0 <= i < r@.len() ==> (#[trigger] r@[i]).1 == (self.sel() == Some(
                    self.visible_names()[i],
                )),
    {
        let v = self.visible();
        let mut r: Vec<(String, bool)> = Vec::new();
        let mut i: usize = 0;
        while i < v.len()
            invariant
                i <= v.len(),
                r@.len() == i,
                v.deep_view() == self.visible_names(),
                forall|j: int|
                    0 <= j < i ==> (#[trigger] r@[j]).0@ == self.visible_names()[j],
                forall|j: int|
                    0 <= j < i ==> (#[trigger] r@[j]).1 == (self.sel() == Some(
                        self.visible_names()[j],
                    )),
            decreases v.len() - i,
        {
            let here_selected: bool = match &self.selected {
                None => false,
                Some(name) => str_eq(v[i].as_str(), name.as_str()),
            };
            r.push((v[i].clone(), here_selected));
            i += 1;
        }
        r
    }
}

/// Whether `name` passes the filter, executed as the contract states it.
pub fn name_matches(name: &str, filter: &str, ignore_case: bool) -> (r: bool)
    ensures
        r == spec_matches(name@, filter@, ignore_case),
{
    if filter.is_empty() {
        true
    } else if ignore_case {
        let lowered_name = to_lowercase(name);
        let lowered_filter = to_lowercase(filter);
        str_contains(lowered_name.as_str(), lowered_filter.as_str())
    } else {
        str_contains(name, filter)
    }
}

/// Whether some item in `items` carries the name `name`.
fn contains_name(items: &Vec<String>, name: &String) -> (r: bool)
    ensures
        r == items.deep_view().contains(name@),
{
    let mut i: usize = 0;
    while i < items.len()
        invariant
            i <= items.len(),
            forall|j: int| 0 <= j < i ==> items.deep_view()[j] != name@,
        decreases items.len() - i,
    {
        if str_eq(items[i].as_str(), name.as_str()) {
            proof {
                assert(items.deep_view()[i as int] == name@);
            }
            return true;
        }
        i += 1;
    }
    proof {
        assert(!items.deep_view().contains(name@));
    }
    false
}

/// The position of the first item named `name`, with nothing named so
/// earlier; or nothing, when no item carries the name.
fn index_of_first_name(items: &Vec<String>, name: &String) -> (r: Option<usize>)
    ensures
        match r {
            Some(i) => i < items@.len() && items.deep_view()[i as int] == name@ && (forall|j: int|
                0 <= j < i ==> items.deep_view()[j] != name@),
            None => forall|j: int| 0 <= j < items@.len() ==> items.deep_view()[j] != name@,
        },
{
    let mut i: usize = 0;
    while i < items.len()
        invariant
            i <= items.len(),
            forall|j: int| 0 <= j < i ==> items.deep_view()[j] != name@,
        decreases items.len() - i,
    {
        if str_eq(items[i].as_str(), name.as_str()) {
            return Some(i);
        }
        i += 1;
    }
    None
}

/// The position of the last item named `name`, with nothing named so later;
/// or nothing, when no item carries the name.
fn index_of_last_name(items: &Vec<String>, name: &String) -> (r: Option<usize>)
    ensures
        match r {
            Some(i) => i < items@.len() && items.deep_view()[i as int] == name@ && (forall|j: int|
                i < j < items@.len() ==> items.deep_view()[j] != name@),
            None => forall|j: int| 0 <= j < items@.len() ==> items.deep_view()[j] != name@,
        },
{
    let mut i: usize = items.len();
    while i > 0
        invariant
            i <= items.len(),
            forall|j: int| i <= j < items@.len() ==> items.deep_view()[j] != name@,
        decreases i,
    {
        i = i - 1;
        if str_eq(items[i].as_str(), name.as_str()) {
            return Some(i);
        }
    }
    None
}

/// Filtering one more name appends it to the visible list exactly when it
/// passes the filter.
pub proof fn lemma_visible_push(names: Seq<Seq<char>>, filter: Seq<char>, ignore_case: bool, x: Seq<char>)
    ensures
        spec_visible(names.push(x), filter, ignore_case) == (if spec_matches(x, filter, ignore_case) {
            spec_visible(names, filter, ignore_case).push(x)
        } else {
            spec_visible(names, filter, ignore_case)
        }),
{
    reveal(Seq::filter);
    assert(names.push(x).drop_last() =~= names);
    assert(names.push(x).last() == x);
}

/// Every visible name is the name of some item.
proof fn lemma_visible_in_names(names: Seq<Seq<char>>, filter: Seq<char>, ignore_case: bool, j: int)
    requires
        0 <= j < spec_visible(names, filter, ignore_case).len(),
    ensures
        names.contains(spec_visible(names, filter, ignore_case)[j]),
    decreases names.len(),
{
    reveal(Seq::filter);
    let vis = spec_visible(names, filter, ignore_case);
    if names.len() == 0 {
    } else {
        let dl = names.drop_last();
        let visdl = spec_visible(dl, filter, ignore_case);
        if match_pred(filter, ignore_case)(names.last()) {
            assert(vis == visdl.push(names.last()));
            if j < visdl.len() {
                lemma_visible_in_names(dl, filter, ignore_case, j);
                let k = choose|k: int| 0 <= k < dl.len() && dl[k] == visdl[j];
                assert(names[k] == visdl[j]);
                assert(names.contains(vis[j]));
            } else {
                assert(vis[j] == names.last());
                assert(names[names.len() - 1] == vis[j]);
                assert(names.contains(vis[j]));
            }
        } else {
            assert(vis == visdl);
            lemma_visible_in_names(dl, filter, ignore_case, j);
            let k = choose|k: int| 0 <= k < dl.len() && dl[k] == visdl[j];
            assert(names[k] == vis[j]);
            assert(names.contains(vis[j]));
        }
    }
}

/// A name is visible exactly when some item carries it and it passes the
/// filter.
pub proof fn lemma_visible_contains(
    names: Seq<Seq<char>>,
    filter: Seq<char>,
    ignore_case: bool,
    name: Seq<char>,
)
    ensures
        spec_visible(names, filter, ignore_case).contains(name) <==> (names.contains(name)
            && spec_matches(name, filter, ignore_case)),
{
    let p = match_pred(filter, ignore_case);
    let vis = spec_visible(names, filter, ignore_case);
    if vis.contains(name) {
        let j = choose|j: int| 0 <= j < vis.len() && vis[j] == name;
        names.lemma_filter_pred(p, j);
        lemma_visible_in_names(names, filter, ignore_case, j);
    }
    if names.contains(name) && spec_matches(name, filter, ignore_case) {
        let i = choose|i: int| 0 <= i < names.len() && names[i] == name;
        names.lemma_filter_contains(p, i);
    }
}

/// An item that is named `name`, with nothing named so earlier, is where the
/// first occurrence of `name` lies.
pub proof fn lemma_pins_index_of_first(names: Seq<Seq<char>>, name: Seq<char>, i: int)
    requires
        0 <= i < names.len(),
        names[i] == name,
        forall|j: int| 0 <= j < i ==> names[j] != name,
    ensures
        names.index_of_first(name) == Some(i),
{
    names.index_of_first_ensures(name);
    assert(names.contains(name));
    let k = names.index_of_first(name)->Some_0;
    if k < i {
        assert(names[k] != name);
    }
    if k > i {
        assert(names[i] != name);
    }
}

/// When no item is named `name`, `name` has no first occurrence.
pub proof fn lemma_pins_no_index_of_first(names: Seq<Seq<char>>, name: Seq<char>)
    requires
        forall|j: int| 0 <= j < names.len() ==> names[j] != name,
    ensures
        names.index_of_first(name) is None,
{
    names.index_of_first_ensures(name);
    if names.index_of_first(name) is Some {
        let k = names.index_of_first(name)->Some_0;
        assert(names[k] != name);
    }
}

/// An item that is named `name`, with nothing named so later, is where the
/// last occurrence of `name` lies.
pub proof fn lemma_pins_index_of_last(names: Seq<Seq<char>>, name: Seq<char>, i: int)
    requires
        0 <= i < names.len(),
        names[i] == name,
        forall|j: int| i < j < names.len() ==> names[j] != name,
    ensures
        names.index_of_last(name) == Some(i),
{
    names.index_of_last_ensures(name);
    assert(names.contains(name));
    let k = names.index_of_last(name)->Some_0;
    if k < i {
        assert(names[i] != name);
    }
    if k > i {
        assert(names[k] != name);
    }
}

/// When no item is named `name`, `name` has no last occurrence.
pub proof fn lemma_pins_no_index_of_last(names: Seq<Seq<char>>, name: Seq<char>)
    requires
        forall|j: int| 0 <= j < names.len() ==> names[j] != name,
    ensures
        names.index_of_last(name) is None,
{
    names.index_of_last_ensures(name);
    if names.index_of_last(name) is Some {
        let k = names.index_of_last(name)->Some_0;
        assert(names[k] != name);
    }
}

} // verus!
