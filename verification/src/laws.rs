//! The laws of the selector, stated and proved once and for all. The
//! preservation of the selection invariant itself is part of every mutating
//! operation's contract; the lemmas here state what the spec-level targets
//! those contracts use amount to.

use vstd::prelude::*;

use crate::selector::{
    down_target, lemma_pins_index_of_first, lemma_pins_index_of_last, match_pred, reset_target,
    spec_matches, spec_visible, up_target, Selector,
};
use crate::text::{contains_substr, lemma_contains_empty, lemma_contains_self, normalized};

verus! {

/// An empty filter accepts every name; as a substring, the empty sequence is
/// contained in every name.
pub proof fn lemma_empty_filter_matches(name: Seq<char>, ignore_case: bool)
    ensures
        spec_matches(name, Seq::<char>::empty(), ignore_case),
        contains_substr(name, Seq::<char>::empty()),
{
    lemma_contains_empty(name);
}

/// The filter predicate is substring containment over the case-normalized
/// name and filter, with the empty filter accepting everything.
pub proof fn lemma_matches_is_containment(name: Seq<char>, filter: Seq<char>, ignore_case: bool)
    ensures
        spec_matches(name, filter, ignore_case) <==> (filter.len() == 0 || contains_substr(
            normalized(name, ignore_case),
            normalized(filter, ignore_case),
        )),
{
}

/// A name that equals the filter after case normalization matches it:
/// equality is a special case of containment.
pub proof fn lemma_equal_name_matches(name: Seq<char>, filter: Seq<char>, ignore_case: bool)
    requires
        normalized(name, ignore_case) == normalized(filter, ignore_case),
    ensures
        spec_matches(name, filter, ignore_case),
{
    if filter.len() > 0 {
        lemma_contains_self(normalized(filter, ignore_case));
    }
}

/// One sequence of names occurs inside another, keeping its order.
pub open spec fn is_subsequence_of(a: Seq<Seq<char>>, b: Seq<Seq<char>>) -> bool
    decreases b.len(),
{
    if a.len() == 0 {
        true
    } else if b.len() == 0 {
        false
    } else if a.last() == b.last() {
        is_subsequence_of(a.drop_last(), b.drop_last())
    } else {
        is_subsequence_of(a, b.drop_last())
    }
}

/// A subsequence stays one when its last name is dropped.
proof fn lemma_subsequence_drop_left(a: Seq<Seq<char>>, b: Seq<Seq<char>>)
    requires
        is_subsequence_of(a, b),
        a.len() > 0,
    ensures
        is_subsequence_of(a.drop_last(), b),
    decreases b.len(),
{
    let adl = a.drop_last();
    let bdl = b.drop_last();
    if a.last() == b.last() {
        if adl.len() > 0 {
            if adl.last() == b.last() {
                lemma_subsequence_drop_left(adl, bdl);
            }
        }
    } else {
        lemma_subsequence_drop_left(a, bdl);
        if adl.len() > 0 {
            if adl.last() == b.last() {
                lemma_subsequence_drop_left(adl, bdl);
            }
        }
    }
}

/// A subsequence stays one when the other sequence grows at the end.
proof fn lemma_subsequence_push_right(a: Seq<Seq<char>>, b: Seq<Seq<char>>, x: Seq<char>)
    requires
        is_subsequence_of(a, b),
    ensures
        is_subsequence_of(a, b.push(x)),
{
    if a.len() > 0 {
        assert(b.push(x).drop_last() =~= b);
        if a.last() == x {
            lemma_subsequence_drop_left(a, b);
        }
    }
}

/// Order preservation: the visible list is a subsequence of the item list.
pub proof fn lemma_visible_is_subsequence(
    names: Seq<Seq<char>>,
    filter: Seq<char>,
    ignore_case: bool,
)
    ensures
        is_subsequence_of(spec_visible(names, filter, ignore_case), names),
    decreases names.len(),
{
    reveal(Seq::filter);
    if names.len() > 0 {
        let dl = names.drop_last();
        lemma_visible_is_subsequence(dl, filter, ignore_case);
        let vis = spec_visible(names, filter, ignore_case);
        let visdl = spec_visible(dl, filter, ignore_case);
        if match_pred(filter, ignore_case)(names.last()) {
            assert(vis == visdl.push(names.last()));
            assert(visdl.push(names.last()).drop_last() =~= visdl);
        } else {
            assert(vis == visdl);
            lemma_subsequence_push_right(visdl, dl, names.last());
            assert(dl.push(names.last()) =~= names);
        }
    }
}

/// The selection invariant, as every operation's contract maintains it: the
/// selected name is one of the visible names, and it is absent exactly when
/// nothing is visible.
pub proof fn lemma_selected_is_visible(s: Selector)
    requires
        s.wf(),
    ensures
        match s.sel() {
            Some(name) => s.visible_names().contains(name),
            None => s.visible_names().len() == 0,
        },
{
}

/// Wrap-around: moving down from the last visible name selects the first.
pub proof fn lemma_down_wraps(visible: Seq<Seq<char>>, name: Seq<char>)
    requires
        visible.len() > 0,
        visible.index_of_first(name) == Some(visible.len() - 1),
    ensures
        down_target(visible, Some(name)) == Some(visible[0]),
{
}

/// Wrap-around: moving up from the first visible name selects the last.
pub proof fn lemma_up_wraps(visible: Seq<Seq<char>>, name: Seq<char>)
    requires
        visible.len() > 0,
        visible.index_of_last(name) == Some(0int),
    ensures
        up_target(visible, Some(name)) == Some(visible.last()),
{
}

/// With exactly one visible name, moving in either direction re-selects it.
pub proof fn lemma_single_visible_is_fixed(visible: Seq<Seq<char>>, name: Seq<char>)
    requires
        visible.len() == 1,
        name == visible[0],
    ensures
        down_target(visible, Some(name)) == Some(name),
        up_target(visible, Some(name)) == Some(name),
{
    lemma_pins_index_of_first(visible, name, 0);
    lemma_pins_index_of_last(visible, name, 0);
    assert(visible.last() == visible[0]);
}

/// Reset on a filter change: the selection becomes the first visible name,
/// or absent when nothing is visible. The filter-editing operations promise
/// exactly `reset_target` of the new visible list.
pub proof fn lemma_reset_selects_first(visible: Seq<Seq<char>>)
    ensures
        visible.len() == 0 ==> reset_target(visible) is None,
        visible.len() > 0 ==> reset_target(visible) == Some(visible[0]),
{
}

} // verus!
