//! General properties of the store operations.

use vstd::prelude::*;

use crate::manager::entry::EntryView;
use crate::manager::fold::same_name;
use crate::manager::notes::{first_notes, note_in_range, note_remove_spec};
use crate::manager::{
    add_spec, edit_spec, first_named, has_entry, is_first_named, lemma_first_named, merged,
    named, remove_spec, selected,
};

verus! {

/// Once `a` has been added, adding `b` whose name equals `a`'s without regard
/// to case is refused; `add` then leaves the collection as it was.
pub proof fn lemma_add_refuses_same_name(s: Seq<EntryView>, a: EntryView, b: EntryView)
    requires
        add_spec(s, a) is Some,
        same_name(a.name, b.name),
    ensures
        add_spec(add_spec(s, a)->0, b) is None,
{
    let t = s.push(a);
    assert(named(t[s.len() as int], b.name));
}

/// A patch whose fields are all empty leaves every entry as it was.
pub proof fn lemma_edit_empty_patch(s: Seq<EntryView>, q: Seq<char>, p: EntryView)
    requires
        has_entry(s, q),
        p.name.len() == 0,
        p.username.len() == 0,
        p.password.len() == 0,
        p.location.len() == 0,
    ensures
        edit_spec(s, q, p) == Some(s),
{
    let t = edit_spec(s, q, p)->0;
    assert forall|i: int| 0 <= i < s.len() implies t[i] == s[i] by {
        if named(s[i], q) {
            assert(merged(s[i], p) =~= s[i]);
        }
    }
    assert(t =~= s);
}

/// A patch that gives only a location changes the location of the entries
/// that answer to `q`, and nothing else.
pub proof fn lemma_edit_location_only(s: Seq<EntryView>, q: Seq<char>, p: EntryView)
    requires
        has_entry(s, q),
        p.name.len() == 0,
        p.username.len() == 0,
        p.password.len() == 0,
        p.location.len() > 0,
    ensures
        edit_spec(s, q, p) matches Some(t) && t.len() == s.len() && forall|i: int|
            0 <= i < s.len() ==> #[trigger] t[i] == if named(s[i], q) {
                EntryView { location: p.location, ..s[i] }
            } else {
                s[i]
            },
{
    let t = edit_spec(s, q, p)->0;
    assert forall|i: int| 0 <= i < s.len() implies #[trigger] t[i] == if named(s[i], q) {
        EntryView { location: p.location, ..s[i] }
    } else {
        s[i]
    } by {
        if named(s[i], q) {
            assert(merged(s[i], p) =~= EntryView { location: p.location, ..s[i] });
        }
    }
}

/// After note `id` of an entry is deleted, listing that entry's notes gives
/// one note fewer: those before `id` keep their positions, and each later one
/// is found one position lower than before.
pub proof fn lemma_note_remove_shifts(s: Seq<EntryView>, q: Seq<char>, id: int)
    requires
        note_in_range(s, q, id),
    ensures
        ({
            let before = first_notes(s, q);
            let after = first_notes(note_remove_spec(s, q, id), q);
            &&& has_entry(note_remove_spec(s, q, id), q)
            &&& after.len() == before.len() - 1
            &&& forall|j: int| 0 <= j < id ==> #[trigger] after[j] == before[j]
            &&& forall|j: int| id <= j < after.len() ==> #[trigger] after[j] == before[j + 1]
        }),
{
    let i = choose|i: int| 0 <= i < s.len() && named(s[i], q);
    lemma_some_first(s, q, i);
    let k = first_named(s, q);
    assert(is_first_named(s, q, k));
    let t = note_remove_spec(s, q, id);
    assert(is_first_named(t, q, k)) by {
        assert forall|j: int| 0 <= j < k implies !named(#[trigger] t[j], q) by {
            assert(t[j] == s[j]);
        }
    }
    lemma_first_named(t, q, k);
}

/// Where some entry answers to `q`, a first one does.
proof fn lemma_some_first(s: Seq<EntryView>, q: Seq<char>, i: int)
    requires
        0 <= i < s.len(),
        named(s[i], q),
    ensures
        exists|k: int| is_first_named(s, q, k),
    decreases i,
{
    if exists|j: int| 0 <= j < i && named(s[j], q) {
        let j = choose|j: int| 0 <= j < i && named(s[j], q);
        lemma_some_first(s, q, j);
    } else {
        assert(is_first_named(s, q, i));
    }
}

/// No entry that `selected` keeps for not answering to `q` answers to it.
proof fn lemma_unselected_not_named(s: Seq<EntryView>, q: Seq<char>)
    ensures
        !has_entry(selected(s, q, false), q),
    decreases s.len(),
{
    if s.len() > 0 {
        lemma_unselected_not_named(s.drop_last(), q);
        let rest = selected(s.drop_last(), q, false);
        if !named(s.last(), q) {
            assert forall|i: int| 0 <= i < rest.len() + 1 implies !named(
                #[trigger] rest.push(s.last())[i],
                q,
            ) by {
                if i < rest.len() {
                    assert(rest.push(s.last())[i] == rest[i]);
                }
            }
        }
    }
}

/// Names are compared without regard to case: after `a` has been added, a
/// name `q` whose lowercase form equals that of `a`'s name finds it, and
/// removing `q` leaves no entry of `a`'s name.
pub proof fn lemma_names_ignore_case(s: Seq<EntryView>, a: EntryView, q: Seq<char>)
    requires
        add_spec(s, a) is Some,
        same_name(a.name, q),
    ensures
        has_entry(add_spec(s, a)->0, q),
        remove_spec(add_spec(s, a)->0, q) matches Some(t) && !has_entry(t, a.name),
{
    let t = s.push(a);
    assert(named(t[s.len() as int], q));
    lemma_unselected_not_named(t, q);
    let u = selected(t, q, false);
    assert forall|i: int| 0 <= i < u.len() implies !named(#[trigger] u[i], a.name) by {
        assert(!named(u[i], q));
    }
}

} // verus!
