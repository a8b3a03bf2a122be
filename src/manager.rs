//! The entry store: a collection of entries and the operations that read
//! and change it, each stated over the collection's contents.

pub mod entry;
pub mod errors;
pub mod fold;
pub mod laws;
pub mod notes;

use vstd::prelude::*;

use crate::manager::entry::{notes_view, Entry, EntryView};
use crate::manager::errors::{not_found, ManagerError};
use crate::manager::fold::{lower_of, lowercase, same_name};

verus! {

/// What decoding the stored text gave.
pub enum Decoded {
    /// A complete list of entries.
    Entries(Vec<Entry>),
    /// The text ended before a complete value, as an empty or cut-off file does.
    EndOfInput,
    /// Anything else that is not a list of entries.
    Invalid,
}

/// The contents of a stored collection, entry by entry.
pub open spec fn store_view(s: Seq<Entry>) -> Seq<EntryView> {
    s.map_values(|e: Entry| e@)
}

/// Whether entry `e` answers to the name `q`.
pub open spec fn named(e: EntryView, q: Seq<char>) -> bool {
    same_name(e.name, q)
}

/// Whether some entry of `s` answers to `q`.
pub open spec fn has_entry(s: Seq<EntryView>, q: Seq<char>) -> bool {
    exists|i: int| 0 <= i < s.len() && named(s[i], q)
}

/// Whether `k` is the position of the first entry of `s` that answers to `q`.
pub open spec fn is_first_named(s: Seq<EntryView>, q: Seq<char>, k: int) -> bool {
    &&& 0 <= k < s.len()
    &&& named(s[k], q)
    &&& forall|j: int| 0 <= j < k ==> !named(#[trigger] s[j], q)
}

/// The position of the first entry of `s` that answers to `q`.
pub open spec fn first_named(s: Seq<EntryView>, q: Seq<char>) -> int {
    choose|k: int| is_first_named(s, q, k)
}

/// The entries of `s`, in order, that answer to `q` (when `wanted`) or that
/// do not (otherwise).
pub open spec fn selected(s: Seq<EntryView>, q: Seq<char>, wanted: bool) -> Seq<EntryView>
    decreases s.len(),
{
    if s.len() == 0 {
        s
    } else {
        let rest = selected(s.drop_last(), q, wanted);
        if named(s.last(), q) == wanted {
            rest.push(s.last())
        } else {
            rest
        }
    }
}

/// The collection after adding `e`; `None` when its name is taken.
pub open spec fn add_spec(s: Seq<EntryView>, e: EntryView) -> Option<Seq<EntryView>> {
    if has_entry(s, e.name) {
        None
    } else {
        Some(s.push(e))
    }
}

/// The collection after removing the entries that answer to `q`; `None` when
/// there are none.
pub open spec fn remove_spec(s: Seq<EntryView>, q: Seq<char>) -> Option<Seq<EntryView>> {
    if has_entry(s, q) {
        Some(selected(s, q, false))
    } else {
        None
    }
}

/// The entries that answer to `q`; `None` when there are none.
pub open spec fn show_spec(s: Seq<EntryView>, q: Seq<char>) -> Option<Seq<EntryView>> {
    if has_entry(s, q) {
        Some(selected(s, q, true))
    } else {
        None
    }
}

/// The name and location of each entry, in stored order.
pub open spec fn listing(s: Seq<EntryView>) -> Seq<(Seq<char>, Seq<char>)> {
    s.map_values(|e: EntryView| (e.name, e.location))
}

/// A patch field: an empty value leaves the current one in place.
pub open spec fn patched<A>(current: Seq<A>, patch: Seq<A>) -> Seq<A> {
    if patch.len() == 0 {
        current
    } else {
        patch
    }
}

/// Entry `e` with the non-empty fields of `p` put in; its notes stay.
pub open spec fn merged(e: EntryView, p: EntryView) -> EntryView {
    EntryView {
        name: patched(e.name, p.name),
        username: patched(e.username, p.username),
        password: patched(e.password, p.password),
        location: patched(e.location, p.location),
        notes: e.notes,
    }
}

/// The collection after patching, in place, each entry that answers to `q`;
/// `None` when there is none.
pub open spec fn edit_spec(s: Seq<EntryView>, q: Seq<char>, p: EntryView) -> Option<
    Seq<EntryView>,
> {
    if has_entry(s, q) {
        Some(Seq::new(s.len(), |i: int| if named(s[i], q) { merged(s[i], p) } else { s[i] }))
    } else {
        None
    }
}

/// There is one first entry of a name.
pub proof fn lemma_first_named(s: Seq<EntryView>, q: Seq<char>, k: int)
    requires
        is_first_named(s, q, k),
    ensures
        first_named(s, q) == k,
{
    let c = first_named(s, q);
    assert(is_first_named(s, q, c));
    if c < k {
        assert(!named(s[c], q));
    } else if c > k {
        assert(!named(s[k], q));
    }
}

proof fn lemma_store_view_push(s: Seq<Entry>, e: Entry)
    ensures
        store_view(s.push(e)) == store_view(s).push(e@),
{
    assert(store_view(s.push(e)) =~= store_view(s).push(e@));
}

/// The position of the first entry that answers to `name`.
pub(crate) fn position(entries: &Vec<Entry>, name: &str) -> (r: Option<usize>)
    ensures
        match r {
            Some(k) => is_first_named(store_view(entries@), name@, k as int),
            None => !has_entry(store_view(entries@), name@),
        },
{
    let wanted = lowercase(name);
    let mut i: usize = 0;
    while i < entries.len()
        invariant
            i <= entries@.len(),
            wanted@ == lower_of(name@),
            forall|j: int| 0 <= j < i ==> !named(#[trigger] store_view(entries@)[j], name@),
        decreases entries@.len() - i,
    {
        if lowercase(entries[i].name.as_str()) == wanted {
            return Some(i);
        }
        i += 1;
    }
    None
}

/// The collection that decoding the stored text gave: an empty one where the
/// text ended before a complete value, and `Corrupt` where it is not a list
/// of entries.
pub fn get_entries(decoded: Decoded) -> (r: Result<Vec<Entry>, ManagerError>)
    ensures
        match decoded {
            Decoded::Entries(list) => r == Ok::<Vec<Entry>, ManagerError>(list),
            Decoded::EndOfInput => r matches Ok(list) && list@.len() == 0,
            Decoded::Invalid => r == Err::<Vec<Entry>, ManagerError>(ManagerError::Corrupt),
        },
{
    match decoded {
        Decoded::Entries(list) => Ok(list),
        Decoded::EndOfInput => Ok(Vec::new()),
        Decoded::Invalid => Err(ManagerError::Corrupt),
    }
}

/// Whether some entry answers to `search_name`, compared without regard to case.
pub fn entry_exists(entries: &Vec<Entry>, search_name: &str) -> (r: bool)
    ensures
        r == has_entry(store_view(entries@), search_name@),
{
    position(entries, search_name).is_some()
}

/// Appends `new`, unless an entry of the same name (compared without regard
/// to case) is already stored.
pub fn add(entries: &mut Vec<Entry>, new: Entry) -> (r: Result<(), ManagerError>)
    ensures
        match add_spec(store_view(old(entries)@), new@) {
            Some(t) => r is Ok && store_view(final(entries)@) == t,
            None => {
                &&& final(entries)@ == old(entries)@
                &&& r == Err::<(), ManagerError>(ManagerError::EntryExists { name: new.name })
            },
        },
{
    if position(entries, new.name.as_str()).is_some() {
        return Err(ManagerError::EntryExists { name: new.name });
    }
    proof {
        lemma_store_view_push(entries@, new);
    }
    entries.push(new);
    Ok(())
}

proof fn lemma_selected_step(s: Seq<EntryView>, q: Seq<char>, wanted: bool, i: int)
    requires
        0 <= i < s.len(),
    ensures
        selected(s.take(i + 1), q, wanted) == if named(s[i], q) == wanted {
            selected(s.take(i), q, wanted).push(s[i])
        } else {
            selected(s.take(i), q, wanted)
        },
{
    assert(s.take(i + 1).drop_last() =~= s.take(i));
}

/// Copies of the entries that answer to `name` (when `wanted`) or that do not
/// (otherwise), in stored order.
fn select(entries: &Vec<Entry>, name: &str, wanted: bool) -> (r: Vec<Entry>)
    ensures
        store_view(r@) == selected(store_view(entries@), name@, wanted),
{
    let folded = lowercase(name);
    let ghost s = store_view(entries@);
    let mut kept: Vec<Entry> = Vec::new();
    let mut i: usize = 0;
    while i < entries.len()
        invariant
            i <= entries@.len(),
            s == store_view(entries@),
            folded@ == lower_of(name@),
            store_view(kept@) == selected(s.take(i as int), name@, wanted),
        decreases entries@.len() - i,
    {
        proof {
            lemma_selected_step(s, name@, wanted, i as int);
        }
        let is_match = lowercase(entries[i].name.as_str()) == folded;
        if is_match == wanted {
            let copy = entries[i].duplicate();
            proof {
                lemma_store_view_push(kept@, copy);
            }
            kept.push(copy);
        }
        i += 1;
    }
    assert(s.take(s.len() as int) =~= s);
    kept
}

/// Deletes every entry that answers to `name`, compared without regard to case.
pub fn remove(entries: &mut Vec<Entry>, name: &str) -> (r: Result<(), ManagerError>)
    ensures
        match remove_spec(store_view(old(entries)@), name@) {
            Some(t) => r is Ok && store_view(final(entries)@) == t,
            None => {
                &&& final(entries)@ == old(entries)@
                &&& not_found(r, name@)
            },
        },
{
    if position(entries, name).is_none() {
        return Err(ManagerError::EntryDoesntExist { name: name.to_owned() });
    }
    *entries = select(entries, name, false);
    Ok(())
}

/// Copies of the entries that answer to `name`, compared without regard to case.
pub fn show(entries: &Vec<Entry>, name: &str) -> (r: Result<Vec<Entry>, ManagerError>)
    ensures
        match show_spec(store_view(entries@), name@) {
            Some(t) => r matches Ok(found) && store_view(found@) == t,
            None => not_found(r, name@),
        },
{
    if position(entries, name).is_none() {
        return Err(ManagerError::EntryDoesntExist { name: name.to_owned() });
    }
    Ok(select(entries, name, true))
}

/// The name and location of every entry, in stored order.
pub fn list(entries: &Vec<Entry>) -> (r: Vec<(String, String)>)
    ensures
        r@.map_values(|p: (String, String)| (p.0@, p.1@)) == listing(store_view(entries@)),
{
    let mut out: Vec<(String, String)> = Vec::new();
    let mut i: usize = 0;
    while i < entries.len()
        invariant
            i <= entries@.len(),
            out@.len() == i,
            forall|j: int|
                0 <= j < i ==> (#[trigger] out@[j]).0@ == entries@[j].name@ && out@[j].1@
                    == entries@[j].location@,
        decreases entries@.len() - i,
    {
        out.push((entries[i].name.clone(), entries[i].location.clone()));
        i += 1;
    }
    assert(out@.map_values(|p: (String, String)| (p.0@, p.1@)) =~= listing(store_view(entries@)));
    out
}

/// The result of patching `e` with the non-empty fields of `patch`.
fn merge(e: &Entry, patch: &Entry) -> (r: Entry)
    ensures
        r@ == merged(e@, patch@),
{
    let name = if patch.name.as_str().is_empty() { e.name.clone() } else { patch.name.clone() };
    let username = if patch.username.as_str().is_empty() {
        e.username.clone()
    } else {
        patch.username.clone()
    };
    let password = if patch.password.is_empty() {
        e.password.clone()
    } else {
        patch.password.clone()
    };
    let location = if patch.location.as_str().is_empty() {
        e.location.clone()
    } else {
        patch.location.clone()
    };
    let notes = e.notes.clone();
    assert(password@ =~= patched(e.password@, patch.password@));
    assert(notes_view(notes@) =~= notes_view(e.notes@));
    Entry { name, username, password, location, notes }
}

/// Patches, in place, every entry that answers to `name`: each non-empty
/// field of `new` replaces the entry's own, an empty one leaves it, and the
/// notes are kept.
pub fn edit(entries: &mut Vec<Entry>, name: &str, new: Entry) -> (r: Result<(), ManagerError>)
    ensures
        match edit_spec(store_view(old(entries)@), name@, new@) {
            Some(t) => r is Ok && store_view(final(entries)@) == t,
            None => {
                &&& final(entries)@ == old(entries)@
                &&& not_found(r, name@)
            },
        },
{
    if position(entries, name).is_none() {
        return Err(ManagerError::EntryDoesntExist { name: name.to_owned() });
    }
    let folded = lowercase(name);
    let ghost s = store_view(entries@);
    let mut out: Vec<Entry> = Vec::new();
    let mut i: usize = 0;
    while i < entries.len()
        invariant
            i <= entries@.len(),
            s == store_view(entries@),
            folded@ == lower_of(name@),
            out@.len() == i,
            forall|j: int|
                0 <= j < i ==> (#[trigger] out@[j])@ == if named(s[j], name@) {
                    merged(s[j], new@)
                } else {
                    s[j]
                },
        decreases entries@.len() - i,
    {
        let changed = if lowercase(entries[i].name.as_str()) == folded {
            merge(&entries[i], &new)
        } else {
            entries[i].duplicate()
        };
        out.push(changed);
        i += 1;
    }
    assert(store_view(out@) =~= Seq::new(
        s.len(),
        |j: int| if named(s[j], name@) { merged(s[j], new@) } else { s[j] },
    ));
    *entries = out;
    Ok(())
}

} // verus!
