//! Notes within one entry, addressed by their position.

use vstd::prelude::*;

use crate::manager::entry::{notes_view, Entry, EntryView};
use crate::manager::errors::{not_found, ManagerError};
use crate::manager::fold::{lower_of, lowercase};
use crate::manager::{first_named, has_entry, lemma_first_named, named, position, store_view};

verus! {

/// Entry `e` with its notes replaced by `notes`.
pub open spec fn with_notes(e: EntryView, notes: Seq<Seq<char>>) -> EntryView {
    EntryView {
        name: e.name,
        username: e.username,
        password: e.password,
        location: e.location,
        notes,
    }
}

/// The notes of the first entry of `s` that answers to `q`.
pub open spec fn first_notes(s: Seq<EntryView>, q: Seq<char>) -> Seq<Seq<char>> {
    s[first_named(s, q)].notes
}

/// The collection after appending `note` to each entry that answers to `q`;
/// `None` when there is none.
pub open spec fn note_add_spec(s: Seq<EntryView>, q: Seq<char>, note: Seq<char>) -> Option<
    Seq<EntryView>,
> {
    if has_entry(s, q) {
        Some(
            Seq::new(
                s.len(),
                |i: int| if named(s[i], q) { with_notes(s[i], s[i].notes.push(note)) } else { s[i] },
            ),
        )
    } else {
        None
    }
}

/// Whether position `id` addresses a note of the first entry that answers to `q`.
pub open spec fn note_in_range(s: Seq<EntryView>, q: Seq<char>, id: int) -> bool {
    has_entry(s, q) && 0 <= id < first_notes(s, q).len()
}

/// The collection after deleting note `id` of the first entry that answers to `q`.
pub open spec fn note_remove_spec(s: Seq<EntryView>, q: Seq<char>, id: int) -> Seq<EntryView> {
    let k = first_named(s, q);
    s.update(k, with_notes(s[k], s[k].notes.remove(id)))
}

/// The collection after replacing note `id` of the first entry that answers to `q`.
pub open spec fn note_edit_spec(s: Seq<EntryView>, q: Seq<char>, id: int, text: Seq<char>) -> Seq<
    EntryView,
> {
    let k = first_named(s, q);
    s.update(k, with_notes(s[k], s[k].notes.update(id, text)))
}

/// Appends `note` to the notes of every entry that answers to `name`; its
/// position is the number of notes the entry had before.
pub fn add(entries: &mut Vec<Entry>, name: &str, note: String) -> (r: Result<(), ManagerError>)
    ensures
        match note_add_spec(store_view(old(entries)@), name@, note@) {
            Some(t) => r is Ok && store_view(final(entries)@) == t,
            None => {
                &&& final(entries)@ == old(entries)@
                &&& not_found(r, name@)
            },
        },
{
    if position(entries, name).is_none() {
        return Err(ManagerError::EntryDoesntExist { name: name.to_owned() });
    }
    let folded = lowercase(name);
    let ghost s = store_view(entries@);
    let mut out: Vec<Entry> = Vec::new();
    let mut i: usize = 0;
    while i < entries.len()
        invariant
            i <= entries@.len(),
            s == store_view(entries@),
            folded@ == lower_of(name@),
            out@.len() == i,
            forall|j: int|
                0 <= j < i ==> (#[trigger] out@[j])@ == if named(s[j], name@) {
                    with_notes(s[j], s[j].notes.push(note@))
                } else {
                    s[j]
                },
        decreases entries@.len() - i,
    {
        let mut copy = entries[i].duplicate();
        if lowercase(entries[i].name.as_str()) == folded {
            let ghost before = copy;
            copy.notes.push(note.clone());
            assert(notes_view(copy.notes@) =~= notes_view(before.notes@).push(note@));
        }
        out.push(copy);
        i += 1;
    }
    assert(store_view(out@) =~= note_add_spec(s, name@, note@)->0);
    *entries = out;
    Ok(())
}

/// The notes of the first entry that answers to `entry_name`, each with its
/// position.
pub fn list(entries: &Vec<Entry>, entry_name: &str) -> (r: Result<
    Vec<(usize, String)>,
    ManagerError,
>)
    ensures
        has_entry(store_view(entries@), entry_name@) ==> (r matches Ok(found) && {
            let notes = first_notes(store_view(entries@), entry_name@);
            &&& found@.len() == notes.len()
            &&& forall|i: int|
                0 <= i < found@.len() ==> (#[trigger] found@[i]).0 == i && found@[i].1@
                    == notes[i]
        }),
        !has_entry(store_view(entries@), entry_name@) ==> not_found(r, entry_name@),
{
    let k = match position(entries, entry_name) {
        Some(k) => k,
        None => {
            return Err(ManagerError::EntryDoesntExist { name: entry_name.to_owned() });
        },
    };
    proof {
        lemma_first_named(store_view(entries@), entry_name@, k as int);
    }
    let notes = &entries[k].notes;
    let mut out: Vec<(usize, String)> = Vec::new();
    let mut i: usize = 0;
    while i < notes.len()
        invariant
            i <= notes@.len(),
            out@.len() == i,
            forall|j: int|
                0 <= j < i ==> (#[trigger] out@[j]).0 == j && out@[j].1@ == notes@[j]@,
        decreases notes@.len() - i,
    {
        out.push((i, notes[i].clone()));
        i += 1;
    }
    Ok(out)
}

/// Deletes note `note_id` of the first entry that answers to `entry_name`;
/// the notes after it move down by one position.
pub fn remove(entries: &mut Vec<Entry>, entry_name: &str, note_id: usize) -> (r: Result<
    (),
    ManagerError,
>)
    ensures
        note_in_range(store_view(old(entries)@), entry_name@, note_id as int) ==> r is Ok
            && store_view(final(entries)@) == note_remove_spec(
            store_view(old(entries)@),
            entry_name@,
            note_id as int,
        ),
        !has_entry(store_view(old(entries)@), entry_name@) ==> final(entries)@ == old(entries)@
            && not_found(r, entry_name@),
        has_entry(store_view(old(entries)@), entry_name@) && !note_in_range(
            store_view(old(entries)@),
            entry_name@,
            note_id as int,
        ) ==> final(entries)@ == old(entries)@ && r == Err::<(), ManagerError>(
            ManagerError::NoteIdOOB {
                id: note_id,
                len: first_notes(store_view(old(entries)@), entry_name@).len() as usize,
            },
        ),
{
    let k = match position(entries, entry_name) {
        Some(k) => k,
        None => {
            return Err(ManagerError::EntryDoesntExist { name: entry_name.to_owned() });
        },
    };
    proof {
        lemma_first_named(store_view(entries@), entry_name@, k as int);
    }
    let len = entries[k].notes.len();
    if note_id >= len {
        return Err(ManagerError::NoteIdOOB { id: note_id, len });
    }
    let ghost s = store_view(entries@);
    let ghost before = entries@[k as int];
    entries[k].notes.remove(note_id);
    assert(notes_view(entries@[k as int].notes@) =~= notes_view(before.notes@).remove(
        note_id as int,
    ));
    assert(store_view(entries@) =~= note_remove_spec(s, entry_name@, note_id as int));
    Ok(())
}

/// Replaces note `note_id` of the first entry that answers to `entry_name`
/// with `new_note`; no other note moves.
pub fn edit(entries: &mut Vec<Entry>, entry_name: &str, note_id: usize, new_note: String) -> (r:
    Result<(), ManagerError>)
    ensures
        note_in_range(store_view(old(entries)@), entry_name@, note_id as int) ==> r is Ok
            && store_view(final(entries)@) == note_edit_spec(
            store_view(old(entries)@),
            entry_name@,
            note_id as int,
            new_note@,
        ),
        !has_entry(store_view(old(entries)@), entry_name@) ==> final(entries)@ == old(entries)@
            && not_found(r, entry_name@),
        has_entry(store_view(old(entries)@), entry_name@) && !note_in_range(
            store_view(old(entries)@),
            entry_name@,
            note_id as int,
        ) ==> final(entries)@ == old(entries)@ && r == Err::<(), ManagerError>(
            ManagerError::NoteIdOOB {
                id: note_id,
                len: first_notes(store_view(old(entries)@), entry_name@).len() as usize,
            },
        ),
{
    let k = match position(entries, entry_name) {
        Some(k) => k,
        None => {
            return Err(ManagerError::EntryDoesntExist { name: entry_name.to_owned() });
        },
    };
    proof {
        lemma_first_named(store_view(entries@), entry_name@, k as int);
    }
    let len = entries[k].notes.len();
    if note_id >= len {
        return Err(ManagerError::NoteIdOOB { id: note_id, len });
    }
    let ghost s = store_view(entries@);
    let ghost before = entries@[k as int];
    entries[k].notes[note_id] = new_note;
    assert(notes_view(entries@[k as int].notes@) =~= notes_view(before.notes@).update(
        note_id as int,
        new_note@,
    ));
    assert(store_view(entries@) =~= note_edit_spec(s, entry_name@, note_id as int, new_note@));
    Ok(())
}

} // verus!
