use passman::manager;
use passman::manager::entry::Entry;
use passman::manager::errors::ManagerError;
use passman::manager::notes;
use passman::manager::Decoded;

fn entry(name: &str, username: &str, secret: &str, location: &str) -> Entry {
    Entry::new(
        name.to_string(),
        location.to_string(),
        username.to_string(),
        secret.to_string(),
    )
}

fn mail_store() -> Vec<Entry> {
    let mut entries = Vec::new();
    manager::add(&mut entries, entry("Mail", "me", "pw1", "mail.example")).unwrap();
    entries
}

fn note_texts(entries: &Vec<Entry>, name: &str) -> Vec<(usize, String)> {
    notes::list(entries, name).unwrap()
}

#[test]
fn scenario_add_then_list() {
    let mut entries: Vec<Entry> = Vec::new();
    let r = manager::add(&mut entries, entry("Mail", "me", "pw1", "mail.example"));
    assert_eq!(r, Ok(()));
    assert_eq!(
        manager::list(&entries),
        vec![("Mail".to_string(), "mail.example".to_string())]
    );
}

#[test]
fn scenario_add_same_name_other_case_refused() {
    let mut entries = mail_store();
    let r = manager::add(&mut entries, entry("mail", "other", "pw2", "elsewhere"));
    assert_eq!(
        r,
        Err(ManagerError::EntryExists {
            name: "mail".to_string()
        })
    );
    assert_eq!(entries.len(), 1);
    assert_eq!(entries[0].username, "me");
}

#[test]
fn scenario_edit_location() {
    let mut entries = mail_store();
    let patch = entry("", "", "", "mail2.example");
    assert_eq!(manager::edit(&mut entries, "Mail", patch), Ok(()));
    let found = manager::show(&entries, "mail").unwrap();
    assert_eq!(found.len(), 1);
    assert_eq!(found[0].location, "mail2.example");
    assert_eq!(found[0].username, "me");
    assert_eq!(found[0].name, "Mail");
    assert_eq!(found[0].show_password(), "pw1");
}

#[test]
fn scenario_notes_add_and_list() {
    let mut entries = mail_store();
    notes::add(&mut entries, "Mail", "recovery code: 1234".to_string()).unwrap();
    notes::add(&mut entries, "Mail", "backup email set".to_string()).unwrap();
    assert_eq!(
        note_texts(&entries, "Mail"),
        vec![
            (0, "recovery code: 1234".to_string()),
            (1, "backup email set".to_string())
        ]
    );
}

#[test]
fn scenario_note_remove_first() {
    let mut entries = mail_store();
    notes::add(&mut entries, "Mail", "recovery code: 1234".to_string()).unwrap();
    notes::add(&mut entries, "Mail", "backup email set".to_string()).unwrap();
    assert_eq!(notes::remove(&mut entries, "Mail", 0), Ok(()));
    assert_eq!(
        note_texts(&entries, "Mail"),
        vec![(0, "backup email set".to_string())]
    );
}

#[test]
fn scenario_remove_missing() {
    let mut entries = mail_store();
    let before = entries.clone();
    assert_eq!(
        manager::remove(&mut entries, "nonexistent"),
        Err(ManagerError::EntryDoesntExist {
            name: "nonexistent".to_string()
        })
    );
    assert_eq!(entries, before);
}

#[test]
fn second_add_of_same_name_leaves_store_unchanged() {
    let mut entries = Vec::new();
    manager::add(&mut entries, entry("GitHub", "a", "x", "github.com")).unwrap();
    let after_first = entries.clone();
    let r = manager::add(&mut entries, entry("GITHUB", "b", "y", "elsewhere"));
    assert_eq!(
        r,
        Err(ManagerError::EntryExists {
            name: "GITHUB".to_string()
        })
    );
    assert_eq!(entries, after_first);
}

#[test]
fn list_and_show_repeat_identically() {
    let mut entries = mail_store();
    manager::add(&mut entries, entry("Bank", "u", "p", "bank.example")).unwrap();
    assert_eq!(manager::list(&entries), manager::list(&entries));
    assert_eq!(
        manager::show(&entries, "bank"),
        manager::show(&entries, "bank")
    );
    assert_eq!(
        manager::show(&entries, "nobody"),
        manager::show(&entries, "nobody")
    );
}

#[test]
fn edit_with_empty_patch_changes_nothing() {
    let mut entries = mail_store();
    notes::add(&mut entries, "Mail", "kept".to_string()).unwrap();
    let before = entries.clone();
    assert_eq!(manager::edit(&mut entries, "MAIL", entry("", "", "", "")), Ok(()));
    assert_eq!(entries, before);
}

#[test]
fn edit_replaces_given_fields_and_keeps_notes() {
    let mut entries = mail_store();
    manager::add(&mut entries, entry("Bank", "u", "p", "bank.example")).unwrap();
    notes::add(&mut entries, "Mail", "kept".to_string()).unwrap();
    let patch = entry("Post", "you", "pw9", "");
    assert_eq!(manager::edit(&mut entries, "mail", patch), Ok(()));
    assert_eq!(entries[0].name, "Post");
    assert_eq!(entries[0].username, "you");
    assert_eq!(entries[0].show_password(), "pw9");
    assert_eq!(entries[0].location, "mail.example");
    assert_eq!(entries[0].notes, vec!["kept".to_string()]);
    assert_eq!(entries[1].name, "Bank");
}

#[test]
fn edit_missing_entry_fails() {
    let mut entries = mail_store();
    let before = entries.clone();
    assert_eq!(
        manager::edit(&mut entries, "Bank", entry("", "", "", "x")),
        Err(ManagerError::EntryDoesntExist {
            name: "Bank".to_string()
        })
    );
    assert_eq!(entries, before);
}

#[test]
fn note_remove_shifts_later_notes_down() {
    let mut entries = mail_store();
    for text in ["a", "b", "c", "d"] {
        notes::add(&mut entries, "Mail", text.to_string()).unwrap();
    }
    notes::remove(&mut entries, "mail", 1).unwrap();
    assert_eq!(
        note_texts(&entries, "Mail"),
        vec![
            (0, "a".to_string()),
            (1, "c".to_string()),
            (2, "d".to_string())
        ]
    );
}

#[test]
fn names_are_matched_without_case() {
    let mut entries = Vec::new();
    manager::add(&mut entries, entry("GitHub", "me", "pw", "github.com")).unwrap();
    assert!(manager::entry_exists(&entries, "github"));
    assert!(!manager::entry_exists(&entries, "gitlab"));
    assert_eq!(manager::remove(&mut entries, "GITHUB"), Ok(()));
    assert!(entries.is_empty());
}

#[test]
fn remove_keeps_other_entries_in_order() {
    let mut entries = Vec::new();
    for name in ["One", "Two", "Three"] {
        manager::add(&mut entries, entry(name, "u", "p", "l")).unwrap();
    }
    manager::remove(&mut entries, "two").unwrap();
    let names: Vec<String> = manager::list(&entries).into_iter().map(|p| p.0).collect();
    assert_eq!(names, vec!["One".to_string(), "Three".to_string()]);
}

#[test]
fn list_of_empty_store_is_empty() {
    let entries: Vec<Entry> = Vec::new();
    assert!(manager::list(&entries).is_empty());
    assert!(!manager::entry_exists(&entries, "anything"));
}

#[test]
fn show_missing_entry_fails() {
    let entries = mail_store();
    assert_eq!(
        manager::show(&entries, "Bank"),
        Err(ManagerError::EntryDoesntExist {
            name: "Bank".to_string()
        })
    );
}

#[test]
fn note_index_out_of_range_fails() {
    let mut entries = mail_store();
    notes::add(&mut entries, "Mail", "only".to_string()).unwrap();
    let before = entries.clone();
    assert_eq!(
        notes::remove(&mut entries, "Mail", 1),
        Err(ManagerError::NoteIdOOB { id: 1, len: 1 })
    );
    assert_eq!(
        notes::edit(&mut entries, "Mail", 5, "x".to_string()),
        Err(ManagerError::NoteIdOOB { id: 5, len: 1 })
    );
    assert_eq!(entries, before);
}

#[test]
fn note_edit_replaces_in_place() {
    let mut entries = mail_store();
    notes::add(&mut entries, "Mail", "first".to_string()).unwrap();
    notes::add(&mut entries, "Mail", "second".to_string()).unwrap();
    assert_eq!(notes::edit(&mut entries, "MAIL", 0, "changed".to_string()), Ok(()));
    assert_eq!(
        note_texts(&entries, "Mail"),
        vec![(0, "changed".to_string()), (1, "second".to_string())]
    );
}

#[test]
fn note_operations_on_missing_entry_fail() {
    let mut entries = mail_store();
    let missing = Err(ManagerError::EntryDoesntExist {
        name: "Bank".to_string(),
    });
    assert_eq!(notes::add(&mut entries, "Bank", "x".to_string()), missing);
    assert_eq!(notes::remove(&mut entries, "Bank", 0), missing);
    assert_eq!(notes::edit(&mut entries, "Bank", 0, "x".to_string()), missing);
    assert_eq!(
        notes::list(&entries, "Bank"),
        Err(ManagerError::EntryDoesntExist {
            name: "Bank".to_string()
        })
    );
}

#[test]
fn notes_of_new_entry_are_empty() {
    let entries = mail_store();
    assert!(note_texts(&entries, "mail").is_empty());
}

#[test]
fn decoded_entries_are_kept() {
    let entries = mail_store();
    assert_eq!(
        manager::get_entries(Decoded::Entries(entries.clone())),
        Ok(entries)
    );
}

#[test]
fn truncated_text_gives_empty_collection() {
    assert_eq!(manager::get_entries(Decoded::EndOfInput), Ok(Vec::new()));
}

#[test]
fn malformed_text_is_corrupt() {
    assert_eq!(
        manager::get_entries(Decoded::Invalid),
        Err(ManagerError::Corrupt)
    );
}
