//! The command types a front end parses the command line into.

use vstd::prelude::*;

verus! {

/// A parsed command line.
#[derive(Debug, Clone, PartialEq, Eq)]
pub struct Args {
    /// The action to perform.
    pub action: Action,
}

/// What the program is asked to do. A `file` names the entries file to use
/// in place of the configured one.
#[derive(Debug, Clone, PartialEq, Eq)]
pub enum Action {
    /// Generate a password of `length` characters.
    Generate { length: u32, numbers: bool, special: bool },
    /// Add an entry, from the given fields or, when `interactive`, from prompts.
    Add {
        name: Option<String>,
        username: Option<String>,
        password: Option<String>,
        location: Option<String>,
        file: Option<String>,
        interactive: bool,
    },
    /// Remove an entry.
    Remove { name: String, file: Option<String> },
    /// List every entry.
    List { file: Option<String> },
    /// Show an entry, and copy its password to the clipboard when `copy`.
    Show { name: String, file: Option<String>, copy: bool },
    /// Edit an entry; empty answers leave fields unchanged.
    Edit { name: String, file: Option<String> },
    /// Work with an entry's notes.
    Notes { subcmd: NotesSubcmd },
    /// Change a configuration option.
    Config { option: ConfigField },
}

/// What to do with an entry's notes.
#[derive(Debug, Clone, PartialEq, Eq)]
pub enum NotesSubcmd {
    /// Append `note` to the notes of `entry`.
    Add { note: String, entry: String, file: Option<String> },
    /// Remove the note at position `id`.
    Remove { entry: String, id: usize, file: Option<String> },
    /// Replace the note at position `id` with `new_note`.
    Edit { entry: String, id: usize, new_note: String, file: Option<String> },
    /// List the notes of `entry` with their positions.
    List { entry: String, file: Option<String> },
}

/// A configuration option to set.
#[derive(Debug, Clone, PartialEq, Eq)]
pub enum ConfigField {
    /// The entries file used when a command names none.
    DefaultFile { path: String },
}

} // verus!
