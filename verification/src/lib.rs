//! Bulk renaming of files by editing a list of paths: pairing of the current
//! and the edited list, validation of the proposed renamings, the review loop
//! and the engine that applies a confirmed batch.
//!
//! The library never touches the file system, the terminal or the editor
//! itself. It is handed what was read (path lists, which paths exist, what the
//! user chose, what came of an operation) and answers with what is to be shown
//! or done next.
//!
//! A path is the text that names it: two paths are the same where they are
//! spelled the same.

/// The user's preferences: which editor to use, and how to start it
pub mod config;

/// The tables of validations and results, as styled lines
pub mod display;

/// Which paths exist, as it was observed
pub mod existing;

/// The engine that applies renamings, the list files and the path patterns
pub mod filesystem;

/// The rounds of the review: what is shown, what is asked, what follows
pub mod interaction;

/// Texts kept in order, each once
pub mod sorted;

/// Work on texts: digits, white space, lines, search and order
pub mod text;

/// Pairing of the two lists and validation of the renamings
pub mod validation;
