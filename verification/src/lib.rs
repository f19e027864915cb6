//! Desktop entries: the launcher descriptions that a desktop environment reads.
//!
//! An entry is a short text of `Key=Value` lines under a `[Desktop Entry]` header. This
//! crate models the fields of one entry, renders them as that text, and proves what the
//! text looks like.

pub mod args;
pub mod ascii;
pub mod entry;
pub mod entry_type;
pub mod layout;
pub mod lines;

pub use args::{Args, Output};
pub use entry::{Entry, EntryFields, EntryFormatter};
pub use entry_type::{EntryType, ParseEntryError};
