//! The arguments of the command-line tool, and what it writes for them.

use crate::entry::{entry_text, Entry, EntryFields, EntryFormatter};
use crate::entry_type::EntryType;
use crate::layout::lemma_first_lines;
use crate::lines::lines;
use vstd::prelude::*;

verus! {

/// What the user asked for: the fields of the entry, and where to write it.
#[derive(Debug)]
pub struct Args {
    /// The name shown to the user.
    pub name: String,
    /// The command that launches the program.
    pub command: String,
    /// What the entry describes; an application where nothing is given.
    pub entry_type: Option<EntryType>,
    /// The path of the icon.
    pub icon: Option<String>,
    /// A comment.
    pub comment: Option<String>,
    /// Whether the program is to run in a terminal.
    pub terminal: bool,
    /// The file to create; standard output where nothing is given.
    pub location: Option<String>,
}

/// The characters of an optional owned string.
pub open spec fn chars_of(s: Option<String>) -> Option<Seq<char>> {
    match s {
        Some(s) => Some(s@),
        None => None,
    }
}

impl Entry for Args {
    open spec fn fields(&self) -> EntryFields {
        EntryFields {
            entry_type: match self.entry_type {
                Some(t) => t,
                None => EntryType::Application,
            },
            name: self.name@,
            command: self.command@,
            icon: chars_of(self.icon),
            comment: chars_of(self.comment),
            terminal: self.terminal,
        }
    }

    fn entry_type(&self) -> (entry_type: EntryType) {
        match self.entry_type {
            Some(t) => t,
            None => EntryType::default(),
        }
    }

    fn name(&self) -> (name: &str) {
        self.name.as_str()
    }

    fn exec(&self) -> (exec: &str) {
        self.command.as_str()
    }

    fn icon(&self) -> (icon: Option<&str>) {
        match &self.icon {
            Some(s) => Some(s.as_str()),
            None => None,
        }
    }

    fn comment(&self) -> (comment: Option<&str>) {
        match &self.comment {
            Some(s) => Some(s.as_str()),
            None => None,
        }
    }

    fn terminal(&self) -> (terminal: bool) {
        self.terminal
    }
}

/// A text and where it is to go.
#[derive(Debug, PartialEq, Eq)]
pub enum Output {
    /// Write the text to standard output.
    Stdout { text: String },
    /// Create the file at `location`, which must not exist yet, and write the text to it.
    NewFile { location: String, text: String },
}

impl Args {
    /// A formatter for the entry that these arguments describe.
    pub fn entry(&self) -> (formatter: EntryFormatter<'_, Args>)
        ensures
            formatter.entry() == self,
    {
        EntryFormatter::new(self)
    }

    /// What is to be written for these arguments, and where: the text of the entry, to the
    /// new file at `location` where one is given and to standard output where none is.
    pub fn output(&self) -> (output: Output)
        ensures
            match output {
                Output::Stdout { text } => {
                    &&& self.location is None
                    &&& text@ == entry_text(self.fields())
                },
                Output::NewFile { location, text } => {
                    &&& self.location == Some(location)
                    &&& text@ == entry_text(self.fields())
                },
            },
    {
        let text = self.entry().render();
        match &self.location {
            Some(location) => Output::NewFile { location: location.clone(), text },
            None => Output::Stdout { text },
        }
    }
}

/// Arguments that name no type describe an application: the line after the header reads
/// `Type=Application`.
pub proof fn lemma_default_type(args: Args)
    requires
        args.entry_type is None,
    ensures
        args.fields().entry_type == EntryType::Application,
        lines(entry_text(args.fields()))[1] == "Type=Application"@,
{
    lemma_first_lines(args.fields());
    reveal_strlit("Type=");
    reveal_strlit("Application");
    reveal_strlit("Type=Application");
    assert("Type=Application"@ =~= "Type="@ + "Application"@);
}

} // verus!
