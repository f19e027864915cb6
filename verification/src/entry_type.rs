//! The type of a desktop entry, and its textual form.

use crate::ascii::{eq_uncased, same_ignoring_case};
use vstd::prelude::*;

verus! {

/// What a desktop entry describes.
#[derive(Clone, Copy, Debug, PartialEq, Eq, Structural)]
pub enum EntryType {
    /// A program to launch.
    Application,
}

impl EntryType {
    /// The literal that stands for this type in an entry's `Type` line.
    pub open spec fn literal(self) -> Seq<char> {
        match self {
            EntryType::Application => "Application"@,
        }
    }

    /// The type that `s` names, if it names one: the type whose literal equals `s` up to
    /// the case of ASCII letters.
    pub open spec fn named_by(s: Seq<char>) -> Option<EntryType> {
        if same_ignoring_case(s, EntryType::Application.literal()) {
            Some(EntryType::Application)
        } else {
            None
        }
    }

    /// The literal of this type.
    pub fn as_str(&self) -> (s: &'static str)
        ensures
            s@ == self.literal(),
    {
        match self {
            EntryType::Application => "Application",
        }
    }

    /// Reads a type from its literal, written in any mix of upper and lower case.
    ///
    /// Fails on every other text, and hands that text back in the error.
    pub fn from_str(s: &str) -> (r: Result<EntryType, ParseEntryError>)
        ensures
            match r {
                Ok(t) => EntryType::named_by(s@) == Some(t),
                Err(e) => EntryType::named_by(s@) is None && e@ == s@,
            },
    {
        if eq_uncased(s, EntryType::Application.as_str()) {
            Ok(EntryType::Application)
        } else {
            Err(ParseEntryError(s.to_owned()))
        }
    }
}

impl Default for EntryType {
    /// An entry whose type is not given is an application.
    fn default() -> (t: EntryType)
        ensures
            t == EntryType::Application,
    {
        EntryType::Application
    }
}

/// The error of reading an entry type from a text that names none.
#[derive(Debug)]
pub struct ParseEntryError(String);

impl View for ParseEntryError {
    type V = Seq<char>;

    /// The text that was rejected, as it was given.
    closed spec fn view(&self) -> Seq<char> {
        self.0@
    }
}

impl ParseEntryError {
    /// What every message starts with.
    pub open spec fn prefix() -> Seq<char> {
        "unknown entry type: "@
    }

    /// The text that was rejected, as it was given.
    pub fn input(&self) -> (s: &str)
        ensures
            s@ == self@,
    {
        self.0.as_str()
    }

    /// The message for the user: the fixed prefix, then the rejected text.
    pub fn message(&self) -> (m: String)
        ensures
            m@ == ParseEntryError::prefix() + self@,
    {
        let mut m = String::new();
        m.append("unknown entry type: ");
        m.append(self.0.as_str());
        m
    }
}

/// Reading a type back from its own literal gives that type.
pub proof fn lemma_literal_round_trip(t: EntryType)
    ensures
        EntryType::named_by(t.literal()) == Some(t),
{
}

/// Two texts that differ only in the case of ASCII letters name the same type, or both
/// name none.
pub proof fn lemma_case_insensitive(a: Seq<char>, b: Seq<char>)
    requires
        same_ignoring_case(a, b),
    ensures
        EntryType::named_by(a) == EntryType::named_by(b),
{
}

} // verus!
