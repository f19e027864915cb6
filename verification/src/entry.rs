//! The fields of a desktop entry and the text that they are written as.

use crate::entry_type::EntryType;
use crate::layout::{
    entry_lines, lemma_comment_line, lemma_icon_line, lemma_lines_in_order, lemma_text_frame,
    single_line_values, stray_line,
};
use crate::lines::{has_line_starting, lines};
use vstd::prelude::*;

verus! {

/// The fields of one desktop entry, as plain values.
pub struct EntryFields {
    /// What the entry describes.
    pub entry_type: EntryType,
    /// The name shown to the user.
    pub name: Seq<char>,
    /// The command that launches the program.
    pub command: Seq<char>,
    /// The icon, where there is one.
    pub icon: Option<Seq<char>>,
    /// A comment, where there is one.
    pub comment: Option<Seq<char>>,
    /// Whether the program is to run in a terminal.
    pub terminal: bool,
}

/// Anything that holds the fields of a desktop entry.
pub trait Entry {
    /// The fields that the accessors below hand out.
    spec fn fields(&self) -> EntryFields;

    /// What the entry describes.
    fn entry_type(&self) -> (entry_type: EntryType)
        ensures
            entry_type == self.fields().entry_type,
    ;

    /// The name shown to the user.
    fn name(&self) -> (name: &str)
        ensures
            name@ == self.fields().name,
    ;

    /// The command that launches the program.
    fn exec(&self) -> (exec: &str)
        ensures
            exec@ == self.fields().command,
    ;

    /// The icon, where there is one.
    fn icon(&self) -> (icon: Option<&str>)
        ensures
            text_of(icon) == self.fields().icon,
    ;

    /// A comment, where there is one.
    fn comment(&self) -> (comment: Option<&str>)
        ensures
            text_of(comment) == self.fields().comment,
    ;

    /// Whether the program is to run in a terminal.
    fn terminal(&self) -> (terminal: bool)
        ensures
            terminal == self.fields().terminal,
    ;
}

/// The characters of an optional string.
pub open spec fn text_of(s: Option<&str>) -> Option<Seq<char>> {
    match s {
        Some(s) => Some(s@),
        None => None,
    }
}

/// The literal that a boolean field is written as.
pub open spec fn bool_literal(b: bool) -> Seq<char> {
    if b {
        "true"@
    } else {
        "false"@
    }
}

/// One line of an entry: the key with its `=`, the value as it is, and a line feed.
pub open spec fn field_line(key: Seq<char>, value: Seq<char>) -> Seq<char> {
    key + value + "\n"@
}

/// The line of a field that may be absent: nothing at all where it is.
pub open spec fn optional_line(key: Seq<char>, value: Option<Seq<char>>) -> Seq<char> {
    match value {
        Some(value) => field_line(key, value),
        None => Seq::empty(),
    }
}

/// The text of a desktop entry: the header, then one line for each field in a fixed order.
pub open spec fn entry_text(f: EntryFields) -> Seq<char> {
    "[Desktop Entry]\n"@
        + field_line("Type="@, f.entry_type.literal())
        + field_line("Name="@, f.name)
        + field_line("Exec="@, f.command)
        + optional_line("Icon="@, f.icon)
        + optional_line("Comment="@, f.comment)
        + field_line("Terminal="@, bool_literal(f.terminal))
}

/// Writes the text of a desktop entry from the fields of an `Entry`.
pub struct EntryFormatter<'a, T> {
    entry: &'a T,
}

impl<'a, T> EntryFormatter<'a, T> {
    /// The entry that this formatter writes.
    pub closed spec fn entry(&self) -> &'a T {
        self.entry
    }

    /// A formatter for `entry`.
    pub fn new(entry: &'a T) -> (formatter: Self)
        ensures
            formatter.entry() == entry,
    {
        Self { entry }
    }
}

impl<'a, T: Entry> EntryFormatter<'a, T> {
    /// The text of the entry. Values are copied as they are, with nothing escaped.
    ///
    /// The text starts with the header and ends with the `Terminal` line and its one line
    /// feed. It has an `Icon` line and a `Comment` line exactly where the entry has the
    /// value, unless a line feed inside some value starts a line that looks like one. Where
    /// no value holds a line feed, its lines are the header and the fields in their fixed
    /// order.
    pub fn render(&self) -> (text: String)
        ensures
            text@ == entry_text(self.entry().fields()),
            "[Desktop Entry]\n"@.is_prefix_of(text@),
            self.entry().fields().terminal ==> "Terminal=true\n"@.is_suffix_of(text@),
            !self.entry().fields().terminal ==> "Terminal=false\n"@.is_suffix_of(text@),
            text@.len() >= 2 && text@[text@.len() - 1] == '\n' && text@[text@.len() - 2] != '\n',
            has_line_starting(text@, "Icon="@) <==> (self.entry().fields().icon is Some
                || stray_line(self.entry().fields(), "Icon="@)),
            has_line_starting(text@, "Comment="@) <==> (self.entry().fields().comment is Some
                || stray_line(self.entry().fields(), "Comment="@)),
            single_line_values(self.entry().fields()) ==> lines(text@) == entry_lines(
                self.entry().fields(),
            ),
    {
        proof {
            let f = self.entry().fields();
            lemma_text_frame(f);
            lemma_icon_line(f);
            lemma_comment_line(f);
            if single_line_values(f) {
                lemma_lines_in_order(f);
            }
        }
        let entry = self.entry;
        let mut text = String::new();
        text.append("[Desktop Entry]\n");
        push_line(&mut text, "Type=", entry.entry_type().as_str());
        push_line(&mut text, "Name=", entry.name());
        push_line(&mut text, "Exec=", entry.exec());
        if let Some(icon) = entry.icon() {
            push_line(&mut text, "Icon=", icon);
        }
        if let Some(comment) = entry.comment() {
            push_line(&mut text, "Comment=", comment);
        }
        push_line(&mut text, "Terminal=", if entry.terminal() { "true" } else { "false" });
        text
    }
}

/// Appends one line to `text`.
fn push_line(text: &mut String, key: &str, value: &str)
    ensures
        final(text)@ == old(text)@ + field_line(key@, value@),
{
    text.append(key);
    text.append(value);
    text.append("\n");
}

} // verus!
