//! What the text of a desktop entry looks like, proved of every entry.

use crate::entry::{bool_literal, entry_text, field_line, optional_line, EntryFields};
use crate::lines::{
    breaks_into, has_line_starting, lemma_breaks_into_value, lemma_line_starting,
    lemma_line_starting_concat, lemma_lines_concat, lemma_lines_of_line, lines, single_line,
    terminated,
};
use vstd::prelude::*;

verus! {

/// The line of a field, without its line feed.
pub open spec fn field_entry(key: Seq<char>, value: Seq<char>) -> Seq<char> {
    key + value
}

/// The line of a field that may be absent, as a list of one line or of none.
pub open spec fn optional_entry(key: Seq<char>, value: Option<Seq<char>>) -> Seq<Seq<char>> {
    match value {
        Some(value) => seq![field_entry(key, value)],
        None => Seq::empty(),
    }
}

/// The lines that an entry is written as, in their order.
pub open spec fn entry_lines(f: EntryFields) -> Seq<Seq<char>> {
    seq![
        "[Desktop Entry]"@,
        field_entry("Type="@, f.entry_type.literal()),
        field_entry("Name="@, f.name),
        field_entry("Exec="@, f.command),
    ] + optional_entry("Icon="@, f.icon) + optional_entry("Comment="@, f.comment) + seq![
        field_entry("Terminal="@, bool_literal(f.terminal)),
    ]
}

/// Whether an optional value is absent or holds no line feed.
pub open spec fn optional_single_line(value: Option<Seq<char>>) -> bool {
    match value {
        Some(value) => single_line(value),
        None => true,
    }
}

/// Whether no value of the entry holds a line feed.
pub open spec fn single_line_values(f: EntryFields) -> bool {
    &&& single_line(f.name)
    &&& single_line(f.command)
    &&& optional_single_line(f.icon)
    &&& optional_single_line(f.comment)
}

/// Whether an optional value is present and holds a line feed with `p` directly after it.
pub open spec fn optional_breaks_into(value: Option<Seq<char>>, p: Seq<char>) -> bool {
    match value {
        Some(value) => breaks_into(value, p),
        None => false,
    }
}

/// Whether some value of the entry holds a line feed with `p` directly after it, and so
/// starts a line of its own with `p`.
pub open spec fn stray_line(f: EntryFields, p: Seq<char>) -> bool {
    ||| breaks_into(f.name, p)
    ||| breaks_into(f.command, p)
    ||| optional_breaks_into(f.icon, p)
    ||| optional_breaks_into(f.comment, p)
}

/// What the literals of the format hold.
proof fn lemma_literals()
    ensures
        "\n"@ == seq!['\n'],
        "[Desktop Entry]\n"@ == "[Desktop Entry]"@ + seq!['\n'],
        "Terminal=true\n"@ == "Terminal="@ + "true"@ + seq!['\n'],
        "Terminal=false\n"@ == "Terminal="@ + "false"@ + seq!['\n'],
        single_line("[Desktop Entry]"@) && "[Desktop Entry]"@[0] == '[',
        single_line("Type="@) && "Type="@.len() == 5 && "Type="@[0] == 'T',
        single_line("Name="@) && "Name="@.len() == 5 && "Name="@[0] == 'N',
        single_line("Exec="@) && "Exec="@.len() == 5 && "Exec="@[0] == 'E',
        single_line("Icon="@) && "Icon="@.len() == 5 && "Icon="@[0] == 'I',
        single_line("Comment="@) && "Comment="@.len() == 8 && "Comment="@[0] == 'C',
        single_line("Terminal="@) && "Terminal="@.len() == 9 && "Terminal="@[0] == 'T',
        single_line("Application"@) && "Application"@.len() == 11,
        single_line("true"@) && "true"@.len() == 4 && "true"@[3] == 'e',
        single_line("false"@) && "false"@.len() == 5 && "false"@[4] == 'e',
{
    reveal_strlit("\n");
    reveal_strlit("[Desktop Entry]\n");
    reveal_strlit("[Desktop Entry]");
    reveal_strlit("Terminal=true\n");
    reveal_strlit("Terminal=false\n");
    reveal_strlit("Type=");
    reveal_strlit("Name=");
    reveal_strlit("Exec=");
    reveal_strlit("Icon=");
    reveal_strlit("Comment=");
    reveal_strlit("Terminal=");
    reveal_strlit("Application");
    reveal_strlit("true");
    reveal_strlit("false");
    assert("\n"@ =~= seq!['\n']);
    assert("[Desktop Entry]\n"@ =~= "[Desktop Entry]"@ + seq!['\n']);
    assert("Terminal=true\n"@ =~= "Terminal="@ + "true"@ + seq!['\n']);
    assert("Terminal=false\n"@ =~= "Terminal="@ + "false"@ + seq!['\n']);
}

/// The text of an entry starts with the header line and ends with the `Terminal` line,
/// which closes it with one line feed and no more.
pub proof fn lemma_text_frame(f: EntryFields)
    ensures
        "[Desktop Entry]\n"@.is_prefix_of(entry_text(f)),
        f.terminal ==> "Terminal=true\n"@.is_suffix_of(entry_text(f)),
        !f.terminal ==> "Terminal=false\n"@.is_suffix_of(entry_text(f)),
        entry_text(f).len() >= 2,
        entry_text(f)[entry_text(f).len() - 1] == '\n',
        entry_text(f)[entry_text(f).len() - 2] != '\n',
{
    lemma_literals();
    let text = entry_text(f);
    let head = "[Desktop Entry]\n"@;
    let last = field_line("Terminal="@, bool_literal(f.terminal));
    let n = text.len() as int;
    assert(head =~= text.subrange(0, head.len() as int));
    assert(last =~= text.subrange(n - last.len(), n));
}

/// The line of a field ends in a line feed, and is a single line where the key and the
/// value hold none.
proof fn lemma_field_line(key: Seq<char>, value: Seq<char>)
    ensures
        field_line(key, value).len() > 0,
        terminated(field_line(key, value)),
        single_line(key) && single_line(value) ==> lines(field_line(key, value)) == seq![
            field_entry(key, value),
        ],
{
    lemma_literals();
    if single_line(key) && single_line(value) {
        lemma_lines_of_line(key + value);
    }
}

/// The lines of a text with the line of a field after it.
proof fn lemma_lines_then_field(x: Seq<char>, key: Seq<char>, value: Seq<char>)
    requires
        terminated(x),
        single_line(key),
        single_line(value),
    ensures
        terminated(x + field_line(key, value)),
        lines(x + field_line(key, value)) == lines(x) + seq![field_entry(key, value)],
{
    lemma_field_line(key, value);
    lemma_lines_concat(x, field_line(key, value));
}

/// The lines of a text with the line of a field that may be absent after it.
proof fn lemma_lines_then_optional(x: Seq<char>, key: Seq<char>, value: Option<Seq<char>>)
    requires
        terminated(x),
        single_line(key),
        optional_single_line(value),
    ensures
        terminated(x + optional_line(key, value)),
        lines(x + optional_line(key, value)) == lines(x) + optional_entry(key, value),
{
    match value {
        Some(v) => {
            lemma_lines_then_field(x, key, v);
        },
        None => {
            assert(x + optional_line(key, value) =~= x);
            assert(lines(x) + optional_entry(key, value) =~= lines(x));
        },
    }
}

/// Where no value holds a line feed, the lines of the text are the header and the fields
/// in their fixed order: `Type`, `Name`, `Exec`, then `Icon` and `Comment` where they are
/// present, then `Terminal`.
pub proof fn lemma_lines_in_order(f: EntryFields)
    requires
        single_line_values(f),
    ensures
        lines(entry_text(f)) == entry_lines(f),
{
    lemma_literals();
    let t0 = "[Desktop Entry]\n"@;
    let t1 = t0 + field_line("Type="@, f.entry_type.literal());
    let t2 = t1 + field_line("Name="@, f.name);
    let t3 = t2 + field_line("Exec="@, f.command);
    let t4 = t3 + optional_line("Icon="@, f.icon);
    let t5 = t4 + optional_line("Comment="@, f.comment);
    lemma_lines_of_line("[Desktop Entry]"@);
    lemma_lines_then_field(t0, "Type="@, f.entry_type.literal());
    lemma_lines_then_field(t1, "Name="@, f.name);
    lemma_lines_then_field(t2, "Exec="@, f.command);
    lemma_lines_then_optional(t3, "Icon="@, f.icon);
    lemma_lines_then_optional(t4, "Comment="@, f.comment);
    lemma_lines_then_field(t5, "Terminal="@, bool_literal(f.terminal));
    assert(lines(entry_text(f)) =~= entry_lines(f));
}

/// For every entry, whatever its values hold, the first two lines of the text are the
/// header and the `Type` line.
pub proof fn lemma_first_lines(f: EntryFields)
    ensures
        lines(entry_text(f)).len() >= 2,
        lines(entry_text(f))[0] == "[Desktop Entry]"@,
        lines(entry_text(f))[1] == field_entry("Type="@, f.entry_type.literal()),
{
    lemma_literals();
    let t0 = "[Desktop Entry]\n"@;
    let t1 = t0 + field_line("Type="@, f.entry_type.literal());
    let rest = field_line("Name="@, f.name) + field_line("Exec="@, f.command) + optional_line(
        "Icon="@,
        f.icon,
    ) + optional_line("Comment="@, f.comment) + field_line(
        "Terminal="@,
        bool_literal(f.terminal),
    );
    lemma_lines_of_line("[Desktop Entry]"@);
    lemma_lines_then_field(t0, "Type="@, f.entry_type.literal());
    lemma_lines_concat(t1, rest);
    assert(entry_text(f) =~= t1 + rest);
}

/// Whether a line of a field starts with `p`: the line that the key opens, or one that a
/// line feed inside the value starts.
proof fn lemma_line_starting_in_field(key: Seq<char>, value: Seq<char>, p: Seq<char>)
    requires
        single_line(key),
        key.len() > 0,
        single_line(p),
        p.len() > 0,
    ensures
        has_line_starting(field_line(key, value), p) <==> (p.is_prefix_of(key + value)
            || breaks_into(value, p)),
        p[0] != key[0] ==> !p.is_prefix_of(key + value),
        p == key ==> p.is_prefix_of(key + value),
{
    lemma_literals();
    let line = field_line(key, value);
    lemma_line_starting(line, p);
    lemma_breaks_into_value(key, value, p);
    if p.is_prefix_of(line) {
        if p.len() > (key + value).len() {
            let m = (key + value).len() as int;
            assert(p[m] == line.subrange(0, p.len() as int)[m]);
        }
        assert(p =~= (key + value).subrange(0, p.len() as int)) by {
            assert forall|m: int| 0 <= m < p.len() implies p[m] == (key + value)[m] by {
                assert(p[m] == line.subrange(0, p.len() as int)[m]);
            }
        }
    }
    if p.is_prefix_of(key + value) {
        assert(p =~= line.subrange(0, p.len() as int)) by {
            assert forall|m: int| 0 <= m < p.len() implies p[m] == line[m] by {
                assert(p[m] == (key + value).subrange(0, p.len() as int)[m]);
            }
        }
        assert(p[0] == (key + value).subrange(0, p.len() as int)[0]);
    }
    if p == key {
        assert(p =~= (key + value).subrange(0, p.len() as int));
    }
}

/// Whether a line of a text with the line of a field after it starts with `p`.
proof fn lemma_line_starting_then_field(
    x: Seq<char>,
    key: Seq<char>,
    value: Seq<char>,
    p: Seq<char>,
)
    requires
        terminated(x),
        single_line(key),
        key.len() > 0,
        single_line(p),
        p.len() > 0,
    ensures
        terminated(x + field_line(key, value)),
        has_line_starting(x + field_line(key, value), p) <==> (has_line_starting(x, p)
            || p.is_prefix_of(key + value) || breaks_into(value, p)),
        p[0] != key[0] ==> !p.is_prefix_of(key + value),
        p == key ==> p.is_prefix_of(key + value),
{
    lemma_field_line(key, value);
    lemma_line_starting_in_field(key, value, p);
    lemma_line_starting_concat(x, field_line(key, value), p);
}

/// Whether a line of a text with the line of a field that may be absent after it starts
/// with `p`.
proof fn lemma_line_starting_then_optional(
    x: Seq<char>,
    key: Seq<char>,
    value: Option<Seq<char>>,
    p: Seq<char>,
)
    requires
        terminated(x),
        single_line(key),
        key.len() > 0,
        single_line(p),
        p.len() > 0,
    ensures
        terminated(x + optional_line(key, value)),
        p[0] != key[0] ==> (has_line_starting(x + optional_line(key, value), p) <==> (
        has_line_starting(x, p) || optional_breaks_into(value, p))),
        p == key ==> (has_line_starting(x + optional_line(key, value), p) <==> (
        has_line_starting(x, p) || value is Some)),
{
    match value {
        Some(v) => {
            lemma_line_starting_then_field(x, key, v, p);
        },
        None => {
            assert(x + optional_line(key, value) =~= x);
        },
    }
}

/// A line of the text starts with `Icon=` exactly if the entry has an icon, or some value
/// holds a line feed with `Icon=` directly after it.
pub proof fn lemma_icon_line(f: EntryFields)
    ensures
        has_line_starting(entry_text(f), "Icon="@) <==> (f.icon is Some || stray_line(
            f,
            "Icon="@,
        )),
{
    lemma_literals();
    let p = "Icon="@;
    let t0 = "[Desktop Entry]\n"@;
    let t1 = t0 + field_line("Type="@, f.entry_type.literal());
    let t2 = t1 + field_line("Name="@, f.name);
    let t3 = t2 + field_line("Exec="@, f.command);
    let t4 = t3 + optional_line("Icon="@, f.icon);
    let t5 = t4 + optional_line("Comment="@, f.comment);
    lemma_header_line(p);
    lemma_line_starting_then_field(t0, "Type="@, f.entry_type.literal(), p);
    lemma_no_break("Application"@, p);
    lemma_line_starting_then_field(t1, "Name="@, f.name, p);
    lemma_line_starting_then_field(t2, "Exec="@, f.command, p);
    lemma_line_starting_then_optional(t3, "Icon="@, f.icon, p);
    lemma_line_starting_then_optional(t4, "Comment="@, f.comment, p);
    lemma_line_starting_then_field(t5, "Terminal="@, bool_literal(f.terminal), p);
    lemma_no_break(bool_literal(f.terminal), p);
}

/// An entry has an `Icon=` line exactly if it has an icon.
///
/// Left out are the entries without an icon in which a line feed inside some value is
/// directly followed by `Icon=`: their text has such a line all the same.
pub proof fn lemma_icon_line_omitted(f: EntryFields)
    requires
        f.icon is None ==> !stray_line(f, "Icon="@),
    ensures
        has_line_starting(entry_text(f), "Icon="@) <==> f.icon is Some,
{
    lemma_icon_line(f);
}

/// A line of the text starts with `Comment=` exactly if the entry has a comment, or some
/// value holds a line feed with `Comment=` directly after it.
pub proof fn lemma_comment_line(f: EntryFields)
    ensures
        has_line_starting(entry_text(f), "Comment="@) <==> (f.comment is Some || stray_line(
            f,
            "Comment="@,
        )),
{
    lemma_literals();
    let p = "Comment="@;
    let t0 = "[Desktop Entry]\n"@;
    let t1 = t0 + field_line("Type="@, f.entry_type.literal());
    let t2 = t1 + field_line("Name="@, f.name);
    let t3 = t2 + field_line("Exec="@, f.command);
    let t4 = t3 + optional_line("Icon="@, f.icon);
    let t5 = t4 + optional_line("Comment="@, f.comment);
    lemma_header_line(p);
    lemma_line_starting_then_field(t0, "Type="@, f.entry_type.literal(), p);
    lemma_no_break("Application"@, p);
    lemma_line_starting_then_field(t1, "Name="@, f.name, p);
    lemma_line_starting_then_field(t2, "Exec="@, f.command, p);
    lemma_line_starting_then_optional(t3, "Icon="@, f.icon, p);
    lemma_line_starting_then_optional(t4, "Comment="@, f.comment, p);
    lemma_line_starting_then_field(t5, "Terminal="@, bool_literal(f.terminal), p);
    lemma_no_break(bool_literal(f.terminal), p);
}

/// An entry has a `Comment=` line exactly if it has a comment.
///
/// Left out are the entries without a comment in which a line feed inside some value is
/// directly followed by `Comment=`: their text has such a line all the same.
pub proof fn lemma_comment_line_omitted(f: EntryFields)
    requires
        f.comment is None ==> !stray_line(f, "Comment="@),
    ensures
        has_line_starting(entry_text(f), "Comment="@) <==> f.comment is Some,
{
    lemma_comment_line(f);
}

/// The header is one line, which starts with no `p` that begins otherwise than it does.
proof fn lemma_header_line(p: Seq<char>)
    requires
        p.len() > 0,
    ensures
        terminated("[Desktop Entry]\n"@),
        p[0] != '[' ==> !has_line_starting("[Desktop Entry]\n"@, p),
{
    lemma_literals();
    let head = "[Desktop Entry]"@;
    lemma_lines_of_line(head);
    if has_line_starting("[Desktop Entry]\n"@, p) {
        assert(p.is_prefix_of(head));
        assert(p[0] == head.subrange(0, p.len() as int)[0]);
    }
}

/// A value without a line feed starts no line of its own.
proof fn lemma_no_break(value: Seq<char>, p: Seq<char>)
    requires
        single_line(value),
    ensures
        !breaks_into(value, p),
{
}

} // verus!
