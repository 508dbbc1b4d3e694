//! A verified JSON writer for the report shapes. The output matches the
//! common machine format: two-space indentation in pretty mode, string
//! escapes for quote, backslash and control characters, and arrays and
//! objects broken over lines exactly when they are non-empty.

use crate::entity::language::{Language, LanguageV};
use crate::entity::language_report::ReportItemV;
use crate::text::{push_char, spec_u64_string, u64_to_string};
use vstd::prelude::*;

verus! {

pub open spec fn spec_hex_char(d: int) -> char {
    if d == 0 {
        '0'
    } else if d == 1 {
        '1'
    } else if d == 2 {
        '2'
    } else if d == 3 {
        '3'
    } else if d == 4 {
        '4'
    } else if d == 5 {
        '5'
    } else if d == 6 {
        '6'
    } else if d == 7 {
        '7'
    } else if d == 8 {
        '8'
    } else if d == 9 {
        '9'
    } else if d == 10 {
        'a'
    } else if d == 11 {
        'b'
    } else if d == 12 {
        'c'
    } else if d == 13 {
        'd'
    } else if d == 14 {
        'e'
    } else {
        'f'
    }
}

fn hex_char(d: u32) -> (c: char)
    requires
        d < 16,
    ensures
        c == spec_hex_char(d as int),
{
    match d {
        0 => '0',
        1 => '1',
        2 => '2',
        3 => '3',
        4 => '4',
        5 => '5',
        6 => '6',
        7 => '7',
        8 => '8',
        9 => '9',
        10 => 'a',
        11 => 'b',
        12 => 'c',
        13 => 'd',
        14 => 'e',
        _ => 'f',
    }
}

/// How one character appears inside a JSON string literal: quote and
/// backslash get a backslash escape, the named control characters get
/// their short escapes, other control characters a `\u00..` escape, and
/// everything else stands for itself.
pub open spec fn spec_escape_char(c: char) -> Seq<char> {
    if c == '"' {
        seq!['\\', '"']
    } else if c == '\\' {
        seq!['\\', '\\']
    } else if c == '\u{8}' {
        seq!['\\', 'b']
    } else if c == '\t' {
        seq!['\\', 't']
    } else if c == '\n' {
        seq!['\\', 'n']
    } else if c == '\u{c}' {
        seq!['\\', 'f']
    } else if c == '\r' {
        seq!['\\', 'r']
    } else if (c as u32) < 32 {
        seq!['\\', 'u', '0', '0', spec_hex_char(c as int / 16), spec_hex_char(c as int % 16)]
    } else {
        seq![c]
    }
}

pub open spec fn spec_escape(s: Seq<char>) -> Seq<char>
    decreases s.len(),
{
    if s.len() == 0 {
        Seq::empty()
    } else {
        spec_escape(s.drop_last()) + spec_escape_char(s.last())
    }
}

/// A JSON string literal: the escaped text between two quotes.
pub open spec fn spec_json_string(s: Seq<char>) -> Seq<char> {
    seq!['"'] + spec_escape(s) + seq!['"']
}

fn append_escaped_char(out: &mut String, c: char)
    ensures
        final(out)@ == old(out)@ + spec_escape_char(c),
{
    let ghost start = out@;
    if c == '"' {
        push_char(out, '\\');
        push_char(out, '"');
    } else if c == '\\' {
        push_char(out, '\\');
        push_char(out, '\\');
    } else if c == '\u{8}' {
        push_char(out, '\\');
        push_char(out, 'b');
    } else if c == '\t' {
        push_char(out, '\\');
        push_char(out, 't');
    } else if c == '\n' {
        push_char(out, '\\');
        push_char(out, 'n');
    } else if c == '\u{c}' {
        push_char(out, '\\');
        push_char(out, 'f');
    } else if c == '\r' {
        push_char(out, '\\');
        push_char(out, 'r');
    } else if (c as u32) < 32 {
        push_char(out, '\\');
        push_char(out, 'u');
        push_char(out, '0');
        push_char(out, '0');
        push_char(out, hex_char((c as u32) / 16));
        push_char(out, hex_char((c as u32) % 16));
    } else {
        push_char(out, c);
    }
    proof {
        assert(out@ =~= start + spec_escape_char(c));
    }
}

pub(crate) fn append_json_string(out: &mut String, s: &str)
    ensures
        final(out)@ == old(out)@ + spec_json_string(s@),
{
    let ghost start = out@;
    push_char(out, '"');
    let n = s.unicode_len();
    let mut i: usize = 0;
    while i < n
        invariant
            n == s@.len(),
            i <= n,
            out@ == start + seq!['"'] + spec_escape(s@.take(i as int)),
        decreases n - i,
    {
        let c = s.get_char(i);
        append_escaped_char(out, c);
        proof {
            assert(s@.take(i as int + 1).drop_last() =~= s@.take(i as int));
            assert(s@.take(i as int + 1).last() == s@[i as int]);
            assert(out@ =~= start + seq!['"'] + spec_escape(s@.take(i as int + 1)));
        }
        i = i + 1;
    }
    push_char(out, '"');
    proof {
        assert(s@.take(n as int) =~= s@);
        assert(out@ =~= start + spec_json_string(s@));
    }
}

/// `n` levels of two-space indentation.
pub open spec fn spec_indent(n: int) -> Seq<char>
    decreases n,
{
    if n <= 0 {
        Seq::empty()
    } else {
        spec_indent(n - 1) + "  "@
    }
}

pub(crate) fn append_indent(out: &mut String, n: usize)
    ensures
        final(out)@ == old(out)@ + spec_indent(n as int),
{
    let ghost start = out@;
    let mut i: usize = 0;
    proof {
        assert(out@ =~= start + spec_indent(0));
    }
    while i < n
        invariant
            i <= n,
            out@ == start + spec_indent(i as int),
        decreases n - i,
    {
        out.append("  ");
        proof {
            assert(out@ =~= start + spec_indent(i as int + 1));
        }
        i = i + 1;
    }
}

fn append_u64(out: &mut String, x: u64)
    ensures
        final(out)@ == old(out)@ + spec_u64_string(x as nat),
{
    let s = u64_to_string(x);
    out.append(s.as_str());
}

/// The elements of a compact JSON array of strings, with their commas.
pub open spec fn spec_strings_compact(v: Seq<Seq<char>>) -> Seq<char>
    decreases v.len(),
{
    if v.len() == 0 {
        Seq::empty()
    } else {
        spec_strings_compact(v.drop_last()) + (if v.len() > 1 {
            ","@
        } else {
            Seq::<char>::empty()
        }) + spec_json_string(v.last())
    }
}

/// A compact JSON array of strings.
pub open spec fn spec_string_array(v: Seq<Seq<char>>) -> Seq<char> {
    "["@ + spec_strings_compact(v) + "]"@
}

fn append_string_array(out: &mut String, v: &Vec<String>)
    ensures
        final(out)@ == old(out)@ + spec_string_array(v.deep_view()),
{
    let ghost start = out@;
    out.append("[");
    let mut i: usize = 0;
    while i < v.len()
        invariant
            i <= v.len(),
            out@ == start + "["@ + spec_strings_compact(v.deep_view().take(i as int)),
        decreases v.len() - i,
    {
        if i > 0 {
            out.append(",");
        }
        append_json_string(out, v[i].as_str());
        proof {
            let dv = v.deep_view();
            assert(dv.take(i as int + 1).drop_last() =~= dv.take(i as int));
            assert(dv.take(i as int + 1).last() == dv[i as int]);
            assert(v@[i as int]@ == dv[i as int]);
            assert(out@ =~= start + "["@ + spec_strings_compact(dv.take(i as int + 1)));
        }
        i = i + 1;
    }
    out.append("]");
    proof {
        assert(v.deep_view().take(v.deep_view().len() as int) =~= v.deep_view());
        assert(out@ =~= start + spec_string_array(v.deep_view()));
    }
}

/// The elements of a pretty JSON array of strings: each on its own line
/// at the given indentation.
pub open spec fn spec_strings_pretty(v: Seq<Seq<char>>, ind: int) -> Seq<char>
    decreases v.len(),
{
    if v.len() == 0 {
        Seq::empty()
    } else {
        spec_strings_pretty(v.drop_last(), ind) + (if v.len() > 1 {
            ",\n"@
        } else {
            Seq::<char>::empty()
        }) + spec_indent(ind) + spec_json_string(v.last())
    }
}

/// A pretty JSON array of strings at indentation level `ind`; empty
/// arrays stay on one line.
pub open spec fn spec_string_array_pretty(v: Seq<Seq<char>>, ind: int) -> Seq<char> {
    if v.len() == 0 {
        "[]"@
    } else {
        "[\n"@ + spec_strings_pretty(v, ind + 1) + "\n"@ + spec_indent(ind) + "]"@
    }
}

fn append_string_array_pretty(out: &mut String, v: &Vec<String>, ind: usize)
    requires
        ind < usize::MAX,
    ensures
        final(out)@ == old(out)@ + spec_string_array_pretty(v.deep_view(), ind as int),
{
    let ghost start = out@;
    if v.len() == 0 {
        out.append("[]");
        return ;
    }
    out.append("[\n");
    let mut i: usize = 0;
    while i < v.len()
        invariant
            v@.len() > 0,
            ind < usize::MAX,
            i <= v.len(),
            out@ == start + "[\n"@ + spec_strings_pretty(v.deep_view().take(i as int), ind as int
                + 1),
        decreases v.len() - i,
    {
        if i > 0 {
            out.append(",\n");
        }
        append_indent(out, ind + 1);
        append_json_string(out, v[i].as_str());
        proof {
            let dv = v.deep_view();
            assert(dv.take(i as int + 1).drop_last() =~= dv.take(i as int));
            assert(dv.take(i as int + 1).last() == dv[i as int]);
            assert(v@[i as int]@ == dv[i as int]);
            assert(out@ =~= start + "[\n"@ + spec_strings_pretty(
                dv.take(i as int + 1),
                ind as int + 1,
            ));
        }
        i = i + 1;
    }
    out.append("\n");
    append_indent(out, ind);
    out.append("]");
    proof {
        assert(v.deep_view().take(v.deep_view().len() as int) =~= v.deep_view());
        assert(out@ =~= start + spec_string_array_pretty(v.deep_view(), ind as int));
    }
}

/// A compact JSON object for a language: its name and its extensions.
pub open spec fn spec_language_json(l: LanguageV) -> Seq<char> {
    "{\"name\":"@ + spec_json_string(l.name) + ",\"exts\":"@ + spec_string_array(l.exts) + "}"@
}

/// The same object in pretty form at indentation level `ind`.
pub open spec fn spec_language_json_pretty(l: LanguageV, ind: int) -> Seq<char> {
    "{\n"@ + spec_indent(ind + 1) + "\"name\": "@ + spec_json_string(l.name) + ",\n"@
        + spec_indent(ind + 1) + "\"exts\": "@ + spec_string_array_pretty(l.exts, ind + 1) + "\n"@
        + spec_indent(ind) + "}"@
}

pub(crate) fn append_language_json(out: &mut String, l: &Language)
    ensures
        final(out)@ == old(out)@ + spec_language_json(l@),
{
    let ghost start = out@;
    out.append("{\"name\":");
    append_json_string(out, l.name.as_str());
    out.append(",\"exts\":");
    append_string_array(out, &l.exts);
    out.append("}");
    proof {
        assert(out@ =~= start + spec_language_json(l@));
    }
}

pub(crate) fn append_language_json_pretty(out: &mut String, l: &Language, ind: usize)
    requires
        ind + 1 < usize::MAX,
    ensures
        final(out)@ == old(out)@ + spec_language_json_pretty(l@, ind as int),
{
    let ghost start = out@;
    out.append("{\n");
    append_indent(out, ind + 1);
    out.append("\"name\": ");
    append_json_string(out, l.name.as_str());
    out.append(",\n");
    append_indent(out, ind + 1);
    out.append("\"exts\": ");
    append_string_array_pretty(out, &l.exts, ind + 1);
    out.append("\n");
    append_indent(out, ind);
    out.append("}");
    proof {
        assert(out@ =~= start + spec_language_json_pretty(l@, ind as int));
    }
}

impl Language {
    /// The language as a compact JSON document.
    pub fn to_json(&self) -> (r: String)
        ensures
            r@ == spec_language_json(self@),
    {
        let mut out = String::new();
        append_language_json(&mut out, self);
        proof {
            assert(out@ =~= spec_language_json(self@));
        }
        out
    }

    /// The language as a pretty-printed JSON document.
    pub fn to_json_pretty(&self) -> (r: String)
        ensures
            r@ == spec_language_json_pretty(self@, 0),
    {
        let mut out = String::new();
        append_language_json_pretty(&mut out, self, 0);
        proof {
            assert(out@ =~= spec_language_json_pretty(self@, 0));
        }
        out
    }
}

/// The first half of a pretty item object: its language and file count.
pub open spec fn spec_item_json_head(it: ReportItemV, ind: int) -> Seq<char> {
    "{\n"@ + spec_indent(ind + 1) + "\"language\": "@ + spec_language_json_pretty(
        it.language,
        ind + 1,
    ) + ",\n"@ + spec_indent(ind + 1) + "\"file_count\": "@ + spec_u64_string(
        it.file_count as nat,
    )
}

/// A pretty JSON object for one report item at indentation level `ind`.
pub open spec fn spec_item_json(it: ReportItemV, ind: int) -> Seq<char> {
    spec_item_json_head(it, ind) + ",\n"@ + spec_indent(ind + 1) + "\"file_paths\": "@
        + spec_string_array_pretty(it.file_paths, ind + 1) + "\n"@ + spec_indent(ind) + "}"@
}

/// Writes one item from its parts, so that every report shape can share
/// this writer.
#[verifier::rlimit(100)]
pub(crate) fn append_item_json(
    out: &mut String,
    language: &Language,
    file_count: u64,
    file_paths: &Vec<String>,
    ind: usize,
)
    requires
        ind + 2 < usize::MAX,
    ensures
        final(out)@ == old(out)@ + spec_item_json(
            ReportItemV {
                language: language@,
                file_count: file_count as int,
                file_paths: file_paths.deep_view(),
            },
            ind as int,
        ),
{
    let ghost start = out@;
    let ghost itv = ReportItemV {
        language: language@,
        file_count: file_count as int,
        file_paths: file_paths.deep_view(),
    };
    out.append("{\n");
    append_indent(out, ind + 1);
    out.append("\"language\": ");
    append_language_json_pretty(out, language, ind + 1);
    out.append(",\n");
    append_indent(out, ind + 1);
    out.append("\"file_count\": ");
    append_u64(out, file_count);
    proof {
        assert(out@ =~= start + spec_item_json_head(itv, ind as int));
    }
    out.append(",\n");
    append_indent(out, ind + 1);
    out.append("\"file_paths\": ");
    append_string_array_pretty(out, file_paths, ind + 1);
    out.append("\n");
    append_indent(out, ind);
    out.append("}");
    proof {
        assert(out@ =~= start + spec_item_json(itv, ind as int));
    }
}

/// The elements of the pretty items array, each at indentation `ind`.
pub open spec fn spec_items_pretty(items: Seq<ReportItemV>, ind: int) -> Seq<char>
    decreases items.len(),
{
    if items.len() == 0 {
        Seq::empty()
    } else {
        spec_items_pretty(items.drop_last(), ind) + (if items.len() > 1 {
            ",\n"@
        } else {
            Seq::<char>::empty()
        }) + spec_indent(ind) + spec_item_json(items.last(), ind)
    }
}

pub open spec fn spec_items_array(items: Seq<ReportItemV>, ind: int) -> Seq<char> {
    if items.len() == 0 {
        "[]"@
    } else {
        "[\n"@ + spec_items_pretty(items, ind + 1) + "\n"@ + spec_indent(ind) + "]"@
    }
}

/// The whole report as a pretty JSON document.
pub open spec fn spec_report_json(
    dir: Seq<char>,
    total_file_count: int,
    items: Seq<ReportItemV>,
) -> Seq<char> {
    "{\n"@ + spec_indent(1) + "\"dir\": "@ + spec_json_string(dir) + ",\n"@ + spec_indent(1)
        + "\"total_file_count\": "@ + spec_u64_string(total_file_count as nat) + ",\n"@
        + spec_indent(1) + "\"languages\": "@ + spec_items_array(items, 1) + "\n}"@
}

} // verus!
