//! The statement and the data that a buffered copy is made with.

use vstd::prelude::*;
use vstd::utf8;

use crate::exec::copy::{
    CopyTarget, CopyTargetView, COPY_FORMAT_CSV, COPY_HEADER_MATCH, COPY_ON_ERROR_IGNORE,
};
use crate::lexing;
use crate::search;
use crate::text;

verus! {

fn quote(s: &str, mark: char) -> (r: Vec<char>)
    ensures
        r@ == lexing::quoted(s@, mark),
{
    let chars = text::chars_of(s);
    let mut r: Vec<char> = Vec::new();
    r.push(mark);
    let mut i: usize = 0;
    assert(chars@.skip(0) =~= chars@);
    while i < chars.len()
        invariant
            i <= chars.len(),
            seq![mark] + lexing::doubled(chars@, mark) == r@ + lexing::doubled(
                chars@.skip(i as int),
                mark,
            ),
        decreases chars.len() - i,
    {
        let ghost before = r@;
        let ghost rest = chars@.skip(i as int);
        let c = chars[i];
        assert(rest[0] == c);
        assert(rest.skip(1) =~= chars@.skip(i + 1));
        let ghost more = lexing::doubled(rest.skip(1), mark);
        r.push(c);
        if c == mark {
            r.push(c);
            assert(r@ + more =~= before + (seq![mark, mark] + more));
        } else {
            assert(r@ + more =~= before + (seq![c] + more));
        }
        i += 1;
    }
    assert(lexing::doubled(chars@.skip(i as int), mark) =~= seq![]);
    assert(r@ =~= r@ + lexing::doubled(chars@.skip(i as int), mark));
    r.push(mark);
    assert(r@ =~= lexing::quoted(s@, mark));
    r
}

/// A name as an identifier of a statement.
pub fn quote_sql_ident(value: &str) -> (r: Vec<char>)
    ensures
        r@ == lexing::quoted(value@, '"'),
        lexing::name_of(r@) == value@,
{
    proof {
        lexing::a_quoted_name_is_kept(value@);
    }
    quote(value, '"')
}

/// A text as a string literal of a statement.
pub fn quote_sql_literal(value: &str) -> (r: Vec<char>)
    ensures
        r@ == lexing::quoted(value@, '\''),
        lexing::string_of_literal(r@) == Some(value@),
{
    proof {
        lexing::quotes_come_off(value@, '\'');
    }
    quote(value, '\'')
}

impl CopyTargetView {
    /// The list of columns that a copy names, where it names some.
    pub open spec fn column_list(self) -> Seq<char> {
        if self.column_names.len() == 0 {
            seq![]
        } else {
            " ("@ + text::joined(
                Seq::new(
                    self.column_names.len(),
                    |i: int| lexing::quoted(self.column_names[i], '"'),
                ),
                ", "@,
            ) + ")"@
        }
    }

    pub open spec fn header_option(self) -> Seq<Seq<char>> {
        if self.header_line == COPY_HEADER_MATCH {
            seq!["HEADER MATCH"@]
        } else if self.header_line > 0 {
            seq!["HEADER "@ + text::decimal_int(self.header_line as int)]
        } else {
            seq![]
        }
    }

    /// The options that say how the data is written, in order.
    pub open spec fn options(self) -> Seq<Seq<char>> {
        let format = if self.format == COPY_FORMAT_CSV {
            "FORMAT csv"@
        } else {
            "FORMAT text"@
        };
        let default_print = match self.default_print {
            Some(s) => seq!["DEFAULT "@ + lexing::quoted(s, '\'')],
            None => seq![],
        };
        let on_error = if self.on_error == COPY_ON_ERROR_IGNORE {
            seq!["ON_ERROR ignore"@]
        } else {
            seq![]
        };
        let freeze = if self.freeze {
            seq!["FREEZE true"@]
        } else {
            seq![]
        };
        seq![format] + self.header_option() + seq![
            "DELIMITER "@ + lexing::quoted(self.delimiter, '\''),
        ] + seq!["NULL "@ + lexing::quoted(self.null_print, '\'')] + default_print + on_error
            + freeze
    }

    /// The statement that copies from a file.
    pub open spec fn file_sql(self, path: Seq<char>) -> Seq<char> {
        "COPY "@ + lexing::quoted(self.table, '"') + self.column_list() + " FROM "@
            + lexing::quoted(path, '\'') + " WITH ("@ + text::joined(self.options(), ", "@) + ")"@
    }
}

fn copy_columns(target: &CopyTarget) -> (r: Vec<char>)
    ensures
        r@ == target@.column_list(),
{
    let mut names: Vec<Vec<char>> = Vec::new();
    let mut i: usize = 0;
    while i < target.column_names.len()
        invariant
            i <= target.column_names.len(),
            names@.len() == i,
            forall|j: int|
                0 <= j < i ==> (#[trigger] names@[j])@ == lexing::quoted(
                    target@.column_names[j],
                    '"',
                ),
        decreases target.column_names.len() - i,
    {
        names.push(quote_sql_ident(target.column_names[i].as_str()));
        i += 1;
    }
    let mut r: Vec<char> = Vec::new();
    if target.column_names.len() > 0 {
        text::push_text(&mut r, " (");
        text::push_all(&mut r, &text::join(&names, ", "));
        text::push_text(&mut r, ")");
        assert(text::all_chars(names@) =~= Seq::new(
            target@.column_names.len(),
            |i: int| lexing::quoted(target@.column_names[i], '"'),
        ));
        let empty: Ghost<Seq<char>> = Ghost(Seq::empty());
        assert(empty@ + " ("@ =~= " ("@);
    }
    r
}

fn option_with(name: &str, value: &str) -> (r: Vec<char>)
    ensures
        r@ == name@ + lexing::quoted(value@, '\''),
{
    let mut r = text::chars_of(name);
    text::push_all(&mut r, &quote_sql_literal(value));
    r
}

fn copy_options(target: &CopyTarget) -> (r: Vec<Vec<char>>)
    ensures
        search::views(r@) == target@.options(),
{
    let mut r: Vec<Vec<char>> = Vec::new();
    if target.format == COPY_FORMAT_CSV {
        r.push(text::chars_of("FORMAT csv"));
    } else {
        r.push(text::chars_of("FORMAT text"));
    }
    if target.header_line == COPY_HEADER_MATCH {
        r.push(text::chars_of("HEADER MATCH"));
    } else if target.header_line > 0 {
        let mut option = text::chars_of("HEADER ");
        text::push_all(&mut option, &text::format_int(target.header_line as i64));
        r.push(option);
    }
    r.push(option_with("DELIMITER ", target.delimiter.as_str()));
    r.push(option_with("NULL ", target.null_print.as_str()));
    if let Some(default_print) = &target.default_print {
        r.push(option_with("DEFAULT ", default_print.as_str()));
    }
    if target.on_error == COPY_ON_ERROR_IGNORE {
        r.push(text::chars_of("ON_ERROR ignore"));
    }
    if target.freeze {
        r.push(text::chars_of("FREEZE true"));
    }
    assert(search::views(r@) =~= target@.options());
    r
}

/// The statement that copies from a file into a target.
pub fn copy_from_file_sql(target: &CopyTarget, path: &str) -> (r: String)
    ensures
        r@ == target@.file_sql(path@),
{
    let mut sql = text::chars_of("COPY ");
    text::push_all(&mut sql, &quote_sql_ident(target.table.as_str()));
    text::push_all(&mut sql, &copy_columns(target));
    text::push_text(&mut sql, " FROM ");
    text::push_all(&mut sql, &quote_sql_literal(path));
    text::push_text(&mut sql, " WITH (");
    text::push_all(&mut sql, &text::join(&copy_options(target), ", "));
    text::push_text(&mut sql, ")");
    text::string_of(&sql)
}

/// The bytes of some lines, each of which ends with a line feed.
pub open spec fn line_bytes(lines: Seq<Seq<char>>) -> Seq<u8>
    decreases lines.len(),
{
    if lines.len() == 0 {
        seq![]
    } else {
        line_bytes(lines.drop_last()) + utf8::encode_utf8(lines.last()) + seq![10u8]
    }
}

pub open spec fn line_views(lines: Seq<&str>) -> Seq<Seq<char>> {
    Seq::new(lines.len(), |i: int| lines[i]@)
}

/// The bytes of some lines, each of which ends with a line feed.
pub fn copy_lines_to_bytes(lines: &[&str]) -> (r: Vec<u8>)
    ensures
        r@ == line_bytes(line_views(lines@)),
{
    let ghost all = line_views(lines@);
    let mut data: Vec<u8> = Vec::new();
    let mut i: usize = 0;
    assert(all.take(0) =~= seq![]);
    while i < lines.len()
        invariant
            i <= lines.len(),
            all == line_views(lines@),
            data@ == line_bytes(all.take(i as int)),
        decreases lines.len() - i,
    {
        let bytes = lines[i].as_bytes();
        data.extend_from_slice(bytes);
        data.push(10);
        assert(all.take(i + 1).drop_last() =~= all.take(i as int));
        assert(data@ =~= line_bytes(all.take(i + 1)));
        i += 1;
    }
    assert(all.take(i as int) =~= all);
    data
}

/// How many of some lines are data: those behind the header.
pub open spec fn data_lines(target: CopyTargetView, lines: int) -> int {
    if lines <= target.header_lines() {
        0
    } else {
        lines - target.header_lines()
    }
}

pub fn count_data_lines(target: &CopyTarget, lines: usize) -> (r: usize)
    ensures
        r == data_lines(target@, lines as int),
{
    let skipped = target.header_lines_to_skip();
    if skipped < lines {
        lines - skipped
    } else {
        0
    }
}

} // verus!
