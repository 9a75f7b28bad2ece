//! The fields of a line of copied data, in the text and in the CSV format.

use vstd::prelude::*;

use crate::lexing;
use crate::search;
use crate::text;

verus! {

/// The first character of a delimiter, or the one that stands where none was
/// given.
pub open spec fn delimiter_of(delimiter: Seq<char>, default: char) -> char {
    if delimiter.len() > 0 {
        delimiter[0]
    } else {
        default
    }
}

pub fn delimiter_char(delimiter: &str, default: char) -> (r: char)
    ensures
        r == delimiter_of(delimiter@, default),
{
    let chars = text::chars_of(delimiter);
    if chars.len() > 0 {
        chars[0]
    } else {
        default
    }
}

/// What stands between the delimiters: one field more than there are of them.
pub open spec fn text_fields(line: Seq<char>, delimiter: char) -> Seq<Seq<char>>
    decreases line.len(),
{
    match lexing::find_char(line, delimiter) {
        Some(i) => if 0 <= i < line.len() {
            seq![line.take(i)] + text_fields(line.skip(i + 1), delimiter)
        } else {
            seq![line]
        },
        None => seq![line],
    }
}

pub fn split_copy_text_fields(line: &Vec<char>, delimiter: char) -> (r: Vec<Vec<char>>)
    ensures
        search::views(r@) == text_fields(line@, delimiter),
{
    let mut fields: Vec<Vec<char>> = Vec::new();
    let mut rest = text::slice_of(line, 0, line.len());
    assert(rest@ =~= line@);
    assert(search::views(fields@) + text_fields(rest@, delimiter) =~= text_fields(
        line@,
        delimiter,
    ));
    loop
        invariant
            search::views(fields@) + text_fields(rest@, delimiter) == text_fields(
                line@,
                delimiter,
            ),
        decreases rest@.len(),
    {
        let ghost before = search::views(fields@);
        match lexing::position_of(&rest, delimiter) {
            Some(i) => {
                let field = text::slice_of(&rest, 0, i);
                let more = text::slice_of(&rest, i + 1, rest.len());
                assert(field@ =~= rest@.take(i as int));
                assert(more@ =~= rest@.skip(i + 1));
                fields.push(field);
                assert(search::views(fields@) =~= before.push(field@));
                assert(search::views(fields@) + text_fields(more@, delimiter) =~= before + (
                seq![field@] + text_fields(more@, delimiter)));
                rest = more;
            },
            None => {
                fields.push(rest);
                assert(search::views(fields@) =~= before + seq![rest@]);
                return fields;
            },
        }
    }
}

/// The fields of a line are never none, no field holds the delimiter, and the
/// fields with the delimiter between them are the line.
pub proof fn text_fields_make_the_line(line: Seq<char>, delimiter: char)
    ensures
        text_fields(line, delimiter).len() > 0,
        forall|i: int|
            0 <= i < text_fields(line, delimiter).len() ==> !(#[trigger] text_fields(
                line,
                delimiter,
            )[i]).contains(delimiter),
        text::joined(text_fields(line, delimiter), seq![delimiter]) == line,
    decreases line.len(),
{
    let fields = text_fields(line, delimiter);
    search::first_index_is_first(line, lexing::is_char(delimiter));
    match lexing::find_char(line, delimiter) {
        Some(i) => {
            let rest = line.skip(i + 1);
            let others = text_fields(rest, delimiter);
            text_fields_make_the_line(rest, delimiter);
            lemma_joined_from_the_left(line.take(i), others, seq![delimiter]);
            assert(fields =~= seq![line.take(i)] + others);
            assert forall|j: int| 0 <= j < fields.len() implies !(
            #[trigger] fields[j]).contains(delimiter) by {
                if j > 0 {
                    assert(fields[j] == others[j - 1]);
                } else {
                    assert forall|k: int| 0 <= k < i implies line.take(i)[k] != delimiter by {
                        assert(!lexing::is_char(delimiter)(line[k]));
                    }
                }
            }
            assert(line.take(i) + seq![delimiter] + rest =~= line);
        },
        None => {
            assert(fields =~= seq![line]);
            assert forall|k: int| 0 <= k < line.len() implies line[k] != delimiter by {
                assert(!lexing::is_char(delimiter)(line[k]));
            }
        },
    }
}

pub(crate) proof fn lemma_joined_from_the_left(
    first: Seq<char>,
    others: Seq<Seq<char>>,
    separator: Seq<char>,
)
    requires
        others.len() > 0,
    ensures
        text::joined(seq![first] + others, separator) == first + separator + text::joined(
            others,
            separator,
        ),
    decreases others.len(),
{
    let all = seq![first] + others;
    if others.len() == 1 {
        assert(all.drop_last() =~= seq![first]);
        assert(text::joined(all.drop_last(), separator) == first);
    } else {
        lemma_joined_from_the_left(first, others.drop_last(), separator);
        assert(all.drop_last() =~= seq![first] + others.drop_last());
        let left = text::joined(others.drop_last(), separator);
        assert(first + separator + left + separator + others.last() =~= first + separator + (left
            + separator + others.last()));
    }
}

/// Fields that hold no delimiter are split again once they are put in a line.
pub proof fn joined_fields_are_split_again(fields: Seq<Seq<char>>, delimiter: char)
    requires
        fields.len() > 0,
        forall|i: int| 0 <= i < fields.len() ==> !(#[trigger] fields[i]).contains(delimiter),
    ensures
        text_fields(text::joined(fields, seq![delimiter]), delimiter) == fields,
    decreases fields.len(),
{
    let line = text::joined(fields, seq![delimiter]);
    let first = fields[0];
    let others = fields.skip(1);
    assert(!first.contains(delimiter));
    assert(fields =~= seq![first] + others);
    if others.len() == 0 {
        assert(line == first);
        assert forall|k: int| 0 <= k < line.len() implies !lexing::is_char(delimiter)(
            #[trigger] line[k],
        ) by {
            assert(first.contains(first[k]));
        }
        search::first_index_none(line, lexing::is_char(delimiter));
        assert(seq![line] =~= fields);
    } else {
        lemma_joined_from_the_left(first, others, seq![delimiter]);
        let n = first.len() as int;
        assert(line[n] == delimiter);
        assert forall|k: int| 0 <= k < n implies !lexing::is_char(delimiter)(
            #[trigger] line[k],
        ) by {
            assert(line[k] == first[k]);
            assert(first.contains(first[k]));
        }
        search::first_index_at(line, lexing::is_char(delimiter), n);
        assert(line.take(n) =~= first);
        assert(line.skip(n + 1) =~= text::joined(others, seq![delimiter]));
        assert forall|i: int| 0 <= i < others.len() implies !(
        #[trigger] others[i]).contains(delimiter) by {
            assert(others[i] == fields[i + 1]);
        }
        joined_fields_are_split_again(others, delimiter);
    }
}

/// The fields of a line in the CSV format, from a place on, where the field
/// that is being read holds `field` so far. A field that starts with a quote
/// runs to the quote that no second one follows, and a pair of quotes in it is
/// one. There are none if the line ends inside quotes.
pub open spec fn csv_from(
    line: Seq<char>,
    delimiter: char,
    i: int,
    field: Seq<char>,
    in_quotes: bool,
) -> Option<Seq<Seq<char>>>
    decreases line.len() - i,
{
    if i < 0 || i >= line.len() {
        if in_quotes {
            None
        } else {
            Some(seq![field])
        }
    } else if in_quotes {
        if line[i] == '"' && i + 1 < line.len() && line[i + 1] == '"' {
            csv_from(line, delimiter, i + 2, field.push('"'), true)
        } else if line[i] == '"' {
            csv_from(line, delimiter, i + 1, field, false)
        } else {
            csv_from(line, delimiter, i + 1, field.push(line[i]), true)
        }
    } else if line[i] == delimiter {
        match csv_from(line, delimiter, i + 1, seq![], false) {
            Some(rest) => Some(seq![field] + rest),
            None => None,
        }
    } else if line[i] == '"' && field.len() == 0 {
        csv_from(line, delimiter, i + 1, field, true)
    } else {
        csv_from(line, delimiter, i + 1, field.push(line[i]), false)
    }
}

pub open spec fn csv_fields(line: Seq<char>, delimiter: char) -> Option<Seq<Seq<char>>> {
    csv_from(line, delimiter, 0, seq![], false)
}

pub open spec fn behind(
    done: Seq<Seq<char>>,
    rest: Option<Seq<Seq<char>>>,
) -> Option<Seq<Seq<char>>> {
    match rest {
        Some(rest) => Some(done + rest),
        None => None,
    }
}

/// The fields of a line in the CSV format, or nothing where the line ends inside
/// quotes.
pub fn parse_copy_csv_fields(line: &Vec<char>, delimiter: char) -> (r: Option<Vec<Vec<char>>>)
    ensures
        match r {
            Some(fields) => csv_fields(line@, delimiter) == Some(search::views(fields@)),
            None => csv_fields(line@, delimiter) is None,
        },
{
    let mut fields: Vec<Vec<char>> = Vec::new();
    let mut field: Vec<char> = Vec::new();
    let mut in_quotes = false;
    let mut i: usize = 0;
    assert(search::views(fields@) =~= seq![]);
    assert(csv_fields(line@, delimiter) == behind(
        search::views(fields@),
        csv_from(line@, delimiter, 0, field@, false),
    )) by {
        match csv_fields(line@, delimiter) {
            Some(all) => {
                assert(search::views(fields@) + all =~= all);
            },
            None => {},
        }
    }
    while i < line.len()
        invariant
            i <= line.len(),
            csv_fields(line@, delimiter) == behind(
                search::views(fields@),
                csv_from(line@, delimiter, i as int, field@, in_quotes),
            ),
        decreases line.len() - i,
    {
        let ch = line[i];
        if in_quotes {
            if ch == '"' && i < line.len() - 1 && line[i + 1] == '"' {
                field.push('"');
                i += 2;
            } else if ch == '"' {
                in_quotes = false;
                i += 1;
            } else {
                field.push(ch);
                i += 1;
            }
        } else if ch == delimiter {
            let ghost before = search::views(fields@);
            let ghost rest = csv_from(line@, delimiter, i + 1, seq![], false);
            fields.push(field);
            assert(search::views(fields@) =~= before.push(field@));
            assert(behind(search::views(fields@), rest) == behind(
                before,
                behind(seq![field@], rest),
            )) by {
                match rest {
                    Some(more) => {
                        assert(before.push(field@) + more =~= before + (seq![field@] + more));
                    },
                    None => {},
                }
            }
            field = Vec::new();
            assert(field@ =~= seq![]);
            i += 1;
        } else if ch == '"' && field.len() == 0 {
            in_quotes = true;
            i += 1;
        } else {
            field.push(ch);
            i += 1;
        }
    }
    if in_quotes {
        return None;
    }
    let ghost before = search::views(fields@);
    fields.push(field);
    assert(search::views(fields@) =~= before + seq![field@]);
    Some(fields)
}

/// A line in the CSV format with every field between quotes.
pub open spec fn csv_line(fields: Seq<Seq<char>>, delimiter: char) -> Seq<char> {
    text::joined(
        Seq::new(fields.len(), |i: int| lexing::quoted(fields[i], '"')),
        seq![delimiter],
    )
}

pub(crate) proof fn lemma_quoted_field_is_read(
    line: Seq<char>,
    delimiter: char,
    i: int,
    field: Seq<char>,
    rest: Seq<char>,
)
    requires
        0 <= i,
        i + lexing::doubled(rest, '"').len() < line.len(),
        line.subrange(i, i + lexing::doubled(rest, '"').len()) == lexing::doubled(rest, '"'),
        line[i + lexing::doubled(rest, '"').len()] == '"',
        i + lexing::doubled(rest, '"').len() + 1 < line.len() ==> line[i + lexing::doubled(
            rest,
            '"',
        ).len() + 1] != '"',
    ensures
        csv_from(line, delimiter, i, field, true) == csv_from(
            line,
            delimiter,
            i + lexing::doubled(rest, '"').len() + 1,
            field + rest,
            false,
        ),
    decreases rest.len(),
{
    let written = lexing::doubled(rest, '"');
    if rest.len() == 0 {
        assert(field + rest =~= field);
    } else {
        let others = rest.skip(1);
        let more = lexing::doubled(others, '"');
        let n: int = if rest[0] == '"' {
            2
        } else {
            1
        };
        assert(written.len() == n + more.len());
        assert(line[i] == line.subrange(i, i + written.len())[0]);
        assert(line[i] == rest[0]);
        if n == 2 {
            assert(line[i + 1] == line.subrange(i, i + written.len())[1]);
        }
        assert(line.subrange(i + n, i + n + more.len()) =~= more) by {
            assert forall|k: int| 0 <= k < more.len() implies line[i + n + k] == more[k] by {
                assert(line.subrange(i, i + written.len())[n + k] == written[n + k]);
            }
        }
        lemma_quoted_field_is_read(line, delimiter, i + n, field.push(rest[0]), others);
        assert(field.push(rest[0]) + others =~= field + rest);
    }
}

proof fn lemma_csv_line_is_read(
    line: Seq<char>,
    delimiter: char,
    i: int,
    fields: Seq<Seq<char>>,
)
    requires
        delimiter != '"',
        fields.len() > 0,
        0 <= i <= line.len(),
        line.skip(i) == csv_line(fields, delimiter),
    ensures
        csv_from(line, delimiter, i, seq![], false) == Some(fields),
    decreases fields.len(),
{
    let tail = line.skip(i);
    let first = fields[0];
    let others = fields.skip(1);
    let all = Seq::new(fields.len(), |k: int| lexing::quoted(fields[k], '"'));
    let rest = Seq::new(others.len(), |k: int| lexing::quoted(others[k], '"'));
    let written = lexing::doubled(first, '"');
    let head = lexing::quoted(first, '"');
    assert(all =~= seq![head] + rest);
    if others.len() > 0 {
        lemma_joined_from_the_left(head, rest, seq![delimiter]);
        assert(tail =~= head + (seq![delimiter] + csv_line(others, delimiter)));
    } else {
        assert(all =~= seq![head]);
        assert(tail == head);
    }
    assert(tail.take(head.len() as int) =~= head);
    assert forall|k: int| 0 <= k < head.len() implies line[i + k] == head[k] by {
        assert(line[i + k] == tail[k]);
        assert(tail.take(head.len() as int)[k] == head[k]);
    }
    assert(line[i] == head[0]);
    assert(line.subrange(i + 1, i + 1 + written.len()) =~= written) by {
        assert forall|k: int| 0 <= k < written.len() implies line[i + 1 + k] == written[k] by {
            assert(line[i + (1 + k)] == head[1 + k]);
        }
    }
    assert(line[i + (1 + written.len())] == head[1 + written.len() as int]);
    if others.len() > 0 {
        assert(tail[head.len() as int] == delimiter);
        assert(line[i + head.len()] == tail[head.len() as int]);
    }
    let empty: Seq<char> = seq![];
    lemma_quoted_field_is_read(line, delimiter, i + 1, empty, first);
    assert(empty + first =~= first);
    let next = i + head.len();
    assert(csv_from(line, delimiter, i, empty, false) == csv_from(
        line,
        delimiter,
        next,
        first,
        false,
    ));
    if others.len() > 0 {
        assert(line.skip(next + 1) =~= csv_line(others, delimiter)) by {
            assert(tail.skip((head.len() + 1) as int) =~= csv_line(others, delimiter));
        }
        lemma_csv_line_is_read(line, delimiter, next + 1, others);
        assert(seq![first] + others =~= fields);
    } else {
        assert(seq![first] =~= fields);
    }
}

/// Any fields are read back from a line in the CSV format that has them between
/// quotes, whatever they hold.
pub proof fn quoted_csv_fields_are_read_back(fields: Seq<Seq<char>>, delimiter: char)
    requires
        delimiter != '"',
        fields.len() > 0,
    ensures
        csv_fields(csv_line(fields, delimiter), delimiter) == Some(fields),
{
    let line = csv_line(fields, delimiter);
    assert(line.skip(0) =~= line);
    lemma_csv_line_is_read(line, delimiter, 0, fields);
}

/// The character that a letter behind a backslash stands for.
pub open spec fn unescaped(c: char) -> char {
    if c == 'b' {
        '\u{0008}'
    } else if c == 'f' {
        '\u{000c}'
    } else if c == 'n' {
        '\n'
    } else if c == 'r' {
        '\r'
    } else if c == 't' {
        '\t'
    } else {
        c
    }
}

/// A field of the text format with its escapes resolved. A backslash at the end
/// stands for itself.
pub open spec fn decoded(field: Seq<char>) -> Seq<char>
    decreases field.len(),
{
    if field.len() == 0 {
        seq![]
    } else if field[0] != '\\' {
        seq![field[0]] + decoded(field.skip(1))
    } else if field.len() == 1 {
        seq!['\\']
    } else {
        seq![unescaped(field[1])] + decoded(field.skip(2))
    }
}

pub fn decode_copy_text_field(field: &Vec<char>) -> (r: Vec<char>)
    ensures
        r@ == decoded(field@),
{
    let mut r: Vec<char> = Vec::new();
    let mut i: usize = 0;
    let total = field.len();
    assert(field@.skip(0) =~= field@);
    assert(r@ + decoded(field@) =~= decoded(field@));
    while i < total
        invariant
            total == field@.len(),
            i <= total,
            r@ + decoded(field@.skip(i as int)) == decoded(field@),
        decreases total - i,
    {
        let ghost rest = field@.skip(i as int);
        let ghost before = r@;
        let ch = field[i];
        assert(rest[0] == ch);
        if ch != '\\' {
            r.push(ch);
            assert(rest.skip(1) =~= field@.skip(i + 1));
            assert(r@ + decoded(rest.skip(1)) =~= before + (seq![ch] + decoded(rest.skip(1))));
            i += 1;
        } else if i == total - 1 {
            r.push('\\');
            assert(r@ =~= before + seq!['\\']);
            return r;
        } else {
            let next = field[i + 1];
            assert(rest[1] == next);
            let meant = match next {
                'b' => '\u{0008}',
                'f' => '\u{000c}',
                'n' => '\n',
                'r' => '\r',
                't' => '\t',
                other => other,
            };
            r.push(meant);
            assert(rest.skip(2) =~= field@.skip(i + 2));
            assert(r@ + decoded(rest.skip(2)) =~= before + (seq![meant] + decoded(rest.skip(2))));
            i += 2;
        }
    }
    assert(decoded(field@.skip(i as int)) =~= seq![]);
    assert(r@ =~= r@ + decoded(field@.skip(i as int)));
    r
}

/// A field as it is written in the text format: with a backslash in front of
/// each backslash and letters for the characters that end a field or a line.
pub open spec fn encoded(field: Seq<char>) -> Seq<char>
    decreases field.len(),
{
    if field.len() == 0 {
        seq![]
    } else {
        let c = field[0];
        let written = if c == '\\' {
            seq!['\\', '\\']
        } else if c == '\n' {
            seq!['\\', 'n']
        } else if c == '\r' {
            seq!['\\', 'r']
        } else if c == '\t' {
            seq!['\\', 't']
        } else {
            seq![c]
        };
        written + encoded(field.skip(1))
    }
}

/// Any text is read back from its form in the text format.
pub proof fn decoding_undoes_encoding(field: Seq<char>)
    ensures
        decoded(encoded(field)) == field,
        !encoded(field).contains('\t'),
        !encoded(field).contains('\n'),
        !encoded(field).contains('\r'),
    decreases field.len(),
{
    if field.len() > 0 {
        let c = field[0];
        let rest = encoded(field.skip(1));
        let whole = encoded(field);
        decoding_undoes_encoding(field.skip(1));
        if c == '\\' || c == '\n' || c == '\r' || c == '\t' {
            assert(whole.skip(2) =~= rest);
            assert(whole[0] == '\\');
        } else {
            assert(whole.skip(1) =~= rest);
            assert(whole[0] == c);
        }
        assert(decoded(whole) =~= seq![c] + decoded(rest));
        assert(seq![c] + field.skip(1) =~= field);
        assert forall|i: int| 0 <= i < whole.len() implies whole[i] != '\t' && whole[i] != '\n'
            && whole[i] != '\r' by {
            let n = whole.len() - rest.len();
            if i >= n {
                assert(whole[i] == rest[i - n]);
                assert(rest.contains(rest[i - n]));
            }
        }
    }
}

} // verus!
