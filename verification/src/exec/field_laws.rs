//! Fields that are written to a line in the CSV format are read back from it.

use vstd::prelude::*;

use crate::exec::fields;
use crate::lexing;
use crate::text;

verus! {

/// A field as it is written: a text between quotes, if there is one, and a text
/// without quotes behind it.
pub struct CsvField {
    pub quoted: Option<Seq<char>>,
    pub bare: Seq<char>,
}

impl CsvField {
    /// The text that the field holds.
    pub open spec fn text(self) -> Seq<char> {
        match self.quoted {
            Some(s) => s + self.bare,
            None => self.bare,
        }
    }

    pub open spec fn written(self) -> Seq<char> {
        match self.quoted {
            Some(s) => lexing::quoted(s, '"') + self.bare,
            None => self.bare,
        }
    }

    /// Whether what is written without quotes holds neither a quote nor the
    /// delimiter, and a quote that is written is not the delimiter.
    pub open spec fn can_be_written(self, delimiter: char) -> bool {
        &&& !self.bare.contains('"')
        &&& !self.bare.contains(delimiter)
        &&& self.quoted is Some ==> delimiter != '"'
    }
}

/// A line of fields as they are written, with the delimiter between them.
pub open spec fn line_of(list: Seq<CsvField>, delimiter: char) -> Seq<char> {
    text::joined(Seq::new(list.len(), |i: int| list[i].written()), seq![delimiter])
}

pub open spec fn texts_of(list: Seq<CsvField>) -> Seq<Seq<char>> {
    Seq::new(list.len(), |i: int| list[i].text())
}

proof fn lemma_bare(line: Seq<char>, delimiter: char, i: int, field: Seq<char>, bare: Seq<char>)
    requires
        0 <= i,
        i + bare.len() <= line.len(),
        line.subrange(i, i + bare.len()) == bare,
        !bare.contains('"'),
        !bare.contains(delimiter),
    ensures
        fields::csv_from(line, delimiter, i, field, false) == fields::csv_from(
            line,
            delimiter,
            i + bare.len(),
            field + bare,
            false,
        ),
    decreases bare.len(),
{
    if bare.len() == 0 {
        assert(field + bare =~= field);
    } else {
        let rest = bare.skip(1);
        assert(line[i] == line.subrange(i, i + bare.len())[0]);
        assert(bare.contains(bare[0]));
        assert forall|c: char| !bare.contains(c) implies !rest.contains(c) by {
            if rest.contains(c) {
                let k = choose|k: int| 0 <= k < rest.len() && rest[k] == c;
                assert(bare[k + 1] == c);
            }
        }
        assert(line.subrange(i + 1, i + 1 + rest.len()) =~= rest) by {
            assert forall|k: int| 0 <= k < rest.len() implies line[i + 1 + k] == rest[k] by {
                assert(line.subrange(i, i + bare.len())[k + 1] == bare[k + 1]);
            }
        }
        lemma_bare(line, delimiter, i + 1, field.push(bare[0]), rest);
        assert(field.push(bare[0]) + rest =~= field + bare);
    }
}

/// A field is read up to its end.
proof fn lemma_field(line: Seq<char>, delimiter: char, i: int, field: CsvField)
    requires
        field.can_be_written(delimiter),
        0 <= i,
        i + field.written().len() <= line.len(),
        line.subrange(i, i + field.written().len()) == field.written(),
        i + field.written().len() < line.len() ==> line[i + field.written().len()] == delimiter,
    ensures
        fields::csv_from(line, delimiter, i, seq![], false) == fields::csv_from(
            line,
            delimiter,
            i + field.written().len(),
            field.text(),
            false,
        ),
{
    let all = field.written();
    let empty: Seq<char> = seq![];
    let here = line.subrange(i, i + all.len());
    match field.quoted {
        Some(s) => {
            let inner = lexing::doubled(s, '"');
            let n = inner.len();
            assert(all.len() == n + 2 + field.bare.len());
            assert(line[i] == here[0]);
            assert(line[i + 1 + n] == here[1 + n as int]);
            assert(line.subrange(i + 1, i + 1 + n) =~= inner) by {
                assert forall|k: int| 0 <= k < n implies line[i + 1 + k] == inner[k] by {
                    assert(here[1 + k] == all[1 + k]);
                }
            }
            if i + 2 + n < line.len() && field.bare.len() > 0 {
                assert(line[i + 2 + n] == here[2 + n as int]);
                assert(field.bare.contains(field.bare[0]));
            }
            fields::lemma_quoted_field_is_read(line, delimiter, i + 1, empty, s);
            assert(empty + s =~= s);
            assert(line.subrange(i + 2 + n, i + 2 + n + field.bare.len()) =~= field.bare) by {
                assert forall|k: int| 0 <= k < field.bare.len() implies line[i + 2 + n + k]
                    == field.bare[k] by {
                    assert(here[2 + n + k] == all[2 + n + k]);
                }
            }
            lemma_bare(line, delimiter, i + 2 + n, s, field.bare);
        },
        None => {
            lemma_bare(line, delimiter, i, empty, field.bare);
            assert(empty + field.bare =~= field.bare);
        },
    }
}

proof fn lemma_line(line: Seq<char>, delimiter: char, i: int, list: Seq<CsvField>)
    requires
        list.len() > 0,
        forall|k: int| 0 <= k < list.len() ==> (#[trigger] list[k]).can_be_written(delimiter),
        0 <= i <= line.len(),
        line.skip(i) == line_of(list, delimiter),
    ensures
        fields::csv_from(line, delimiter, i, seq![], false) == Some(texts_of(list)),
    decreases list.len(),
{
    let tail = line.skip(i);
    let first = list[0];
    let others = list.skip(1);
    let head = first.written();
    let all = Seq::new(list.len(), |k: int| list[k].written());
    let rest = Seq::new(others.len(), |k: int| others[k].written());
    assert(all =~= seq![head] + rest);
    if others.len() > 0 {
        fields::lemma_joined_from_the_left(head, rest, seq![delimiter]);
        assert(tail =~= head + (seq![delimiter] + line_of(others, delimiter)));
    } else {
        assert(all =~= seq![head]);
        assert(tail == head);
    }
    assert(tail.take(head.len() as int) =~= head);
    assert(line.subrange(i, i + head.len()) =~= head) by {
        assert forall|k: int| 0 <= k < head.len() implies line[i + k] == head[k] by {
            assert(line[i + k] == tail[k]);
            assert(tail.take(head.len() as int)[k] == head[k]);
        }
    }
    let next = i + head.len();
    if others.len() > 0 {
        assert(tail[head.len() as int] == delimiter);
        assert(line[next] == tail[head.len() as int]);
    }
    lemma_field(line, delimiter, i, first);
    if others.len() > 0 {
        assert(line.skip(next + 1) =~= line_of(others, delimiter)) by {
            assert(tail.skip((head.len() + 1) as int) =~= line_of(others, delimiter));
        }
        assert forall|k: int| 0 <= k < others.len() implies (
        #[trigger] others[k]).can_be_written(delimiter) by {
            assert(others[k] == list[k + 1]);
        }
        lemma_line(line, delimiter, next + 1, others);
        assert(seq![first.text()] + texts_of(others) =~= texts_of(list));
    } else {
        assert(seq![first.text()] =~= texts_of(list));
    }
}

/// Fields are read back from a line in the CSV format, whether they are written
/// between quotes, as they are, or as both one behind the other.
pub proof fn csv_fields_are_read_back(list: Seq<CsvField>, delimiter: char)
    requires
        list.len() > 0,
        forall|k: int| 0 <= k < list.len() ==> (#[trigger] list[k]).can_be_written(delimiter),
    ensures
        fields::csv_fields(line_of(list, delimiter), delimiter) == Some(texts_of(list)),
{
    let line = line_of(list, delimiter);
    assert(line.skip(0) =~= line);
    lemma_line(line, delimiter, 0, list);
}

/// Fields that hold neither the delimiter nor a quote are split again once they
/// are put in a line of the CSV format as they are.
pub proof fn bare_csv_fields_are_split_again(list: Seq<Seq<char>>, delimiter: char)
    requires
        list.len() > 0,
        forall|k: int|
            0 <= k < list.len() ==> !(#[trigger] list[k]).contains(delimiter)
                && !list[k].contains('"'),
    ensures
        fields::csv_fields(text::joined(list, seq![delimiter]), delimiter) == Some(list),
{
    let written = Seq::new(list.len(), |k: int| CsvField { quoted: None, bare: list[k] });
    csv_fields_are_read_back(written, delimiter);
    assert(texts_of(written) =~= list);
    assert(Seq::new(written.len(), |k: int| written[k].written()) =~= list);
}

/// In the text format, what holds no backslash is as it is written, and a
/// backslash with a letter behind it is one character.
pub proof fn escapes_stand_for_characters(before: Seq<char>, c: char, rest: Seq<char>)
    requires
        !before.contains('\\'),
    ensures
        fields::decoded(before) == before,
        fields::decoded(before.push('\\')) == before.push('\\'),
        ({
            let meant = fields::decoded(before + seq!['\\', c] + rest);
            let behind = fields::decoded(rest);
            &&& c == 'b' ==> meant == before.push('\u{0008}') + behind
            &&& c == 'f' ==> meant == before.push('\u{000c}') + behind
            &&& c == 'n' ==> meant == before.push('\n') + behind
            &&& c == 'r' ==> meant == before.push('\r') + behind
            &&& c == 't' ==> meant == before.push('\t') + behind
            &&& c != 'b' && c != 'f' && c != 'n' && c != 'r' && c != 't' ==> meant == before.push(
                c,
            ) + behind
        }),
    decreases before.len(),
{
    let whole = before + seq!['\\', c] + rest;
    if before.len() == 0 {
        assert(before =~= seq![]);
        assert(before.push('\\') =~= seq!['\\']);
        assert(whole.skip(2) =~= rest);
        assert(whole[1] == c);
        let m = fields::unescaped(c);
        assert(before.push(m) =~= seq![m]);
    } else {
        let first = before[0];
        let others = before.skip(1);
        assert(before.contains(first));
        assert(!others.contains('\\')) by {
            if others.contains('\\') {
                let k = choose|k: int| 0 <= k < others.len() && others[k] == '\\';
                assert(before[k + 1] == '\\');
            }
        }
        escapes_stand_for_characters(others, c, rest);
        let m = fields::unescaped(c);
        assert(seq![first] + others =~= before);
        assert(before.push('\\').skip(1) =~= others.push('\\'));
        assert(before.push('\\') =~= seq![first] + others.push('\\'));
        assert(whole.skip(1) =~= others + seq!['\\', c] + rest);
        assert(before.push(m) + fields::decoded(rest) =~= seq![first] + (others.push(m)
            + fields::decoded(rest)));
    }
}

proof fn lemma_open_quote(line: Seq<char>, delimiter: char, i: int, field: Seq<char>)
    requires
        0 <= i <= line.len(),
        forall|k: int| i <= k < line.len() ==> #[trigger] line[k] != '"',
    ensures
        fields::csv_from(line, delimiter, i, field, true) is None,
    decreases line.len() - i,
{
    if i < line.len() {
        lemma_open_quote(line, delimiter, i + 1, field.push(line[i]));
    }
}

/// A line in the CSV format whose last field begins with a quote that nothing
/// closes has no fields, whatever stands before it.
pub proof fn an_open_quote_leaves_no_fields(
    before: Seq<Seq<char>>,
    rest: Seq<char>,
    delimiter: char,
)
    requires
        delimiter != '"',
        !rest.contains('"'),
        forall|k: int|
            0 <= k < before.len() ==> !(#[trigger] before[k]).contains(delimiter)
                && !before[k].contains('"'),
    ensures
        fields::csv_fields(
            text::joined(before.push(seq!['"'] + rest), seq![delimiter]),
            delimiter,
        ) is None,
{
    let last = seq!['"'] + rest;
    let line = text::joined(before.push(last), seq![delimiter]);
    lemma_open(line, before, rest, delimiter, 0);
}

proof fn lemma_open(
    line: Seq<char>,
    before: Seq<Seq<char>>,
    rest: Seq<char>,
    delimiter: char,
    i: int,
)
    requires
        delimiter != '"',
        !rest.contains('"'),
        forall|k: int|
            0 <= k < before.len() ==> !(#[trigger] before[k]).contains(delimiter)
                && !before[k].contains('"'),
        0 <= i <= line.len(),
        line.skip(i) =~= text::joined(before.push(seq!['"'] + rest), seq![delimiter]),
    ensures
        fields::csv_from(line, delimiter, i, seq![], false) is None,
    decreases before.len(),
{
    let last = seq!['"'] + rest;
    let tail = line.skip(i);
    let empty: Seq<char> = seq![];
    if before.len() == 0 {
        assert(tail =~= last);
        assert(line[i] == tail[0]);
        assert forall|k: int| i + 1 <= k < line.len() implies #[trigger] line[k] != '"' by {
            assert(line[k] == tail[k - i]);
            assert(rest.contains(rest[k - i - 1]));
        }
        lemma_open_quote(line, delimiter, i + 1, empty);
    } else {
        let first = before[0];
        let others = before.skip(1);
        assert(before.push(last) =~= seq![first] + others.push(last));
        fields::lemma_joined_from_the_left(first, others.push(last), seq![delimiter]);
        let next = text::joined(others.push(last), seq![delimiter]);
        let n = first.len() as int;
        assert(tail =~= first + (seq![delimiter] + next));
        assert(line.subrange(i, i + n) =~= first) by {
            assert forall|k: int| 0 <= k < n implies line[i + k] == first[k] by {
                assert(line[i + k] == tail[k]);
            }
        }
        lemma_bare(line, delimiter, i, empty, first);
        assert(empty + first =~= first);
        assert(line[i + n] == tail[n]);
        assert(line.skip(i + n + 1) =~= next) by {
            assert(tail.skip(n + 1) =~= next);
        }
        assert forall|k: int| 0 <= k < others.len() implies !(#[trigger] others[k]).contains(
            delimiter,
        ) && !others[k].contains('"') by {
            assert(others[k] == before[k + 1]);
        }
        lemma_open(line, others, rest, delimiter, i + n + 1);
    }
}

} // verus!
