//! What is written in the sources that a catalog is made from is read from them.

use vstd::prelude::*;

use crate::bootstrap::bki::{BkiColumnView, BkiTableView};
use crate::bootstrap::bki_laws;
use crate::bootstrap::cells;
use crate::bootstrap::lines;
use crate::bootstrap::meson;
use crate::bootstrap::schema;
use crate::bootstrap::schema::{SchemaColumnView, SchemaLineView, SchemaTableView};
use crate::bootstrap::system_views;
use crate::bootstrap::tables;
use crate::catalog::model::{StaticCatalogTable, VirtualCatalogPolicy};
use crate::catalog::value_laws;
use crate::parser;
use crate::search;
use crate::text;
use crate::text_laws;
use crate::types::Oid;

verus! {

/// Lines with a line feed behind each.
pub open spec fn ended(list: Seq<Seq<char>>) -> Seq<char>
    decreases list.len(),
{
    if list.len() == 0 {
        seq![]
    } else {
        ended(list.drop_last()) + list.last() + seq!['\n']
    }
}

pub open spec fn trimmed(list: Seq<Seq<char>>) -> Seq<Seq<char>> {
    Seq::new(list.len(), |i: int| text::trim(list[i]))
}

proof fn lemma_scan_line(before: Seq<char>, line: Seq<char>)
    requires
        !line.contains('\n'),
    ensures
        lines::scan_lines(before + line).lines == lines::scan_lines(before).lines,
        lines::scan_lines(before + line).current == lines::scan_lines(before).current + line,
    decreases line.len(),
{
    let whole = before + line;
    if line.len() == 0 {
        assert(whole =~= before);
        assert(lines::scan_lines(before).current + line =~= lines::scan_lines(before).current);
    } else {
        let c = line.last();
        assert(line[line.len() - 1] == c);
        assert(line.contains(c));
        assert forall|i: int| 0 <= i < line.drop_last().len() implies line.drop_last()[i]
            != '\n' by {
            assert(line.contains(line[i]));
        }
        lemma_scan_line(before, line.drop_last());
        assert(whole.drop_last() =~= before + line.drop_last());
        assert(whole.last() == c);
        assert((lines::scan_lines(before).current + line.drop_last()).push(c)
            =~= lines::scan_lines(before).current + line);
    }
}

proof fn lemma_scan_ended(list: Seq<Seq<char>>)
    requires
        forall|i: int| 0 <= i < list.len() ==> !(#[trigger] list[i]).contains('\n'),
    ensures
        lines::scan_lines(ended(list)).lines == trimmed(list),
        lines::scan_lines(ended(list)).current.len() == 0,
    decreases list.len(),
{
    let s = ended(list);
    if list.len() == 0 {
        assert(lines::scan_lines(s).lines =~= trimmed(list));
    } else {
        let before = list.drop_last();
        assert forall|i: int| 0 <= i < before.len() implies !(#[trigger] before[i]).contains(
            '\n',
        ) by {
            assert(before[i] == list[i]);
        }
        lemma_scan_ended(before);
        assert(!list[list.len() - 1].contains('\n'));
        lemma_scan_line(ended(before), list.last());
        assert(s.drop_last() =~= ended(before) + list.last());
        assert(s.last() == '\n');
        assert(lines::scan_lines(ended(before)).current + list.last() =~= list.last());
        assert(trimmed(before).push(text::trim(list.last())) =~= trimmed(list));
    }
}

/// Lines are read one by one, without the space around them, whether or not the
/// last one ends in a line feed.
pub proof fn lines_are_read_one_by_one(list: Seq<Seq<char>>, last: Seq<char>)
    requires
        forall|i: int| 0 <= i < list.len() ==> !(#[trigger] list[i]).contains('\n'),
        !last.contains('\n'),
        last.len() > 0,
    ensures
        lines::trimmed_lines(ended(list)) == trimmed(list),
        lines::trimmed_lines(ended(list) + last) == trimmed(list).push(text::trim(last)),
{
    lemma_scan_ended(list);
    lemma_scan_line(ended(list), last);
    assert(lines::scan_lines(ended(list)).current + last =~= last);
}

/// What stands between the first two quotes of a line is what it quotes, and a line
/// without quotes quotes nothing.
pub proof fn a_line_quotes_what_is_between_quotes(
    before: Seq<char>,
    value: Seq<char>,
    rest: Seq<char>,
)
    requires
        !before.contains('\''),
        !value.contains('\''),
    ensures
        meson::quoted(before + seq!['\''] + value + seq!['\''] + rest) == Some(value),
        meson::quoted(before) is None,
        meson::quoted(before + seq!['\''] + value) is None,
{
    let p = lines::is_char('\'');
    let s = before + seq!['\''] + value + seq!['\''] + rest;
    let n = before.len() as int;
    assert forall|i: int| 0 <= i < n implies !p(#[trigger] s[i]) by {
        assert(s[i] == before[i]);
    }
    search::first_index_at(s, p, n);
    let tail = s.skip(n + 1);
    assert forall|i: int| 0 <= i < value.len() implies !p(#[trigger] tail[i]) by {
        assert(tail[i] == value[i]);
    }
    search::first_index_at(tail, p, value.len() as int);
    assert(tail.take(value.len() as int) =~= value);
    search::first_index_none(before, p);
    let open = before + seq!['\''] + value;
    assert forall|i: int| 0 <= i < n implies !p(#[trigger] open[i]) by {
        assert(open[i] == before[i]);
    }
    search::first_index_at(open, p, n);
    assert(open.skip(n + 1) =~= value);
    search::first_index_none(value, p);
}

/// A line of a list: a value between quotes with a comma behind it.
pub open spec fn entries(values: Seq<Seq<char>>) -> Seq<Seq<char>> {
    Seq::new(values.len(), |i: int| seq!['\''] + values[i] + seq!['\'', ','])
}

proof fn lemma_listed(values: Seq<Seq<char>>, rest: Seq<Seq<char>>)
    requires
        forall|i: int| 0 <= i < values.len() ==> !(#[trigger] values[i]).contains('\''),
        rest.len() == 0 || rest[0].len() > 0 && rest[0][0] == ']',
    ensures
        meson::listed(entries(values) + rest) == values,
    decreases values.len(),
{
    let all = entries(values) + rest;
    if values.len() == 0 {
        assert(all =~= rest);
        assert(meson::listed(rest) =~= values);
    } else {
        let others = values.skip(1);
        let empty = Seq::<char>::empty();
        assert forall|i: int| 0 <= i < others.len() implies !(#[trigger] others[i]).contains(
            '\'',
        ) by {
            assert(others[i] == values[i + 1]);
        }
        lemma_listed(others, rest);
        assert(all.drop_first() =~= entries(others) + rest);
        let v = values[0];
        assert(!v.contains('\''));
        a_line_quotes_what_is_between_quotes(empty, v, seq![',']);
        assert(all[0] =~= empty + seq!['\''] + v + seq!['\''] + seq![',']);
        assert(seq![v] + others =~= values);
    }
}

/// A list that is given by a name is read from the lines behind the name, up to the
/// one that closes it.
pub proof fn a_named_list_is_read(
    before: Seq<char>,
    name: Seq<char>,
    values: Seq<Seq<char>>,
    rest: Seq<Seq<char>>,
)
    requires
        forall|i: int|
            0 <= i < values.len() ==> !(#[trigger] values[i]).contains('\'')
                && !values[i].contains('\n'),
        forall|i: int| 0 <= i < rest.len() ==> !(#[trigger] rest[i]).contains('\n'),
        ({
            let head = name + " = ["@;
            let contents = before + head + ended(seq![seq![]] + entries(values) + seq!["]"@] + rest);
            forall|j: int| 0 <= j < before.len() ==> !lines::stands_at(contents, head, j)
        }),
    ensures
        ({
            let head = name + " = ["@;
            let contents = before + head + ended(seq![seq![]] + entries(values) + seq!["]"@] + rest);
            meson::list_named(contents, name) == Some(values)
        }),
{
    reveal_strlit("]");
    let head = name + " = ["@;
    let list = seq![Seq::<char>::empty()] + entries(values) + seq!["]"@] + rest;
    let contents = before + head + ended(list);
    let n = before.len() as int;
    assert(contents.subrange(n, n + head.len()) =~= head);
    lines::first_place_is_found(contents, head, n);
    assert(contents.skip(n + head.len()) =~= ended(list));
    assert forall|i: int| 0 <= i < list.len() implies !(#[trigger] list[i]).contains('\n') by {
        if i == 0 {
        } else if i - 1 < values.len() {
            let v = values[i - 1];
            assert(!v.contains('\n'));
            let e = seq!['\''] + v + seq!['\'', ','];
            assert(list[i] == e);
            assert forall|k: int| 0 <= k < e.len() implies e[k] != '\n' by {
                if 0 < k <= v.len() {
                    assert(v.contains(v[k - 1]));
                }
            }
        } else if i - 1 - values.len() >= 1 {
            assert(list[i] == rest[i - 2 - values.len()]);
        }
    }
    lemma_scan_ended(list);
    let told = trimmed(list);
    let ending = told.skip(1 + values.len() as int);
    let empty = Seq::<char>::empty();
    assert forall|i: int| 0 <= i < values.len() implies #[trigger] told[i + 1] == entries(
        values,
    )[i] by {
        let e = entries(values)[i];
        assert(list[i + 1] == e);
        assert(text_laws::is_trimmed(e));
        text_laws::trimming_takes_off_the_space(empty, e, empty);
        assert(empty + e + empty =~= e);
    }
    let bracket = "]"@;
    text_laws::trimming_takes_off_the_space(empty, bracket, empty);
    assert(empty + bracket + empty =~= bracket);
    assert(told.drop_first() =~= entries(values) + ending);
    assert(list[1 + values.len() as int] == bracket);
    assert(ending[0] == bracket);
    text_laws::trimming_takes_off_the_space(empty, empty, empty);
    assert(empty + empty + empty =~= empty);
    assert(told[0] == empty);
    search::first_index_none(empty, lines::is_char('\''));
    assert(meson::quoted(told[0]) is None);
    lemma_listed(values, ending);
    assert(meson::listed(told) == meson::listed(told.drop_first()));
    assert(lines::trimmed_lines(ended(list)) == told);
}

proof fn lemma_leading_digits(digits: Seq<char>, rest: Seq<char>)
    requires
        forall|i: int| 0 <= i < digits.len() ==> text::is_digit(#[trigger] digits[i]),
        rest.len() > 0 ==> !text::is_digit(rest[0]),
    ensures
        meson::leading_digits(digits + rest) == digits,
    decreases digits.len(),
{
    let s = digits + rest;
    if digits.len() == 0 {
        assert(s =~= rest);
        assert(meson::leading_digits(s) =~= digits);
    } else {
        assert(s[0] == digits[0]);
        assert(s.drop_first() =~= digits.drop_first() + rest);
        assert forall|i: int| 0 <= i < digits.drop_first().len() implies text::is_digit(
            #[trigger] digits.drop_first()[i],
        ) by {
            assert(digits.drop_first()[i] == digits[i + 1]);
        }
        lemma_leading_digits(digits.drop_first(), rest);
        assert(seq![digits[0]] + digits.drop_first() =~= digits);
    }
}

/// The version is the number that stands where the version is given, up to its
/// first other character.
pub proof fn the_version_is_the_number_given(before: Seq<char>, digits: Seq<char>, rest: Seq<char>)
    requires
        digits.len() > 0,
        forall|i: int| 0 <= i < digits.len() ==> text::is_digit(#[trigger] digits[i]),
        rest.len() > 0 ==> !text::is_digit(rest[0]),
        forall|j: int|
            0 <= j < before.len() ==> !lines::stands_at(
                before + "version: '"@ + digits + rest,
                "version: '"@,
                j,
            ),
    ensures
        meson::major_version(before + "version: '"@ + digits + rest) == Some(digits),
{
    let mark = "version: '"@;
    let contents = before + mark + digits + rest;
    let n = before.len() as int;
    assert(contents.subrange(n, n + mark.len()) =~= mark);
    lines::first_place_is_found(contents, mark, n);
    assert(contents.skip(n + mark.len()) =~= digits + rest);
    lemma_leading_digits(digits, rest);
}

/// A field of a line that describes a column: bare, a letter between quotes, or a
/// name between quotes and braces.
pub enum SchemaField {
    Bare(Seq<char>),
    Letter(Seq<char>),
    Name(Seq<char>),
}

impl SchemaField {
    pub open spec fn written(self) -> Seq<char> {
        match self {
            SchemaField::Bare(s) => s,
            SchemaField::Letter(s) => seq!['\''] + s + seq!['\''],
            SchemaField::Name(s) => seq!['{', '"'] + s + seq!['"', '}'],
        }
    }

    pub open spec fn can_be_written(self) -> bool {
        match self {
            SchemaField::Bare(s) => {
                &&& text_laws::is_trimmed(s)
                &&& forall|i: int| 0 <= i < s.len() ==> is_bare(#[trigger] s[i])
            },
            SchemaField::Letter(s) => s.len() > 0 && !s.contains('\''),
            SchemaField::Name(s) => {
                &&& s.len() > 0
                &&& forall|i: int|
                    0 <= i < s.len() ==> #[trigger] s[i] != '"' && s[i] != '{' && s[i] != '}'
            },
        }
    }
}

pub open spec fn is_bare(c: char) -> bool {
    c != ',' && c != '\'' && c != '"' && c != '{' && c != '}'
}

proof fn lemma_run(
    p: Seq<char>,
    behind: Seq<char>,
    field: Seq<char>,
    depth: int,
    single: bool,
    double: bool,
)
    requires
        !(single && double),
        forall|i: int|
            0 <= i < p.len() ==> if single {
                #[trigger] p[i] != '\''
            } else if double {
                p[i] != '"'
            } else {
                is_bare(p[i])
            },
    ensures
        schema::fields_from(p + behind, field, depth, single, double) == schema::fields_from(
            behind,
            field + p,
            depth,
            single,
            double,
        ),
    decreases p.len(),
{
    let whole = p + behind;
    if p.len() == 0 {
        assert(whole =~= behind);
        assert(field + p =~= field);
    } else {
        let c = p[0];
        let rest = p.drop_first();
        assert(whole[0] == c);
        assert(whole.drop_first() =~= rest + behind);
        assert forall|i: int| 0 <= i < rest.len() implies if single {
            #[trigger] rest[i] != '\''
        } else if double {
            rest[i] != '"'
        } else {
            is_bare(rest[i])
        } by {
            assert(rest[i] == p[i + 1]);
        }
        lemma_run(rest, behind, field.push(c), depth, single, double);
        assert(field.push(c) + rest =~= field + p);
    }
}

proof fn lemma_field(f: SchemaField, behind: Seq<char>, field: Seq<char>)
    requires
        f.can_be_written(),
    ensures
        schema::fields_from(f.written() + behind, field, 0, false, false) == schema::fields_from(
            behind,
            field + f.written(),
            0,
            false,
            false,
        ),
{
    let w = f.written();
    match f {
        SchemaField::Bare(s) => {
            lemma_run(s, behind, field, 0, false, false);
        },
        SchemaField::Letter(s) => {
            let close = seq!['\''] + behind;
            let whole = w + behind;
            assert(whole.drop_first() =~= s + close);
            assert forall|i: int| 0 <= i < s.len() implies #[trigger] s[i] != '\'' by {
                assert(s.contains(s[i]));
            }
            lemma_run(s, close, field.push('\''), 0, true, false);
            assert(close.drop_first() =~= behind);
            assert((field.push('\'') + s).push('\'') =~= field + w);
        },
        SchemaField::Name(s) => {
            let close = seq!['"', '}'] + behind;
            let whole = w + behind;
            let inner = whole.drop_first();
            assert(inner[0] == '"');
            assert(inner.drop_first() =~= s + close);
            let open = field.push('{').push('"');
            lemma_run(s, close, open, 1, false, true);
            let end = close.drop_first();
            assert(end[0] == '}');
            assert(end.drop_first() =~= behind);
            assert((open + s).push('"').push('}') =~= field + w);
            assert(schema::fields_from(whole, field, 0, false, false) == schema::fields_from(
                inner,
                field.push('{'),
                1,
                false,
                false,
            ));
            assert(schema::fields_from(inner, field.push('{'), 1, false, false)
                == schema::fields_from(s + close, open, 1, false, true));
            assert(schema::fields_from(close, open + s, 1, false, true) == schema::fields_from(
                end,
                (open + s).push('"'),
                1,
                false,
                false,
            ));
            assert(schema::fields_from(end, (open + s).push('"'), 1, false, false)
                == schema::fields_from(behind, (open + s).push('"').push('}'), 0, false, false));
        },
    }
}

pub open spec fn written_fields(list: Seq<SchemaField>) -> Seq<Seq<char>> {
    Seq::new(list.len(), |i: int| list[i].written())
}

proof fn lemma_fields(list: Seq<SchemaField>, field: Seq<char>)
    requires
        list.len() > 0,
        forall|i: int| 0 <= i < list.len() ==> (#[trigger] list[i]).can_be_written(),
        parser::is_blank(field),
    ensures
        schema::fields_from(text::joined(written_fields(list), ", "@), field, 0, false, false)
            == written_fields(list),
    decreases list.len(),
{
    reveal_strlit(", ");
    let all = written_fields(list);
    let w = list[0].written();
    let empty = Seq::<char>::empty();
    assert(list[0].can_be_written());
    assert(text_laws::is_trimmed(w));
    text_laws::trimming_takes_off_the_space(field, w, empty);
    assert(field + w + empty =~= field + w);
    if list.len() == 1 {
        let line = text::joined(all, ", "@);
        assert(line == w);
        lemma_field(list[0], empty, field);
        assert(w + empty =~= w);
        assert(seq![w] =~= all);
    } else {
        let others = list.skip(1);
        assert forall|i: int| 0 <= i < others.len() implies (
        #[trigger] others[i]).can_be_written() by {
            assert(others[i] == list[i + 1]);
        }
        text_laws::lemma_joined_first(all, ", "@);
        assert(all.skip(1) =~= written_fields(others));
        let tail = text::joined(written_fields(others), ", "@);
        let behind = seq![',', ' '] + tail;
        assert(w + ", "@ + tail =~= w + behind);
        lemma_field(list[0], behind, field);
        let gap = behind.drop_first();
        assert(gap =~= seq![' '] + tail);
        lemma_run(seq![' '], tail, empty, 0, false, false);
        assert(empty + seq![' '] =~= seq![' ']);
        lemma_fields(others, seq![' ']);
        assert(seq![w] + written_fields(others) =~= all);
        assert(schema::fields_from(behind, field + w, 0, false, false) == seq![w]
            + schema::fields_from(gap, empty, 0, false, false));
    }
}

/// The fields of a line are split at the commas that stand neither in quotes nor in
/// braces.
pub proof fn fields_of_a_description_are_split_again(list: Seq<SchemaField>)
    requires
        list.len() > 0,
        forall|i: int| 0 <= i < list.len() ==> (#[trigger] list[i]).can_be_written(),
    ensures
        schema::fields_in(text::joined(written_fields(list), ", "@)) == written_fields(list),
{
    lemma_fields(list, seq![]);
}

/// A number, a truth value and a name are read from the fields that say them.
pub proof fn fields_are_read(n: int, s: Seq<char>)
    ensures
        i64::MIN <= n <= i64::MAX ==> schema::number(text::decimal_int(n)) == n,
        schema::number("NAMEDATALEN"@) == 64,
        schema::truth("true"@) == Some(true),
        schema::truth("false"@) == Some(false),
        SchemaField::Name(s).can_be_written() ==> schema::bare_name(SchemaField::Name(s).written())
            == s,
        schema::letter("'\\0'"@) == 0,
        SchemaField::Letter(s).can_be_written() && s != "\\0"@ ==> schema::letter(
            SchemaField::Letter(s).written(),
        ) == schema::first_byte(s),
{
    reveal_strlit("NAMEDATALEN");
    reveal_strlit("true");
    reveal_strlit("false");
    reveal_strlit("'\\0'");
    reveal_strlit("\\0");
    let empty = Seq::<char>::empty();
    let word = "NAMEDATALEN"@;
    let yes = "true"@;
    let no = "false"@;
    let zero = "'\\0'"@;
    assert(yes.len() == 4 && no.len() == 5);
    lemma_trim(word);
    lemma_trim(yes);
    lemma_trim(no);
    lemma_trim(zero);
    if i64::MIN <= n <= i64::MAX {
        let d = text::decimal_int(n);
        text::decimal_form_reads_back(n, i64::MIN as int, i64::MAX as int);
        text::decimal_form_is_digits(n);
        lemma_trim(d);
        if d == word {
            assert(d[0] == 'N');
            assert(text::parsed_int(d, i64::MIN as int, i64::MAX as int) is None);
        }
    }
    if SchemaField::Name(s).can_be_written() {
        let w = SchemaField::Name(s).written();
        lemma_trim(w);
        let a = seq!['"'] + s + seq!['"', '}'];
        assert(seq!['"'] + s + seq!['"'] + seq!['}'] =~= a);
        assert(seq!['"'] + (s + seq!['"']) =~= seq!['"'] + s + seq!['"']);
        lemma_without(seq!['{'], a, '{', seq!['"'] + s + seq!['"'], seq!['}'], '}');
        lemma_without(seq!['"'], s + seq!['"'], '"', s, seq!['"'], '"');
        assert(seq!['{'] + a =~= w);
        assert(s.last() == s[s.len() - 1]);
    }
    if SchemaField::Letter(s).can_be_written() && s != "\\0"@ {
        let w = SchemaField::Letter(s).written();
        lemma_trim(w);
        assert(s.contains(s[0]));
        assert(s.last() == s[s.len() - 1]);
        assert(s.contains(s.last()));
        lemma_without(seq!['\''], s + seq!['\''], '\'', s, seq!['\''], '\'');
        assert(seq!['\''] + (s + seq!['\'']) =~= w);
        if w == zero {
            assert(s =~= w.subrange(1, w.len() - 1));
            assert(s =~= "\\0"@);
        }
    }
}

proof fn lemma_trim(s: Seq<char>)
    requires
        text_laws::is_trimmed(s),
    ensures
        text::trim(s) == s,
{
    let empty = Seq::<char>::empty();
    text_laws::trimming_takes_off_the_space(empty, s, empty);
    assert(empty + s + empty =~= s);
}

proof fn lemma_without(
    before: Seq<char>,
    rest: Seq<char>,
    c: char,
    kept: Seq<char>,
    behind: Seq<char>,
    d: char,
)
    requires
        before == seq![c],
        behind == seq![d],
        rest == kept + behind,
        kept.len() > 0,
        kept[0] != c,
        kept.last() != d,
    ensures
        lines::without_leading(before + rest, c) == rest,
        lines::without_trailing(rest, d) == kept,
{
    let whole = before + rest;
    assert(whole.drop_first() =~= rest);
    assert(rest[0] == kept[0]);
    assert(lines::without_leading(rest, c) == rest);
    assert(rest.drop_last() =~= kept);
    assert(lines::without_trailing(kept, d) == kept);
}

/// Whether a field says a number.
pub open spec fn says_number(field: Seq<char>, n: int) -> bool {
    field == text::decimal_int(n)
}

pub open spec fn says_truth(field: Seq<char>, b: bool) -> bool {
    field == if b {
        "true"@
    } else {
        "false"@
    }
}

/// A line describes a column by its fields: the name, the type, the length and the
/// number, the dimensions, whether it is passed by value, its alignment and storage,
/// whether it may be null, and its collation, each in its place.
pub proof fn a_line_describes_a_column(
    fields: Seq<Seq<char>>,
    c: SchemaColumnView,
    name: Seq<char>,
    align: Seq<char>,
    storage: Seq<char>,
)
    requires
        fields.len() >= 20,
        SchemaField::Name(name).can_be_written(),
        SchemaField::Letter(align).can_be_written(),
        SchemaField::Letter(storage).can_be_written(),
        align != "\\0"@,
        storage != "\\0"@,
        c.name == name,
        fields[1] == SchemaField::Name(name).written(),
        says_number(fields[2], c.type_oid as int),
        says_number(fields[3], c.attlen as int),
        says_number(fields[4], c.attnum as int),
        says_number(fields[6], c.attndims as int),
        says_truth(fields[7], c.attbyval),
        fields[8] == SchemaField::Letter(align).written(),
        c.attalign == schema::first_byte(align),
        fields[9] == SchemaField::Letter(storage).written(),
        c.attstorage == schema::first_byte(storage),
        says_truth(fields[11], c.attnotnull),
        says_number(fields[19], c.attcollation as int),
    ensures
        schema::column_of(fields) == SchemaLineView::Column(c),
{
    fields_are_read(c.type_oid as int, name);
    fields_are_read(c.attlen as int, align);
    fields_are_read(c.attnum as int, storage);
    fields_are_read(c.attndims as int, name);
    fields_are_read(c.attcollation as int, name);
}

/// A line with too few fields describes nothing, and one whose numbers are too great
/// is refused.
pub proof fn a_line_without_its_fields_describes_nothing(fields: Seq<Seq<char>>, n: int)
    ensures
        fields.len() < 20 ==> schema::column_of(fields) is Short,
        fields.len() >= 20 && says_number(fields[2], n) && u32::MAX < n <= i64::MAX
            ==> schema::column_of(fields) is Refused,
        fields.len() >= 20 && says_number(fields[3], n) && i16::MAX < n <= i64::MAX
            ==> schema::column_of(fields) is Refused,
        fields.len() >= 20 && says_number(fields[4], n) && i16::MAX < n <= i64::MAX
            ==> schema::column_of(fields) is Refused,
        fields.len() >= 20 && says_number(fields[6], n) && i32::MAX < n <= i64::MAX
            ==> schema::column_of(fields) is Refused,
        fields.len() >= 20 && says_number(fields[19], n) && u32::MAX < n <= i64::MAX
            ==> schema::column_of(fields) is Refused,
{
    fields_are_read(n, seq![]);
}

/// A column that is described joins those of its catalog, behind them, and leaves
/// the other catalogs as they were.
pub proof fn a_described_column_joins_its_catalog(
    all: Seq<SchemaTableView>,
    name: Seq<char>,
    column: SchemaColumnView,
    i: int,
)
    requires
        0 <= i < all.len(),
        forall|j: int| 0 <= j < i ==> (#[trigger] all[j]).name != name,
    ensures
        all[i].name == name ==> {
            let now = schema::with_column(all, name, column);
            &&& now.len() == all.len()
            &&& now[i].name == name
            &&& now[i].columns == all[i].columns.push(column)
            &&& forall|j: int| 0 <= j < all.len() && j != i ==> #[trigger] now[j] == all[j]
        },
        (forall|j: int| 0 <= j < all.len() ==> (#[trigger] all[j]).name != name) ==> {
            let now = schema::with_column(all, name, column);
            &&& now.len() == all.len() + 1
            &&& now.last().name == name
            &&& now.last().columns == seq![column]
            &&& forall|j: int| 0 <= j < all.len() ==> #[trigger] now[j] == all[j]
        },
{
    let p = schema::is_named(name);
    if all[i].name == name {
        search::first_index_at(all, p, i);
    }
    if forall|j: int| 0 <= j < all.len() ==> (#[trigger] all[j]).name != name {
        search::first_index_none(all, p);
        let here = schema::with_table(all, name);
        assert forall|j: int| 0 <= j < all.len() implies !p(#[trigger] here[j]) by {
            assert(here[j] == all[j]);
        }
        search::first_index_at(here, p, all.len() as int);
        assert(Seq::<SchemaColumnView>::empty().push(column) =~= seq![column]);
    }
}

/// The roles are those of the catalog of roles, with what it says of them, but for
/// their passwords, which are hidden.
pub proof fn roles_are_told_without_passwords(all: Seq<BkiTableView>, at: int, r: int, i: int)
    requires
        0 <= at < all.len(),
        all[at].name == "pg_authid"@,
        forall|j: int| 0 <= j < at ==> (#[trigger] all[j]).name != "pg_authid"@,
        0 <= r < all[at].rows.len(),
        0 <= i < system_views::roles(all).columns.len(),
    ensures
        ({
            let roles = system_views::roles(all);
            let column = roles.columns[i].name;
            &&& roles.name == "pg_roles"@
            &&& roles.oid == 12000
            &&& roles.rowtype_oid == 0
            &&& roles.rows.len() == all[at].rows.len()
            &&& roles.rows[r].len() == roles.columns.len()
            &&& column == "rolpassword"@ ==> roles.rows[r][i] == Some("********"@)
            &&& column != "rolpassword"@ ==> roles.rows[r][i] == all[at].value(
                all[at].rows[r],
                column,
            )
        }),
{
    search::first_index_at(all, tables::table_named("pg_authid"@), at);
}

/// The view of roles has these columns, and the view of indexes these and no rows.
pub proof fn the_views_have_these_columns(all: Seq<BkiTableView>, i: int)
    ensures
        system_views::roles(all).columns.len() == 13,
        system_views::indexes().columns.len() == 5,
        system_views::indexes().rows.len() == 0,
        system_views::indexes().name == "pg_indexes"@,
        system_views::indexes().oid == 12001,
        0 <= i < 13 ==> {
            let c = system_views::roles(all).columns[i];
            &&& i == 0 ==> c == (BkiColumnView { name: "rolname"@, column_type: "name"@ })
            &&& i == 1 ==> c == (BkiColumnView { name: "rolsuper"@, column_type: "bool"@ })
            &&& i == 2 ==> c == (BkiColumnView { name: "rolinherit"@, column_type: "bool"@ })
            &&& i == 3 ==> c == (BkiColumnView { name: "rolcreaterole"@, column_type: "bool"@ })
            &&& i == 4 ==> c == (BkiColumnView { name: "rolcreatedb"@, column_type: "bool"@ })
            &&& i == 5 ==> c == (BkiColumnView { name: "rolcanlogin"@, column_type: "bool"@ })
            &&& i == 6 ==> c == (BkiColumnView { name: "rolreplication"@, column_type: "bool"@ })
            &&& i == 7 ==> c == (BkiColumnView { name: "rolconnlimit"@, column_type: "int4"@ })
            &&& i == 8 ==> c == (BkiColumnView { name: "rolpassword"@, column_type: "text"@ })
            &&& i == 9 ==> c == (BkiColumnView {
                name: "rolvaliduntil"@,
                column_type: "timestamptz"@,
            })
            &&& i == 10 ==> c == (BkiColumnView { name: "rolbypassrls"@, column_type: "bool"@ })
            &&& i == 11 ==> c == (BkiColumnView { name: "rolconfig"@, column_type: "_text"@ })
            &&& i == 12 ==> c == (BkiColumnView { name: "oid"@, column_type: "oid"@ })
        },
        0 <= i < 5 ==> {
            let c = system_views::indexes().columns[i];
            &&& i == 0 ==> c == (BkiColumnView { name: "schemaname"@, column_type: "name"@ })
            &&& i == 1 ==> c == (BkiColumnView { name: "tablename"@, column_type: "name"@ })
            &&& i == 2 ==> c == (BkiColumnView { name: "indexname"@, column_type: "name"@ })
            &&& i == 3 ==> c == (BkiColumnView { name: "tablespace"@, column_type: "name"@ })
            &&& i == 4 ==> c == (BkiColumnView { name: "indexdef"@, column_type: "text"@ })
        },
{
}

/// A type that is named has the identifier of its row, a list of a catalog's rows
/// that of lists of rows, and any other name none.
pub proof fn a_named_type_has_the_identifier_of_its_row(
    all: Seq<BkiTableView>,
    pg_type: BkiTableView,
    name: Seq<char>,
    at: int,
)
    requires
        0 <= at < pg_type.rows.len(),
        pg_type.value(pg_type.rows[at], "typname"@) == Some(name),
        pg_type.value(pg_type.rows[at], "oid"@) is Some,
        forall|j: int|
            0 <= j < pg_type.rows.len() && j != at ==> pg_type.value(
                #[trigger] pg_type.rows[j],
                "typname"@,
            ) != Some(name),
    ensures
        tables::type_for(all, pg_type, name) == pg_type.oid_in(pg_type.rows[at], "oid"@),
{
    let p = tables::names_the_type(pg_type, name);
    assert forall|j: int| 0 <= j < pg_type.rows.len() && j != at implies !p(
        #[trigger] pg_type.rows[j],
    ) by {}
    search::only_element_is_first_and_last(pg_type.rows, p, at);
}

/// A row that has an identifier is known by it, and any other by its place and its
/// catalog.
pub proof fn rows_are_known_by_their_identifiers(
    table: BkiTableView,
    row: Seq<Option<Seq<char>>>,
    n: u32,
    index: usize,
)
    requires
        index < u32::MAX,
    ensures
        table.value(row, "oid"@) == Some(text::decimal_int(n as int)) ==> tables::row_identity(
            table,
            row,
            index,
        ) == n,
        table.value(row, "oid"@) is None ==> tables::row_identity(table, row, index)
            == table.oid as int * 0x1_0000_0000 + index + 1,
{
    reveal_strlit("-");
    reveal_strlit("NAMEDATALEN");
    let d = text::decimal_int(n as int);
    text::decimal_form_reads_back(n as int, i64::MIN as int, i64::MAX as int);
    text::decimal_form_is_digits(n as int);
    if d == "-"@ {
        assert(text::parsed_int(d, i64::MIN as int, i64::MAX as int) is None);
    }
    if d == "NAMEDATALEN"@ {
        assert(d[0] == 'N');
        assert(text::parsed_int(d, i64::MIN as int, i64::MAX as int) is None);
    }
    assert(cells::number(d) == Some(n as int));
    let high = table.oid as u64;
    let low = (index + 1) as u64;
    assert((high << 32u64) | low == high * 0x1_0000_0000 + low) by (bit_vector)
        requires
            high <= 0xffff_ffff,
            low <= 0xffff_ffff,
    ;
}

/// A column of a catalog is laid out as it is described, and one that nothing describes
/// by its type alone.
pub proof fn a_column_is_laid_out_as_described(
    all: Seq<BkiTableView>,
    pg_type: BkiTableView,
    d: SchemaColumnView,
    name: &'static str,
    word: &'static str,
)
    ensures
        ({
            let c = tables::static_column(all, pg_type, Some(d), name, word);
            &&& c.name@ == name@
            &&& c.column_type@ == word@
            &&& c.type_oid.0 == d.type_oid
            &&& c.attlen == d.attlen
            &&& c.attnum == d.attnum
            &&& c.attndims == d.attndims
            &&& c.attbyval == d.attbyval
            &&& c.attalign == d.attalign
            &&& c.attstorage == d.attstorage
            &&& c.attnotnull == d.attnotnull
            &&& c.attcollation.0 == d.attcollation
        }),
        ({
            let c = tables::static_column(all, pg_type, None, name, word);
            &&& c.name@ == name@
            &&& c.column_type@ == word@
            &&& c.type_oid == tables::type_for(all, pg_type, word@)
            &&& c.attlen == 0 && c.attnum == 0 && c.attndims == 0 && c.attcollation.0 == 0
            &&& !c.attnotnull
            &&& c.attbyval <==> c.type_oid.0 != 19 && c.type_oid.0 != 25
            &&& c.attalign == 'i' as u8
            &&& c.attstorage == 'p' as u8
        }),
{
}

/// What describes a column is of its catalog and has its name.
pub proof fn a_description_is_of_its_column(
    schema: Seq<SchemaTableView>,
    table: Seq<char>,
    column: Seq<char>,
)
    ensures
        match tables::description_of(schema, table, column) {
            Some(d) => d.name == column && exists|i: int|
                0 <= i < schema.len() && (#[trigger] schema[i]).name == table
                    && schema[i].columns.contains(d),
            None => true,
        },
{
    search::first_index_is_first(schema, schema::is_named(table));
    match search::first_with(schema, schema::is_named(table)) {
        Some(described) => {
            search::first_index_is_first(described.columns, tables::schema_column_named(column));
        },
        None => {},
    }
}

/// A column that its catalog's description names is described.
pub proof fn a_described_column_is_found(schema: Seq<SchemaTableView>, i: int, k: int)
    requires
        0 <= i < schema.len(),
        0 <= k < schema[i].columns.len(),
        schema::distinct_names(schema),
        forall|j: int|
            0 <= j < k ==> (#[trigger] schema[i].columns[j]).name != schema[i].columns[k].name,
    ensures
        tables::description_of(schema, schema[i].name, schema[i].columns[k].name) == Some(
            schema[i].columns[k],
        ),
{
    let p = schema::is_named(schema[i].name);
    assert forall|j: int| 0 <= j < i implies !p(#[trigger] schema[j]) by {
        assert(schema[j].name != schema[i].name);
    }
    search::first_index_at(schema, p, i);
    search::first_index_at(
        schema[i].columns,
        tables::schema_column_named(schema[i].columns[k].name),
        k,
    );
}

/// Each catalog has a record, in their order, with its identifier, its name and how it
/// is kept.
pub proof fn each_catalog_has_a_record(list: Seq<StaticCatalogTable>, i: int)
    requires
        0 <= i < list.len(),
    ensures
        tables::virtual_records(list).len() == list.len(),
        tables::virtual_records(list)[i].relation_oid == list[i].oid,
        tables::virtual_records(list)[i].name@ == list[i].name@,
        tables::virtual_records(list)[i].policy == tables::policy_of(list[i].name@),
{
}

/// A list of identifiers is read from the words that they are written as.
pub proof fn identifiers_are_read_back(list: Seq<Oid>)
    ensures
        cells::identifiers(value_laws::oid_words(list)) == list,
        text::words(text::joined(value_laws::oid_words(list), " "@)) == value_laws::oid_words(list),
    decreases list.len(),
{
    reveal_strlit(" ");
    reveal_strlit("-");
    reveal_strlit("NAMEDATALEN");
    let words = value_laws::oid_words(list);
    assert(parser::is_blank(" "@));
    assert forall|i: int| 0 <= i < words.len() implies bki_laws::is_word(#[trigger] words[i]) by {
        value_laws::lemma_decimal_word(list[i].0 as int);
    }
    text_laws::joined_words_are_split_again(words, " "@);
    if list.len() > 0 {
        identifiers_are_read_back(list.drop_last());
        assert(words.drop_last() =~= value_laws::oid_words(list.drop_last()));
        let n = list.last().0 as int;
        let d = text::decimal_int(n);
        text::decimal_form_reads_back(n, i64::MIN as int, i64::MAX as int);
        text::decimal_form_is_digits(n);
        if d == "-"@ {
            assert(text::parsed_int(d, i64::MIN as int, i64::MAX as int) is None);
        }
        if d == "NAMEDATALEN"@ {
            assert(d[0] == 'N');
            assert(text::parsed_int(d, i64::MIN as int, i64::MAX as int) is None);
        }
        assert(list.drop_last().push(list.last()) =~= list);
    } else {
        assert(cells::identifiers(words) =~= list);
    }
}

/// Catalogs that statements change are kept as rows of their own, some others are as
/// they were compiled in, and the rest are empty.
pub proof fn catalogs_are_kept_in_one_of_three_ways(name: Seq<char>)
    ensures
        tables::policy_of("pg_class"@) == VirtualCatalogPolicy::Dynamic,
        tables::policy_of("pg_attribute"@) == VirtualCatalogPolicy::Dynamic,
        tables::policy_of("pg_index"@) == VirtualCatalogPolicy::Dynamic,
        tables::policy_of("pg_constraint"@) == VirtualCatalogPolicy::Dynamic,
        tables::policy_of("pg_type"@) == VirtualCatalogPolicy::Dynamic,
        tables::policy_of("pg_proc"@) == VirtualCatalogPolicy::Dynamic,
        tables::policy_of("pg_operator"@) == VirtualCatalogPolicy::Dynamic,
        tables::policy_of("pg_cast"@) == VirtualCatalogPolicy::Dynamic,
        tables::policy_of("pg_opclass"@) == VirtualCatalogPolicy::Dynamic,
        tables::policy_of("pg_opfamily"@) == VirtualCatalogPolicy::Dynamic,
        tables::policy_of("pg_amop"@) == VirtualCatalogPolicy::Dynamic,
        tables::policy_of("pg_amproc"@) == VirtualCatalogPolicy::Dynamic,
        tables::policy_of("pg_rewrite"@) == VirtualCatalogPolicy::Dynamic,
        tables::policy_of("pg_indexes"@) == VirtualCatalogPolicy::Dynamic,
        tables::dynamic_catalogs().len() == 14,
        tables::static_catalogs().len() == 10,
        !tables::dynamic_catalogs().contains(name) && !tables::static_catalogs().contains(name)
            ==> tables::policy_of(name) == VirtualCatalogPolicy::Empty,
{
    let d = tables::dynamic_catalogs();
    assert(d[0] == "pg_class"@ && d[1] == "pg_attribute"@ && d[2] == "pg_index"@ && d[3]
        == "pg_constraint"@ && d[4] == "pg_type"@ && d[5] == "pg_proc"@ && d[6] == "pg_operator"@);
    assert(d[7] == "pg_cast"@ && d[8] == "pg_opclass"@ && d[9] == "pg_opfamily"@ && d[10]
        == "pg_amop"@ && d[11] == "pg_amproc"@ && d[12] == "pg_rewrite"@ && d[13]
        == "pg_indexes"@);
}

} // verus!
