//! Rows that are written as lines of copied data are read back from them.

use vstd::prelude::*;
use vstd::utf8;

use crate::catalog::model::RelationRecordView;
use crate::exec::copy;
use crate::exec::copy::CopyTargetView;
use crate::exec::copy_rows;
use crate::exec::copy_rows::{CopyItemView, CopyLineView};
use crate::exec::copy_sql;
use crate::exec::copy_steps;
use crate::exec::copy_steps::{CopyDatumView, CopyStepView};
use crate::exec::field_laws;
use crate::exec::field_laws::CsvField;
use crate::exec::fields;
use crate::exec::pgcore::{ExecutionStatementView, InputDatum, PgCoreErrorView};
use crate::exec::session;
use crate::lexing;
use crate::search;
use crate::text;

verus! {

/// What ends a line does not belong to it: neither a line feed nor a carriage
/// return in front of one. What else a line holds does.
pub proof fn the_end_of_a_line_is_left_off(s: Seq<char>)
    requires
        s.len() > 0 ==> s.last() != '\n' && s.last() != '\r',
    ensures
        copy_rows::line_text(s) == s,
        copy_rows::line_text(s + "\n"@) == s,
        copy_rows::line_text(s + "\r\n"@) == s,
        copy_rows::line_text(s + "\r"@) == s,
{
    reveal_strlit("\n");
    reveal_strlit("\r\n");
    reveal_strlit("\r");
    reveal_with_fuel(copy_rows::without_trailing, 3);
    assert((s + "\n"@).drop_last() =~= s);
    assert((s + "\r"@).drop_last() =~= s);
    assert((s + "\r\n"@).drop_last() =~= s + "\r"@);
}

/// A field as it is written in the text format: the mark for nothing, or a text
/// with its escapes.
pub open spec fn text_field(value: Option<Seq<char>>, null_print: Seq<char>) -> Seq<char> {
    match value {
        Some(s) => fields::encoded(s),
        None => null_print,
    }
}

pub open spec fn text_line(
    values: Seq<Option<Seq<char>>>,
    null_print: Seq<char>,
    delimiter: char,
) -> Seq<char> {
    text::joined(
        Seq::new(values.len(), |i: int| text_field(values[i], null_print)),
        seq![delimiter],
    )
}

/// Whether a row says of each value which column it is for, of what type and with
/// which modifier, and that nothing is there where nothing was given.
pub open spec fn holds_values(
    items: Seq<CopyItemView>,
    values: Seq<Option<Seq<char>>>,
    slots: Seq<int>,
    types: Seq<u32>,
    modifiers: Seq<i32>,
) -> bool {
    &&& items.len() == values.len()
    &&& forall|i: int|
        0 <= i < values.len() ==> match values[i] {
            Some(s) => {
                &&& (#[trigger] items[i]) matches CopyItemView::Text {
                    slot,
                    type_oid,
                    type_modifier,
                    text,
                }
                &&& slot == slots[i]
                &&& type_oid == types[i]
                &&& type_modifier == modifiers[i]
                &&& text == s
            },
            None => items[i] matches CopyItemView::Null(slot) && slot == slots[i],
        }
}

/// Whether a line can stand among copied data: it does not end like one that has
/// its end with it, and the mark of the end of the data is not in it.
pub open spec fn is_plain_line(line: Seq<char>) -> bool {
    &&& line.len() > 0 ==> line.last() != '\n' && line.last() != '\r'
    &&& forall|i: int| 0 <= i < line.len() - 1 ==> line[i] != '\\' || #[trigger] line[i + 1] != '.'
}

pub open spec fn slots_of(target: CopyTargetView) -> Seq<int> {
    Seq::new(target.column_metadata.len(), |i: int| target.column_metadata[i].attnum - 1)
}

pub open spec fn types_of(target: CopyTargetView) -> Seq<u32> {
    Seq::new(target.column_metadata.len(), |i: int| target.column_metadata[i].type_oid)
}

pub open spec fn modifiers_of(target: CopyTargetView) -> Seq<i32> {
    Seq::new(target.column_metadata.len(), |i: int| target.column_metadata[i].type_modifier)
}

/// Whether a target is known to the catalog, with a place for each of its columns.
pub open spec fn is_known(target: CopyTargetView) -> bool {
    &&& target.table_oid != 0
    &&& target.relation_columns > 0
    &&& target.column_metadata.len() > 0
    &&& forall|i: int|
        0 <= i < target.column_metadata.len() ==> 0 < (
        #[trigger] target.column_metadata[i]).attnum <= target.relation_columns
}

proof fn lemma_plain_line(line: Seq<char>)
    requires
        is_plain_line(line),
    ensures
        copy_rows::line_text(line) == line,
        line != "\\."@,
        !copy_rows::has_marker(line),
{
    reveal_strlit("\\.");
    the_end_of_a_line_is_left_off(line);
    assert forall|i: int| !#[trigger] copy_rows::marker_at(line, i) by {
        if copy_rows::marker_at(line, i) {
            assert(line[i + 1] == '.');
        }
    }
    if line == "\\."@ {
        let k: int = 0;
        assert(line[k + 1] == '.');
    }
}

/// A row that is written in the text format is read back: each value goes to the
/// place of its column, with the column's type and modifier.
pub proof fn a_row_in_the_text_format_is_read_back(
    target: CopyTargetView,
    values: Seq<Option<Seq<char>>>,
    delimiter: char,
)
    requires
        is_known(target),
        target.format == 0,
        target.delimiter == seq![delimiter] || target.delimiter.len() == 0 && delimiter == '\t',
        values.len() == target.column_metadata.len(),
        !target.null_print.contains(delimiter),
        forall|i: int|
            0 <= i < values.len() ==> ((#[trigger] values[i]) matches Some(s) ==> !fields::encoded(
                s,
            ).contains(delimiter) && fields::encoded(s) != target.null_print),
        is_plain_line(text_line(values, target.null_print, delimiter)),
    ensures
        target.line_read(text_line(values, target.null_print, delimiter)) matches CopyLineView::Row(
            row,
        ) && row.width == target.relation_columns && row.ignore_errors == (target.on_error == 1)
            && holds_values(
            row.items,
            values,
            slots_of(target),
            types_of(target),
            modifiers_of(target),
        ),
{
    let line = text_line(values, target.null_print, delimiter);
    let written = Seq::new(values.len(), |i: int| text_field(values[i], target.null_print));
    lemma_plain_line(line);
    assert forall|i: int| 0 <= i < written.len() implies !(#[trigger] written[i]).contains(
        delimiter,
    ) by {
        let _ = values[i];
    }
    fields::joined_fields_are_split_again(written, delimiter);
    assert(fields::delimiter_of(target.delimiter, '\t') == delimiter);
    let read = target.line_read(line);
    assert(read is Row);
    let row = read->Row_0;
    assert forall|i: int| 0 <= i < values.len() implies match values[i] {
        Some(s) => {
            &&& (#[trigger] row.items[i]) matches CopyItemView::Text {
                slot,
                type_oid,
                type_modifier,
                text,
            }
            &&& slot == slots_of(target)[i]
            &&& type_oid == types_of(target)[i]
            &&& type_modifier == modifiers_of(target)[i]
            &&& text == s
        },
        None => row.items[i] matches CopyItemView::Null(slot) && slot == slots_of(target)[i],
    } by {
        assert(0 < target.column_metadata[i].attnum <= target.relation_columns);
        match values[i] {
            Some(s) => {
                fields::decoding_undoes_encoding(s);
            },
            None => {},
        }
    }
}

/// A row that is written in the CSV format is read back as in the text format. A
/// field that reads like the mark for nothing stands for nothing.
pub proof fn a_row_in_the_csv_format_is_read_back(
    target: CopyTargetView,
    list: Seq<CsvField>,
    delimiter: char,
)
    requires
        is_known(target),
        target.format == 2,
        target.delimiter == seq![delimiter] || target.delimiter.len() == 0 && delimiter == ',',
        list.len() == target.column_metadata.len(),
        forall|i: int| 0 <= i < list.len() ==> (#[trigger] list[i]).can_be_written(delimiter),
        is_plain_line(field_laws::line_of(list, delimiter)),
    ensures
        target.line_read(field_laws::line_of(list, delimiter)) matches CopyLineView::Row(row)
            && row.width == target.relation_columns && row.ignore_errors == (target.on_error == 1)
            && holds_values(
            row.items,
            Seq::new(
                list.len(),
                |i: int|
                    if list[i].text() == target.null_print {
                        None
                    } else {
                        Some(list[i].text())
                    },
            ),
            slots_of(target),
            types_of(target),
            modifiers_of(target),
        ),
{
    let line = field_laws::line_of(list, delimiter);
    let values = Seq::new(
        list.len(),
        |i: int|
            if list[i].text() == target.null_print {
                None
            } else {
                Some(list[i].text())
            },
    );
    lemma_plain_line(line);
    field_laws::csv_fields_are_read_back(list, delimiter);
    assert(fields::delimiter_of(target.delimiter, ',') == delimiter);
    let read = target.line_read(line);
    assert(read is Row);
    let row = read->Row_0;
    assert forall|i: int| 0 <= i < values.len() implies match values[i] {
        Some(s) => {
            &&& (#[trigger] row.items[i]) matches CopyItemView::Text {
                slot,
                type_oid,
                type_modifier,
                text,
            }
            &&& slot == slots_of(target)[i]
            &&& type_oid == types_of(target)[i]
            &&& type_modifier == modifiers_of(target)[i]
            &&& text == s
        },
        None => row.items[i] matches CopyItemView::Null(slot) && slot == slots_of(target)[i],
    } by {
        assert(0 < target.column_metadata[i].attnum <= target.relation_columns);
    }
}

/// The mark of the end of the data, alone on its line, is no row; with anything
/// else on its line it is refused.
pub proof fn the_end_mark_stands_alone(
    target: CopyTargetView,
    relation: Option<RelationRecordView>,
    before: Seq<char>,
    behind: Seq<char>,
)
    requires
        behind.len() > 0 ==> behind.last() != '\n' && behind.last() != '\r',
        before.len() + behind.len() > 0,
    ensures
        target.line_read("\\."@) is Skipped,
        target.line_read("\\.\n"@) is Skipped,
        copy_rows::relation_line_read(target, relation, "\\."@) is Skipped,
        target.line_read(before + "\\."@ + behind) == CopyLineView::Refused(
            "end-of-copy marker is not alone on its line"@,
        ),
{
    reveal_strlit("\\.");
    reveal_strlit("\n");
    reveal_strlit("\\.\n");
    let line = before + "\\."@ + behind;
    the_end_of_a_line_is_left_off("\\."@);
    the_end_of_a_line_is_left_off(line);
    assert("\\."@ + "\n"@ =~= "\\.\n"@);
    assert(copy_rows::marker_at(line, before.len() as int));
    assert(line.len() != 2);
}

/// A line whose fields are not as many as the columns is refused.
pub proof fn a_line_has_a_field_for_each_column(target: CopyTargetView, line: Seq<char>)
    ensures
        target.line_read(line) matches CopyLineView::Row(row) ==> row.items.len()
            == target.column_metadata.len() && target.table_oid != 0 && target.relation_columns
            != 0,
        target.line_read(line) is Skipped && target.on_error != 1 ==> copy_rows::line_text(line)
            == "\\."@,
{
}

/// The columns that are named are found by their names, whatever the case of what
/// is written for them.
pub proof fn named_columns_are_found(
    names: Seq<Seq<char>>,
    relation: RelationRecordView,
    places: Seq<int>,
)
    requires
        names.len() == places.len(),
        forall|i: int|
            0 <= i < places.len() ==> {
                &&& 0 <= #[trigger] places[i] < relation.columns.len()
                &&& relation.columns[places[i]].name == text::lower(names[i])
            },
        forall|i: int, j: int|
            0 <= i < j < relation.columns.len() ==> (#[trigger] relation.columns[i]).name != (
            #[trigger] relation.columns[j]).name,
    ensures
        copy_rows::named_places(names, relation) == Ok::<_, Seq<char>>(places),
    decreases names.len(),
{
    if names.len() > 0 {
        let n = places.len() - 1;
        assert forall|i: int| 0 <= i < places.drop_last().len() implies {
            &&& 0 <= #[trigger] places.drop_last()[i] < relation.columns.len()
            &&& relation.columns[places.drop_last()[i]].name == text::lower(names.drop_last()[i])
        } by {
            let _ = places[i];
        }
        named_columns_are_found(names.drop_last(), relation, places.drop_last());
        let p = copy_rows::has_name(text::lower(names.last()));
        let at = places[n];
        assert forall|j: int| 0 <= j < at implies !p(#[trigger] relation.columns[j]) by {
            assert(relation.columns[j].name != relation.columns[at].name);
        }
        search::first_index_at(relation.columns, p, at);
        assert(places.drop_last().push(at) =~= places);
    } else {
        assert(places =~= seq![]);
    }
}

/// A row that is written in the text format goes to the columns that are named,
/// or, where none is, to all of them in their order.
pub proof fn a_row_for_a_relation_is_read_back(
    target: CopyTargetView,
    relation: RelationRecordView,
    places: Seq<int>,
    values: Seq<Option<Seq<char>>>,
)
    requires
        values.len() > 0,
        values.len() == places.len(),
        relation.columns.len() <= usize::MAX,
        forall|i: int, j: int|
            0 <= i < j < relation.columns.len() ==> (#[trigger] relation.columns[i]).name != (
            #[trigger] relation.columns[j]).name,
        forall|i: int| 0 <= i < places.len() ==> 0 <= #[trigger] places[i] < relation.columns.len(),
        if target.column_names.len() == 0 {
            places == Seq::new(relation.columns.len(), |i: int| i)
        } else {
            &&& target.column_names.len() == places.len()
            &&& forall|i: int|
                0 <= i < places.len() ==> relation.columns[#[trigger] places[i]].name
                    == text::lower(target.column_names[i])
        },
        is_plain_line(text_line(values, "\\N"@, '\t')),
        forall|i: int|
            0 <= i < values.len() ==> ((#[trigger] values[i]) matches Some(s) ==> fields::encoded(s)
                != "\\N"@),
    ensures
        copy_rows::relation_line_read(
            target,
            Some(relation),
            text_line(values, "\\N"@, '\t'),
        ) matches CopyLineView::Row(row) && row.width == relation.columns.len()
            && !row.ignore_errors && holds_values(
            row.items,
            values,
            places,
            Seq::new(places.len(), |i: int| relation.columns[places[i]].type_oid.0),
            Seq::new(places.len(), |i: int| relation.columns[places[i]].type_mod),
        ),
{
    reveal_strlit("\\N");
    let line = text_line(values, "\\N"@, '\t');
    let written = Seq::new(values.len(), |i: int| text_field(values[i], "\\N"@));
    lemma_plain_line(line);
    assert forall|i: int| 0 <= i < written.len() implies !(#[trigger] written[i]).contains('\t') by {
        match values[i] {
            Some(s) => {
                fields::decoding_undoes_encoding(s);
            },
            None => {},
        }
    }
    fields::joined_fields_are_split_again(written, '\t');
    if target.column_names.len() > 0 {
        named_columns_are_found(target.column_names, relation, places);
    }
    let read = copy_rows::relation_line_read(target, Some(relation), line);
    assert(read is Row);
    let row = read->Row_0;
    let types = Seq::new(places.len(), |i: int| relation.columns[places[i]].type_oid.0);
    let modifiers = Seq::new(places.len(), |i: int| relation.columns[places[i]].type_mod);
    assert forall|i: int| 0 <= i < values.len() implies match values[i] {
        Some(s) => {
            &&& (#[trigger] row.items[i]) matches CopyItemView::Text {
                slot,
                type_oid,
                type_modifier,
                text,
            }
            &&& slot == places[i]
            &&& type_oid == types[i]
            &&& type_modifier == modifiers[i]
            &&& text == s
        },
        None => row.items[i] matches CopyItemView::Null(slot) && slot == places[i],
    } by {
        assert(0 <= places[i] < relation.columns.len());
        match values[i] {
            Some(s) => {
                fields::decoding_undoes_encoding(s);
            },
            None => {},
        }
    }
}

/// What a type made of a text is stored as it was made: the value itself, or the
/// bytes that it refers to, which are none where nothing was handed over.
pub proof fn a_datum_is_stored_as_it_was_made(datum: InputDatum)
    ensures
        datum.typbyval ==> copy_steps::stored(datum) == CopyDatumView::ByValue(datum.value),
        !datum.typbyval && datum.payload is Some ==> copy_steps::stored(datum)
            == CopyDatumView::ByReference(datum.payload->0@),
        !datum.typbyval && datum.payload is None ==> copy_steps::stored(datum)
            == CopyDatumView::ByReference(seq![]),
{
}

/// A refusal carries the error's message, detail, hint and context, a line each,
/// and leaves the row out where errors are ignored.
pub proof fn a_refusal_carries_the_error(
    row: copy_rows::CopyRowView,
    error: PgCoreErrorView,
    detail: Seq<char>,
    hint: Seq<char>,
    context: Seq<char>,
)
    requires
        error.detail == Some(detail) || error.detail is None && detail.len() == 0,
        error.hint == Some(hint) || error.hint is None && hint.len() == 0,
        error.context == Some(context) || error.context is None && context.len() == 0,
    ensures
        row.ignore_errors ==> copy_steps::on_refusal(row, error) is Skip,
        !row.ignore_errors ==> copy_steps::on_refusal(row, error) == CopyStepView::Refuse(
            "\x1ffastpg-copy-error-fields\n"@ + text::joined(
                seq![error.message, detail, hint, context],
                "\n"@,
            ),
        ),
{
    let all = seq![error.message, detail, hint, context];
    reveal_with_fuel(text::joined, 5);
    assert(copy_steps::text_or_empty(error.detail) =~= detail);
    assert(copy_steps::text_or_empty(error.hint) =~= hint);
    assert(copy_steps::text_or_empty(error.context) =~= context);
    assert(all.drop_last() =~= seq![error.message, detail, hint]);
    assert(all.drop_last().drop_last() =~= seq![error.message, detail]);
    assert(all.drop_last().drop_last().drop_last() =~= seq![error.message]);
    assert(text::joined(all, "\n"@) =~= error.message + "\n"@ + detail + "\n"@ + hint + "\n"@
        + context);
    assert(copy_steps::carried_error(error) =~= "\x1ffastpg-copy-error-fields\n"@ + text::joined(
        all,
        "\n"@,
    ));
}

proof fn lemma_names_fault(t: CopyTargetView, fields: Seq<Option<Seq<char>>>, i: int)
    requires
        0 <= i <= fields.len(),
    ensures
        t.names_fault(fields, i) is None <==> forall|j: int|
            i <= j < fields.len() ==> #[trigger] fields[j] == Some(t.column_metadata[j].name),
    decreases fields.len() - i,
{
    if i < fields.len() {
        lemma_names_fault(t, fields, i + 1);
    }
}

/// A header is accepted where it holds the names of the columns, all of them and in
/// their order, and in no other case.
pub proof fn a_header_holds_the_names(t: CopyTargetView, line: Seq<char>)
    ensures
        t.header_fault(line) is None <==> {
            &&& t.input_fields(line) matches Ok(fields)
            &&& fields.len() == t.column_metadata.len()
            &&& forall|j: int|
                0 <= j < fields.len() ==> #[trigger] fields[j] == Some(t.column_metadata[j].name)
        },
{
    match t.input_fields(line) {
        Ok(fields) => {
            lemma_names_fault(t, fields, 0);
        },
        Err(_) => {},
    }
}

/// A copy from a file is written with the relation, the columns that are named, the
/// file and the options.
pub proof fn a_copy_from_a_file_is_written(t: CopyTargetView, path: Seq<char>)
    ensures
        t.column_names.len() == 0 ==> t.file_sql(path) == "COPY "@ + lexing::quoted(t.table, '"')
            + " FROM "@ + lexing::quoted(path, '\'') + " WITH ("@ + text::joined(
            t.options(),
            ", "@,
        ) + ")"@,
        t.column_names.len() > 0 ==> t.file_sql(path) == "COPY "@ + lexing::quoted(t.table, '"')
            + (" ("@ + text::joined(
            Seq::new(t.column_names.len(), |i: int| lexing::quoted(t.column_names[i], '"')),
            ", "@,
        ) + ")"@) + " FROM "@ + lexing::quoted(path, '\'') + " WITH ("@ + text::joined(
            t.options(),
            ", "@,
        ) + ")"@,
{
    let head = "COPY "@ + lexing::quoted(t.table, '"');
    if t.column_names.len() == 0 {
        assert(t.column_list() =~= seq![]);
        assert(head + t.column_list() =~= head);
    }
}

/// What is refused is told: a line with the wrong number of fields, and a column that
/// its relation has no place for.
pub proof fn refused_lines_say_what_is_wrong(
    t: CopyTargetView,
    c: copy::CopyColumnView,
    field: Option<Seq<char>>,
    fields: int,
    columns: int,
)
    ensures
        copy_rows::count_fault(t.table, fields, columns) == "COPY row for relation \""@ + t.table
            + "\" has "@ + text::decimal_int(fields) + " fields but "@ + text::decimal_int(columns)
            + " columns"@,
        c.attnum <= 0 || c.attnum > t.relation_columns ==> copy_rows::target_item(t, c, field)
            == CopyItemView::Bad(
            "COPY column \""@ + c.name + "\" of relation \""@ + t.table
                + "\" has invalid attribute number "@ + text::decimal_int(c.attnum as int),
        ),
        0 < c.attnum <= t.relation_columns ==> !(copy_rows::target_item(t, c, field) is Bad),
{
}

/// Lines that are header lines and lines that are data are all the lines, and no
/// line of data comes before the header's end.
pub proof fn header_and_data_are_all_lines(target: CopyTargetView, lines: nat)
    ensures
        target.header_line == -1 ==> target.header_lines() == 1,
        target.header_line > 0 ==> target.header_lines() == target.header_line,
        target.header_line == 0 || target.header_line < -1 ==> target.header_lines() == 0,
        lines >= target.header_lines() ==> copy_sql::data_lines(target, lines as int)
            + target.header_lines() == lines,
        lines < target.header_lines() ==> copy_sql::data_lines(target, lines as int) == 0,
{
}

/// Where the core tells how many rows it took, that is the number of rows that are
/// stored, and else that of the lines of data.
pub proof fn stored_rows_are_those_told(
    target: CopyTargetView,
    lines: int,
    statements: Seq<ExecutionStatementView>,
)
    ensures
        statements.len() > 0 ==> (statements[0].command_rows matches Some(n)
            ==> session::rows_stored(target, lines, statements) == n),
        statements.len() == 0 ==> session::rows_stored(target, lines, statements)
            == copy_sql::data_lines(target, lines),
        statements.len() > 0 && statements[0].command_rows is None ==> session::rows_stored(
            target,
            lines,
            statements,
        ) == copy_sql::data_lines(target, lines),
{
}

/// The bytes of lines are those of each line with a line feed behind it, one line
/// behind the other.
pub proof fn lines_stand_one_behind_the_other(a: Seq<Seq<char>>, b: Seq<Seq<char>>, s: Seq<char>)
    ensures
        copy_sql::line_bytes(seq![]) == Seq::<u8>::empty(),
        copy_sql::line_bytes(seq![s]) == utf8::encode_utf8(s) + seq![0x0au8],
        copy_sql::line_bytes(a + b) == copy_sql::line_bytes(a) + copy_sql::line_bytes(b),
    decreases b.len(),
{
    assert(seq![s].drop_last() =~= seq![]);
    assert(copy_sql::line_bytes(seq![]) =~= seq![]);
    if b.len() == 0 {
        assert(a + b =~= a);
        assert(copy_sql::line_bytes(a) + copy_sql::line_bytes(b) =~= copy_sql::line_bytes(a));
    } else {
        lines_stand_one_behind_the_other(a, b.drop_last(), s);
        assert((a + b).drop_last() =~= a + b.drop_last());
        assert((a + b).last() == b.last());
        let left = copy_sql::line_bytes(a);
        let right = copy_sql::line_bytes(b.drop_last());
        assert(left + right + utf8::encode_utf8(b.last()) + seq![10u8] =~= left + (right
            + utf8::encode_utf8(b.last()) + seq![10u8]));
    }
}

} // verus!
