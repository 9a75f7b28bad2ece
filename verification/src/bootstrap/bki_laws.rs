//! A catalog that is written to the bootstrap file is read back from it.

use vstd::prelude::*;

use crate::bootstrap::bki;
use crate::bootstrap::bki::{BkiColumnView, BkiScan, BkiTableView};
use crate::bootstrap::lines;
use crate::bootstrap::values;
use crate::search;
use crate::text;

verus! {

/// Whether a text is one word.
pub open spec fn is_word(s: Seq<char>) -> bool {
    s.len() > 0 && forall|i: int| 0 <= i < s.len() ==> !text::is_space(#[trigger] s[i])
}

/// A column as it is written.
pub open spec fn column_line(column: BkiColumnView) -> Seq<char> {
    column.name + " = "@ + column.column_type
}

/// The values of a row as they are written.
pub open spec fn row_values(row: Seq<Option<Seq<char>>>) -> Seq<Seq<char>> {
    row.map_values(
        |value: Option<Seq<char>>|
            match value {
                Some(s) => s,
                None => "_null_"@,
            },
    )
}

/// A row as it is written.
pub open spec fn row_line(row: Seq<Option<Seq<char>>>) -> Seq<char> {
    "insert ("@ + values::written(row_values(row)) + ")"@
}

/// The heading of a catalog as it is written.
pub open spec fn heading(table: BkiTableView) -> Seq<char> {
    "create "@ + table.name + " "@ + text::decimal_int(table.oid as int) + " rowtype_oid "@
        + text::decimal_int(table.rowtype_oid as int)
}

/// A catalog as it is written, line by line.
pub open spec fn table_lines(table: BkiTableView) -> Seq<Seq<char>> {
    (seq![heading(table), "("@] + table.columns.map_values(
        |column: BkiColumnView| column_line(column),
    )).push(")"@) + table.rows.map_values(|row: Seq<Option<Seq<char>>>| row_line(row))
        + seq!["close "@ + table.name]
}

/// Whether a row can be written: no value is empty, or the word that stands for a
/// null.
pub open spec fn row_can_be_written(row: Seq<Option<Seq<char>>>) -> bool {
    forall|i: int|
        0 <= i < row.len() ==> (#[trigger] row[i] matches Some(s) ==> s.len() > 0 && s
            != "_null_"@)
}

/// Whether a catalog can be written: its name and those of its columns and their
/// types are words, no type ends with a comma, the name is not the word that
/// announces a row type, and its rows can be written.
pub open spec fn can_be_written(table: BkiTableView) -> bool {
    &&& is_word(table.name)
    &&& table.name != "rowtype_oid"@
    &&& forall|i: int|
        0 <= i < table.columns.len() ==> {
            &&& is_word((#[trigger] table.columns[i]).name)
            &&& is_word(table.columns[i].column_type)
            &&& table.columns[i].column_type.last() != ','
        }
    &&& forall|i: int| 0 <= i < table.rows.len() ==> row_can_be_written(#[trigger] table.rows[i])
}

/// Whether a scan for words stands between words.
pub open spec fn between_words(s: Seq<char>) -> bool {
    text::scan_words(s).current.len() == 0
}

pub(crate) proof fn lemma_scan_word(s: Seq<char>, w: Seq<char>)
    requires
        between_words(s),
        forall|i: int| 0 <= i < w.len() ==> !text::is_space(#[trigger] w[i]),
    ensures
        text::scan_words(s + w) == (text::WordScan {
            words: text::scan_words(s).words,
            current: w,
        }),
    decreases w.len(),
{
    if w.len() == 0 {
        assert(s + w =~= s);
        assert(text::scan_words(s).current =~= w);
    } else {
        let shorter = w.drop_last();
        assert forall|i: int| 0 <= i < shorter.len() implies !text::is_space(
            #[trigger] shorter[i],
        ) by {
            assert(shorter[i] == w[i]);
        }
        lemma_scan_word(s, shorter);
        assert((s + w).drop_last() =~= s + shorter);
        assert((s + w).last() == w[w.len() - 1]);
        assert(shorter.push(w.last()) =~= w);
    }
}

/// A word with a space behind it comes behind the words before it.
proof fn lemma_word_and_space(s: Seq<char>, w: Seq<char>)
    requires
        between_words(s),
        is_word(w),
    ensures
        between_words(s + w + " "@),
        text::scan_words(s + w + " "@).words == text::scan_words(s).words.push(w),
{
    reveal_strlit(" ");
    lemma_scan_word(s, w);
    let all = s + w + " "@;
    assert(all.drop_last() =~= s + w);
    assert(all.last() == ' ');
}

/// A word at the end comes behind the words before it.
proof fn lemma_last_word(s: Seq<char>, w: Seq<char>)
    requires
        between_words(s),
        is_word(w),
    ensures
        text::words(s + w) == text::scan_words(s).words.push(w),
{
    lemma_scan_word(s, w);
}

proof fn lemma_column_is_described(column: BkiColumnView)
    requires
        is_word(column.name),
        is_word(column.column_type),
        column.column_type.last() != ',',
    ensures
        bki::described(column_line(column)) == Some(column),
        column_line(column) != "("@,
        column_line(column) != ")"@,
{
    reveal_strlit(" = ");
    reveal_strlit("=");
    reveal_strlit(" ");
    reveal_strlit("(");
    reveal_strlit(")");
    let line = column_line(column);
    let nothing = Seq::<char>::empty();
    assert(line.last() == column.column_type.last());
    assert(lines::without_trailing(line, ',') == line);
    lemma_word_and_space(nothing, column.name);
    let first = nothing + column.name + " "@;
    assert("="@ =~= seq!['=']);
    lemma_word_and_space(first, "="@);
    let second = first + "="@ + " "@;
    lemma_last_word(second, column.column_type);
    assert(second + column.column_type =~= line);
    assert(text::words(line) =~= seq![column.name, "="@, column.column_type]);
}

proof fn lemma_decimal_is_a_word(n: int)
    requires
        0 <= n,
    ensures
        is_word(text::decimal_int(n)),
        text::is_digit(text::decimal_int(n)[0]),
    decreases n,
{
    lemma_decimal_digits(n as nat);
}

pub(crate) proof fn lemma_decimal_digits(n: nat)
    ensures
        text::decimal(n).len() > 0,
        text::all_digits(text::decimal(n)),
        is_word(text::decimal(n)),
    decreases n,
{
    if n >= 10 {
        lemma_decimal_digits(n / 10);
    }
    let s = text::decimal(n);
    assert forall|i: int| 0 <= i < s.len() implies text::is_digit(#[trigger] s[i])
        && !text::is_space(s[i]) by {
        if i < s.len() - 1 {
            assert(s[i] == text::decimal(n / 10)[i]);
            assert(text::is_digit(text::decimal(n / 10)[i]));
        }
    }
}

proof fn lemma_heading_announces(table: BkiTableView)
    requires
        is_word(table.name),
        table.name != "rowtype_oid"@,
    ensures
        bki::announced(heading(table)) == Some(
            BkiTableView { columns: seq![], rows: seq![], ..table },
        ),
        "create "@.is_prefix_of(heading(table)),
{
    reveal_strlit("create ");
    reveal_strlit("create");
    reveal_strlit(" rowtype_oid ");
    reveal_strlit("rowtype_oid");
    reveal_strlit(" ");
    let line = heading(table);
    let nothing = Seq::<char>::empty();
    let oid = text::decimal_int(table.oid as int);
    let rowtype = text::decimal_int(table.rowtype_oid as int);
    lemma_decimal_is_a_word(table.oid as int);
    lemma_decimal_is_a_word(table.rowtype_oid as int);
    text::decimal_form_reads_back(table.oid as int, 0, u32::MAX as int);
    text::decimal_form_reads_back(table.rowtype_oid as int, 0, u32::MAX as int);
    assert(is_word("create"@));
    assert(is_word("rowtype_oid"@));
    lemma_word_and_space(nothing, "create"@);
    let first = nothing + "create"@ + " "@;
    lemma_word_and_space(first, table.name);
    let second = first + table.name + " "@;
    lemma_word_and_space(second, oid);
    let third = second + oid + " "@;
    lemma_word_and_space(third, "rowtype_oid"@);
    let fourth = third + "rowtype_oid"@ + " "@;
    lemma_last_word(fourth, rowtype);
    assert(fourth + rowtype =~= line);
    let words = text::words(line);
    assert(words =~= seq!["create"@, table.name, oid, "rowtype_oid"@, rowtype]);
    assert("create"@[0] != "rowtype_oid"@[0]);
    assert(oid[0] != "rowtype_oid"@[0]);
    reveal_with_fuel(bki::announced_from, 5);
    assert(bki::announced_from(words, 0) == Some(3int));
    assert(line.take(7) =~= "create "@);
}

proof fn lemma_row_is_inserted(row: Seq<Option<Seq<char>>>)
    requires
        row_can_be_written(row),
    ensures
        values::inserted(row_line(row)) == Some(row),
        "insert "@.is_prefix_of(row_line(row)),
        !"create "@.is_prefix_of(row_line(row)),
{
    reveal_strlit("insert (");
    reveal_strlit("insert ");
    reveal_strlit("create ");
    reveal_strlit(")");
    reveal_strlit("_null_");
    let line = row_line(row);
    let list = row_values(row);
    let inner = values::written(list);
    assert forall|i: int| 0 <= i < list.len() implies (#[trigger] list[i]).len() > 0 by {
        assert(row[i] is Some || list[i] == "_null_"@);
    }
    values::written_values_are_read_back(list);
    search::first_index_at(line, lines::is_char('('), 7);
    assert(line.last() == ')');
    assert(line.subrange(8, line.len() - 1) =~= inner);
    let read = list.map_values(|value: Seq<char>| values::or_null(value));
    assert forall|i: int| 0 <= i < row.len() implies #[trigger] read[i] == row[i] by {
        assert(row[i] is Some ==> list[i] == row[i]->0);
    }
    assert(read =~= row);
    assert(line.take(7) =~= "insert "@);
    assert(line[0] != "create "@[0]);
}

proof fn lemma_next_line(all: Seq<Seq<char>>, line: Seq<char>)
    ensures
        bki::scanned(all.push(line)) == match bki::scanned(all) {
            Some(scan) => scan.after(line),
            None => None,
        },
{
    assert(all.push(line).drop_last() =~= all);
}

proof fn lemma_columns_are_listed(
    all: Seq<Seq<char>>,
    scan: BkiScan,
    table: BkiTableView,
    columns: Seq<BkiColumnView>,
)
    requires
        bki::scanned(all) == Some(scan),
        scan.listing,
        scan.open == Some(table),
        forall|i: int|
            0 <= i < columns.len() ==> {
                &&& is_word((#[trigger] columns[i]).name)
                &&& is_word(columns[i].column_type)
                &&& columns[i].column_type.last() != ','
            },
    ensures
        bki::scanned(
            all + columns.map_values(|column: BkiColumnView| column_line(column)),
        ) == Some(
            BkiScan {
                open: Some(BkiTableView { columns: table.columns + columns, ..table }),
                ..scan
            },
        ),
    decreases columns.len(),
{
    let written = columns.map_values(|column: BkiColumnView| column_line(column));
    if columns.len() == 0 {
        assert(all + written =~= all);
        assert(table.columns + columns =~= table.columns);
    } else {
        let shorter = columns.drop_last();
        assert forall|i: int| 0 <= i < shorter.len() implies {
            &&& is_word((#[trigger] shorter[i]).name)
            &&& is_word(shorter[i].column_type)
            &&& shorter[i].column_type.last() != ','
        } by {
            assert(shorter[i] == columns[i]);
        }
        lemma_columns_are_listed(all, scan, table, shorter);
        let before = all + shorter.map_values(|column: BkiColumnView| column_line(column));
        let column = columns[columns.len() - 1];
        lemma_column_is_described(column);
        lemma_next_line(before, column_line(column));
        assert(all + written =~= before.push(column_line(column)));
        assert((table.columns + shorter).push(column) =~= table.columns + columns);
    }
}

proof fn lemma_rows_are_inserted(
    all: Seq<Seq<char>>,
    scan: BkiScan,
    table: BkiTableView,
    rows: Seq<Seq<Option<Seq<char>>>>,
)
    requires
        bki::scanned(all) == Some(scan),
        !scan.listing,
        scan.open == Some(table),
        forall|i: int| 0 <= i < rows.len() ==> row_can_be_written(#[trigger] rows[i]),
    ensures
        bki::scanned(
            all + rows.map_values(|row: Seq<Option<Seq<char>>>| row_line(row)),
        ) == Some(
            BkiScan {
                open: Some(BkiTableView { rows: table.rows + rows, ..table }),
                ..scan
            },
        ),
    decreases rows.len(),
{
    let written = rows.map_values(|row: Seq<Option<Seq<char>>>| row_line(row));
    if rows.len() == 0 {
        assert(all + written =~= all);
        assert(table.rows + rows =~= table.rows);
    } else {
        let shorter = rows.drop_last();
        assert forall|i: int| 0 <= i < shorter.len() implies row_can_be_written(
            #[trigger] shorter[i],
        ) by {
            assert(shorter[i] == rows[i]);
        }
        lemma_rows_are_inserted(all, scan, table, shorter);
        let before = all + shorter.map_values(|row: Seq<Option<Seq<char>>>| row_line(row));
        let row = rows[rows.len() - 1];
        lemma_row_is_inserted(row);
        lemma_next_line(before, row_line(row));
        assert(all + written =~= before.push(row_line(row)));
        assert((table.rows + shorter).push(row) =~= table.rows + rows);
    }
}

/// A catalog that is written where none is open is read back behind those before
/// it.
pub proof fn a_written_table_is_read_back(all: Seq<Seq<char>>, table: BkiTableView)
    requires
        bki::scanned(all) matches Some(scan) && scan.open is None && !scan.listing,
        can_be_written(table),
    ensures
        bki::scanned(all + table_lines(table)) == Some(
            BkiScan {
                tables: bki::scanned(all)->0.tables.push(table),
                open: None,
                listing: false,
            },
        ),
{
    reveal_strlit("(");
    reveal_strlit(")");
    reveal_strlit("close ");
    reveal_strlit("create ");
    reveal_strlit("insert ");
    let start = bki::scanned(all)->0;
    let empty = BkiTableView { columns: seq![], rows: seq![], ..table };
    lemma_heading_announces(table);
    lemma_next_line(all, heading(table));
    let headed = all.push(heading(table));
    lemma_next_line(headed, "("@);
    let opened = headed.push("("@);
    let listing = BkiScan { tables: start.tables, open: Some(empty), listing: true };
    assert(bki::scanned(opened) == Some(listing));
    lemma_columns_are_listed(opened, listing, empty, table.columns);
    let columns = table.columns.map_values(|column: BkiColumnView| column_line(column));
    assert(empty.columns + table.columns =~= table.columns);
    let listed = BkiTableView { rows: seq![], ..table };
    lemma_next_line(opened + columns, ")"@);
    assert("("@[0] != ")"@[0]);
    let ended = (opened + columns).push(")"@);
    let inserting = BkiScan { tables: start.tables, open: Some(listed), listing: false };
    assert(bki::scanned(ended) == Some(inserting));
    lemma_rows_are_inserted(ended, inserting, listed, table.rows);
    assert(listed.rows + table.rows =~= table.rows);
    let rows = table.rows.map_values(|row: Seq<Option<Seq<char>>>| row_line(row));
    let closing = "close "@ + table.name;
    lemma_next_line(ended + rows, closing);
    assert(closing[1] != "create "@[1]);
    assert(closing[0] != "insert "@[0]);
    assert(closing.take(6) =~= "close "@);
    assert("close "@.is_prefix_of(closing));
    assert(all + table_lines(table) =~= (ended + rows).push(closing));
}

} // verus!
