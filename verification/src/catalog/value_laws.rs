//! Values of catalogs are read back from the texts that they are written as.

use vstd::prelude::*;

use crate::bootstrap::bki_laws;
use crate::catalog::edit;
use crate::catalog::model::{CatalogValueView, FloatReadings, StaticCatalogColumn, StaticCatalogRow};
use crate::catalog::values;
use crate::parser;
use crate::text;
use crate::text_laws;
use crate::types::Oid;

verus! {

/// A number is read from its decimal form, whatever width it is read with.
pub proof fn numbers_are_read_back(n: int)
    ensures
        0 <= n <= u32::MAX ==> values::as_u32(text::decimal_int(n)) == Some(n as u32),
        i16::MIN <= n <= i16::MAX ==> values::as_i16(text::decimal_int(n)) == Some(n as i16),
        i32::MIN <= n <= i32::MAX ==> values::as_i32(text::decimal_int(n)) == Some(n as i32),
        i64::MIN <= n <= i64::MAX ==> values::as_i64(text::decimal_int(n)) == Some(n as i64),
{
    if 0 <= n <= u32::MAX {
        text::decimal_form_reads_back(n, 0, u32::MAX as int);
    }
    if i16::MIN <= n <= i16::MAX {
        text::decimal_form_reads_back(n, i16::MIN as int, i16::MAX as int);
    }
    if i32::MIN <= n <= i32::MAX {
        text::decimal_form_reads_back(n, i32::MIN as int, i32::MAX as int);
    }
    if i64::MIN <= n <= i64::MAX {
        text::decimal_form_reads_back(n, i64::MIN as int, i64::MAX as int);
    }
}

/// What is true is written with one letter or as a word, and so is what is not.
pub proof fn truths_go_by_these_words(s: Seq<char>)
    ensures
        values::truth(s) == Some(true) <==> s == "t"@ || s == "true"@,
        values::truth(s) == Some(false) <==> s == "f"@ || s == "false"@,
{
    reveal_strlit("t");
    reveal_strlit("true");
    reveal_strlit("f");
    reveal_strlit("false");
    assert("t"@[0] == 't' && "f"@[0] == 'f' && "true"@[0] == 't' && "false"@[0] == 'f');
}

/// A text that is put into a column is read as its type says, and kept as it is
/// where the type makes nothing of it.
pub proof fn texts_are_read_as_their_types_say(
    floats: FloatReadings,
    column: StaticCatalogColumn,
    raw: Seq<char>,
)
    ensures
        ({
            let t = column.type_oid.0;
            match values::text_value(floats, column, raw) {
                CatalogValueView::Bool(b) => t == 16 && values::truth(raw) == Some(b),
                CatalogValueView::Char(c) => t == 18 && c == values::char_byte(raw),
                CatalogValueView::Int16(n) => t == 21 && values::as_i16(raw) == Some(n),
                CatalogValueView::Int32(n) => t == 23 && values::as_i32(raw) == Some(n),
                CatalogValueView::Float32(bits) => t == 700 && floats.single_of(raw) == Some(bits),
                CatalogValueView::Name(s) => t == 19 && s == raw,
                CatalogValueView::Text(s) => (t == 25 || t == 194) && s == raw,
                CatalogValueView::OidVector(_) => t == 30,
                CatalogValueView::Int2Vector(_) => t == 22,
                CatalogValueView::Oid(oid) => {
                    &&& t == 26 || t == 2205 || "reg"@.is_prefix_of(column.column_type@)
                        || column.column_type@ == "oid"@
                    &&& values::as_u32(raw) == Some(oid.0)
                },
                CatalogValueView::Raw(s) => s == raw,
                _ => false,
            }
        }),
{
}

/// A value of each type is read back from the text that it is written as.
pub proof fn values_are_read_back(floats: FloatReadings, column: StaticCatalogColumn, n: int)
    ensures
        ({
            let t = column.type_oid.0;
            let written = text::decimal_int(n);
            let read = values::text_value(floats, column, written);
            let fixed = values::static_text_value(floats, column, written);
            &&& t == 21 && i16::MIN <= n <= i16::MAX ==> read == CatalogValueView::Int16(n as i16)
                && fixed == CatalogValueView::Int16(n as i16)
            &&& t == 23 && i32::MIN <= n <= i32::MAX ==> read == CatalogValueView::Int32(n as i32)
                && fixed == CatalogValueView::Int32(n as i32)
            &&& (t == 26 || t == 2205) && 0 <= n <= u32::MAX ==> read == CatalogValueView::Oid(
                Oid(n as u32),
            ) && fixed == CatalogValueView::Oid(Oid(n as u32))
        }),
        column.type_oid.0 == 16 ==> {
            &&& values::text_value(floats, column, "t"@) == CatalogValueView::Bool(true)
            &&& values::text_value(floats, column, "f"@) == CatalogValueView::Bool(false)
            &&& values::static_text_value(floats, column, "t"@) == CatalogValueView::Bool(true)
            &&& values::static_text_value(floats, column, "f"@) == CatalogValueView::Bool(false)
        },
{
    reveal_strlit("-");
    reveal_strlit("NAMEDATALEN");
    numbers_are_read_back(n);
    truths_go_by_these_words("t"@);
    truths_go_by_these_words("f"@);
    let written = text::decimal_int(n);
    text::decimal_form_reads_back(n, n, n);
    if written == "-"@ {
        assert(written.len() == 1);
        assert(text::parsed_int(written, n, n) is None);
    }
    if written == "NAMEDATALEN"@ {
        assert(written[0] == 'N');
        assert(text::parsed_int(written, n, n) is None);
    }
}

/// A compiled-in value that is left out is zero, and one that is given by a name
/// is what the name stands for.
pub proof fn names_of_numbers_are_known(floats: FloatReadings, column: StaticCatalogColumn)
    ensures
        values::static_u32("-"@) == Some(0u32),
        values::static_i32("-"@) == Some(0i32),
        values::static_u32("NAMEDATALEN"@) == Some(64u32),
        values::static_i32("NAMEDATALEN"@) == Some(64i32),
        column.type_oid.0 == 26 || column.type_oid.0 == 2205 ==> values::static_text_value(
            floats,
            column,
            "-"@,
        ) == CatalogValueView::Oid(Oid(0)),
        column.type_oid.0 == 21 ==> values::static_text_value(floats, column, "NAMEDATALEN"@)
            == CatalogValueView::Int16(64),
        values::char_byte("\\0"@) == 0,
        values::char_byte(seq![]) == 0,
{
    reveal_strlit("-");
    reveal_strlit("NAMEDATALEN");
    reveal_strlit("\\0");
    assert("-"@.len() == 1 && "NAMEDATALEN"@.len() == 11);
    let empty = Seq::<char>::empty();
    assert(empty.len() == 0 && "\\0"@.len() == 2);
    assert(vstd::utf8::encode_utf8(empty).len() == 0);
}

/// The words that numbers are written as.
pub open spec fn oid_words(list: Seq<Oid>) -> Seq<Seq<char>> {
    Seq::new(list.len(), |i: int| text::decimal_int(list[i].0 as int))
}

pub open spec fn int2_words(list: Seq<i16>) -> Seq<Seq<char>> {
    Seq::new(list.len(), |i: int| text::decimal_int(list[i] as int))
}

proof fn lemma_oids(list: Seq<Oid>)
    ensures
        values::oids_of(oid_words(list)) == list,
    decreases list.len(),
{
    if list.len() > 0 {
        lemma_oids(list.drop_last());
        assert(oid_words(list).drop_last() =~= oid_words(list.drop_last()));
        numbers_are_read_back(list.last().0 as int);
        assert(list.drop_last().push(list.last()) =~= list);
    } else {
        assert(values::oids_of(oid_words(list)) =~= list);
    }
}

proof fn lemma_int2s(list: Seq<i16>)
    ensures
        values::int2s_of(int2_words(list)) == list,
    decreases list.len(),
{
    if list.len() > 0 {
        lemma_int2s(list.drop_last());
        assert(int2_words(list).drop_last() =~= int2_words(list.drop_last()));
        numbers_are_read_back(list.last() as int);
        assert(list.drop_last().push(list.last()) =~= list);
    } else {
        assert(values::int2s_of(int2_words(list)) =~= list);
    }
}

pub(crate) proof fn lemma_decimal_word(n: int)
    ensures
        bki_laws::is_word(text::decimal_int(n)),
{
    if n < 0 {
        bki_laws::lemma_decimal_digits((-n) as nat);
    } else {
        bki_laws::lemma_decimal_digits(n as nat);
    }
}

/// A list of numbers with single spaces between them is read back.
pub proof fn lists_of_numbers_are_read_back(
    floats: FloatReadings,
    column: StaticCatalogColumn,
    oids: Seq<Oid>,
    numbers: Seq<i16>,
)
    ensures
        column.type_oid.0 == 30 ==> {
            let written = text::joined(oid_words(oids), " "@);
            &&& values::text_value(floats, column, written) == CatalogValueView::OidVector(oids)
            &&& values::static_text_value(floats, column, written) == CatalogValueView::OidVector(
                oids,
            )
        },
        column.type_oid.0 == 22 ==> {
            let written = text::joined(int2_words(numbers), " "@);
            &&& values::text_value(floats, column, written) == CatalogValueView::Int2Vector(numbers)
            &&& values::static_text_value(floats, column, written) == CatalogValueView::Int2Vector(
                numbers,
            )
        },
{
    lemma_lists(oids, numbers);
}

pub(crate) proof fn lemma_lists(oids: Seq<Oid>, numbers: Seq<i16>)
    ensures
        values::oids_of(text::words(text::joined(oid_words(oids), " "@))) == oids,
        values::int2s_of(text::words(text::joined(int2_words(numbers), " "@))) == numbers,
{
    reveal_strlit(" ");
    assert(parser::is_blank(" "@));
    assert forall|i: int| 0 <= i < oids.len() implies bki_laws::is_word(
        #[trigger] oid_words(oids)[i],
    ) by {
        lemma_decimal_word(oids[i].0 as int);
    }
    assert forall|i: int| 0 <= i < numbers.len() implies bki_laws::is_word(
        #[trigger] int2_words(numbers)[i],
    ) by {
        lemma_decimal_word(numbers[i] as int);
    }
    text_laws::joined_words_are_split_again(oid_words(oids), " "@);
    text_laws::joined_words_are_split_again(int2_words(numbers), " "@);
    lemma_oids(oids);
    lemma_int2s(numbers);
}

/// An element as it is written between quotes, with a backslash in front of each
/// quote and backslash.
pub open spec fn escaped(s: Seq<char>) -> Seq<char>
    decreases s.len(),
{
    if s.len() == 0 {
        seq![]
    } else if s.last() == '"' || s.last() == '\\' {
        escaped(s.drop_last()).push('\\').push(s.last())
    } else {
        escaped(s.drop_last()).push(s.last())
    }
}

pub open spec fn array_body(list: Seq<Seq<char>>) -> Seq<char>
    decreases list.len(),
{
    if list.len() == 0 {
        seq![]
    } else if list.len() == 1 {
        seq!['"'] + escaped(list[0]) + seq!['"']
    } else {
        array_body(list.drop_last()) + seq![',', '"'] + escaped(list.last()) + seq!['"']
    }
}

proof fn lemma_scan_escaped(before: Seq<char>, s: Seq<char>)
    requires
        ({
            let scan = values::array_scan(before);
            scan.quoted && !scan.escaped
        }),
    ensures
        ({
            let scan = values::array_scan(before);
            let told = values::array_scan(before + escaped(s));
            &&& told.elements == scan.elements
            &&& told.current == scan.current + s
            &&& told.quoted
            &&& !told.escaped
            &&& told.saw_quote == scan.saw_quote
        }),
    decreases s.len(),
{
    let whole = before + escaped(s);
    if s.len() == 0 {
        assert(whole =~= before);
        assert(values::array_scan(before).current + s =~= values::array_scan(before).current);
    } else {
        let c = s.last();
        lemma_scan_escaped(before, s.drop_last());
        let most = before + escaped(s.drop_last());
        assert(values::array_scan(before).current + s =~= (values::array_scan(before).current
            + s.drop_last()).push(c));
        if c == '"' || c == '\\' {
            assert(whole.drop_last() =~= most.push('\\'));
            assert(most.push('\\').drop_last() =~= most);
            assert(whole.last() == c);
            assert(most.push('\\').last() == '\\');
            assert(values::array_scan(most.push('\\')) == values::array_step(
                values::array_scan(most),
                '\\',
            ));
            assert(values::array_scan(whole) == values::array_step(
                values::array_scan(most.push('\\')),
                c,
            ));
        } else {
            assert(whole.drop_last() =~= most);
            assert(whole.last() == c);
        }
    }
}

proof fn lemma_scan_body(list: Seq<Seq<char>>)
    requires
        list.len() > 0,
    ensures
        ({
            let told = values::array_scan(array_body(list));
            &&& told.elements == Seq::new((list.len() - 1) as nat, |i: int| Some(list[i]))
            &&& told.current == list.last()
            &&& !told.quoted
            &&& !told.escaped
            &&& told.saw_quote
        }),
    decreases list.len(),
{
    let body = array_body(list);
    let most = if list.len() == 1 {
        seq![]
    } else {
        array_body(list.drop_last()).push(',')
    };
    if list.len() > 1 {
        lemma_scan_body(list.drop_last());
        assert(most.drop_last() =~= array_body(list.drop_last()));
        assert(values::array_scan(most).elements =~= Seq::new(
            (list.len() - 1) as nat,
            |i: int| Some(list[i]),
        ));
    } else {
        assert(values::array_scan(most).elements =~= Seq::new(
            (list.len() - 1) as nat,
            |i: int| Some(list[i]),
        ));
    }
    let open = most.push('"');
    assert(open.drop_last() =~= most);
    assert(values::array_scan(most).current =~= seq![]);
    lemma_scan_escaped(open, list.last());
    assert(values::array_scan(open).current + list.last() =~= list.last());
    assert(body.drop_last() =~= open + escaped(list.last()));
    assert(body.last() == '"');
}

/// The elements of an array are read back from its written form, whatever texts
/// they are.
pub proof fn an_array_is_read_back(list: Seq<Seq<char>>)
    ensures
        values::array_elements(seq!['{'] + array_body(list) + seq!['}']) == Some(
            Seq::new(list.len(), |i: int| Some(list[i])),
        ),
        values::array_elements("{NULL}"@) == Some(seq![None::<Seq<char>>]),
{
    let body = array_body(list);
    let whole = seq!['{'] + body + seq!['}'];
    assert(whole.subrange(1, whole.len() - 1) =~= body);
    reveal_strlit("NULL");
    reveal_strlit("{NULL}");
    reveal_with_fuel(values::array_scan, 6);
    let word = "{NULL}"@;
    let inner = word.subrange(1, 5);
    assert(inner =~= "NULL"@);
    assert(inner.drop_last() =~= seq!['N', 'U', 'L']);
    assert(inner.drop_last().drop_last() =~= seq!['N', 'U']);
    assert(inner.drop_last().drop_last().drop_last() =~= seq!['N']);
    assert(inner.drop_last().drop_last().drop_last().drop_last() =~= seq![]);
    assert(values::array_scan(inner).current =~= "NULL"@);
    assert(values::array_scan(inner).elements =~= seq![]);
    assert(Seq::<Option<Seq<char>>>::empty().push(None) =~= seq![None::<Seq<char>>]);
    if list.len() == 0 {
        assert(body =~= seq![]);
        assert(values::array_scan(body).current =~= seq![]);
        assert(values::array_scan(body).current.len() != "NULL"@.len());
        assert(Seq::new(list.len(), |i: int| Some(list[i])) =~= seq![]);
    } else {
        lemma_scan_body(list);
        assert(body.len() > 0);
        assert(Seq::new((list.len() - 1) as nat, |i: int| Some(list[i])).push(Some(list.last()))
            =~= Seq::new(list.len(), |i: int| Some(list[i])));
    }
}

/// The greatest of rows' numbers is that of one of them, and none is greater.
pub proof fn the_greatest_number_is_a_rows(
    rows: Seq<StaticCatalogRow>,
)
    ensures
        forall|i: int|
            0 <= i < rows.len() ==> (#[trigger] rows[i]).row_id <= edit::greatest_row_id(rows),
        rows.len() > 0 ==> exists|i: int|
            0 <= i < rows.len() && (#[trigger] rows[i]).row_id == edit::greatest_row_id(rows),
        rows.len() == 0 ==> edit::greatest_row_id(rows) == 0,
    decreases rows.len(),
{
    if rows.len() > 0 {
        let most = rows.drop_last();
        the_greatest_number_is_a_rows(most);
        let n = rows.len() - 1;
        assert forall|i: int| 0 <= i < rows.len() implies (#[trigger] rows[i]).row_id
            <= edit::greatest_row_id(rows) by {
            if i < n {
                assert(most[i] == rows[i]);
            }
        }
        if rows.last().row_id >= edit::greatest_row_id(most) {
            assert(rows[n].row_id == edit::greatest_row_id(rows));
        } else {
            let i = choose|i: int|
                0 <= i < most.len() && (#[trigger] most[i]).row_id == edit::greatest_row_id(most);
            assert(rows[i].row_id == edit::greatest_row_id(rows));
        }
    }
}

} // verus!
