//! Statements with lists that are written are read back: tables that are made,
//! dropped and emptied, and rows that are inserted.

use vstd::prelude::*;

use crate::bootstrap::bki_laws;
use crate::lexing;
use crate::lexing_laws;
use crate::lexing_laws::Piece;
use crate::parser;
use crate::parser::{ColumnDefView, LiteralView, SqlTypeName, StatementView};
use crate::parser_laws;
use crate::search;
use crate::text;
use crate::text_laws;

verus! {

/// Whether each text of a list is a name that needs no quotes.
pub open spec fn are_plain(names: Seq<Seq<char>>) -> bool {
    forall|i: int| 0 <= i < names.len() ==> lexing_laws::is_plain(#[trigger] names[i])
}

spec fn bare(s: Seq<char>) -> Seq<Piece> {
    seq![Piece::Bare(s)]
}

spec fn all_bare(names: Seq<Seq<char>>) -> Seq<Seq<Piece>> {
    Seq::new(names.len(), |i: int| bare(names[i]))
}

proof fn lemma_bare(s: Seq<char>)
    requires
        text_laws::is_trimmed(s),
        lexing_laws::is_simple(s),
        !s.contains(','),
    ensures
        lexing_laws::text_of(bare(s)) == s,
        lexing_laws::is_part(bare(s)),
{
    let pieces = bare(s);
    assert(pieces.skip(1) =~= seq![]);
    assert(lexing_laws::text_of(pieces.skip(1)) =~= seq![]);
    assert(lexing_laws::text_of(pieces) =~= s);
}

proof fn lemma_plain_is_simple(s: Seq<char>)
    requires
        lexing_laws::is_plain(s),
    ensures
        lexing_laws::is_simple(s),
        !s.contains(','),
        text_laws::is_trimmed(s),
{
    lexing_laws::lemma_plain(s);
    parser_laws::lemma_lacks(s, '(');
    parser_laws::lemma_lacks(s, ')');
    parser_laws::lemma_lacks(s, '\'');
    parser_laws::lemma_lacks(s, ',');
}

proof fn lemma_names(names: Seq<Seq<char>>)
    requires
        names.len() > 0,
        are_plain(names),
    ensures
        forall|k: int|
            0 <= k < names.len() ==> lexing_laws::is_part(#[trigger] all_bare(names)[k]),
        lexing_laws::texts(all_bare(names)) == names,
        parser::names_in(lexing_laws::list_of(names)) == parser::lower_all(names),
{
    let parts = all_bare(names);
    let empty = Seq::<char>::empty();
    assert forall|k: int| 0 <= k < names.len() implies lexing_laws::is_part(#[trigger] parts[k])
        && lexing_laws::text_of(parts[k]) == names[k] by {
        assert(lexing_laws::is_plain(names[k]));
        lemma_plain_is_simple(names[k]);
        lemma_bare(names[k]);
    }
    assert(lexing_laws::texts(parts) =~= names);
    lexing_laws::lists_are_split_again(parts);
    assert forall|k: int| 0 <= k < names.len() implies lexing::name_of(names[k]) == text::lower(
        #[trigger] names[k],
    ) by {
        assert(lexing_laws::is_plain(names[k]));
        lexing_laws::a_plain_name_is_folded(empty, names[k], empty);
        assert(empty + names[k] + empty =~= names[k]);
    }
    assert(parser::names_in(lexing_laws::list_of(names)) =~= parser::lower_all(names));
}

/// A list begins with its first name, which nothing or a comma follows, and ends
/// with its last.
proof fn lemma_list_ends(names: Seq<Seq<char>>)
    requires
        names.len() > 0,
        are_plain(names),
    ensures
        ({
            let list = lexing_laws::list_of(names);
            let n = names[0].len() as int;
            &&& names[0].is_prefix_of(list)
            &&& list.len() > n ==> list[n] == ','
            &&& list.len() > 0
            &&& lexing_laws::is_name_char(list[0])
            &&& lexing_laws::is_name_char(list.last())
        }),
{
    let list = lexing_laws::list_of(names);
    assert(lexing_laws::is_plain(names[0]));
    assert(lexing_laws::is_plain(names[names.len() - 1]));
    if names.len() > 1 {
        text_laws::lemma_joined_first(names, seq![',', ' ']);
        assert(list.last() == names.last().last());
    }
    assert(names[0] =~= list.take(names[0].len() as int));
    assert(lexing_laws::is_name_char(names[0][0]));
    assert(lexing_laws::is_name_char(names.last()[names.last().len() - 1]));
}

/// A list of names does not begin with a word of two that a space parts.
proof fn lemma_no_two_words(
    names: Seq<Seq<char>>,
    word: Seq<char>,
    behind: Seq<char>,
) -> (at: int)
    requires
        names.len() > 0,
        are_plain(names),
        lexing_laws::is_plain(word),
    ensures
        ({
            let list = lexing_laws::list_of(names);
            0 <= at <= word.len() && (at >= list.len() || text::lower_char(list[at])
                != text::lower_char((word + seq![' '] + behind)[at]))
        }),
{
    lemma_list_ends(names);
    let list = lexing_laws::list_of(names);
    let all = word + seq![' '] + behind;
    let n = names[0].len() as int;
    assert(lexing_laws::is_plain(names[0]));
    if n < word.len() {
        assert(all[n] == word[n]);
        assert(lexing_laws::is_name_char(word[n]));
        if n < list.len() {
            assert(list[n] == ',');
        }
        n
    } else {
        let i = word.len() as int;
        assert(all[i] == ' ');
        if i < list.len() {
            if i < n {
                assert(list[i] == list.take(n)[i]);
                assert(lexing_laws::is_name_char(names[0][i]));
                parser::lemma_lower_char(list[i]);
            } else {
                assert(list[i] == ',');
            }
        }
        i
    }
}

proof fn lemma_dropped_for_sure(names: Seq<Seq<char>>)
    requires
        names.len() > 0,
        are_plain(names),
    ensures
        lexing::after_prefix(
            "drop table "@ + lexing_laws::list_of(names),
            "drop table if exists "@,
        ) is None,
{
    reveal_strlit("drop table ");
    reveal_strlit("drop table if exists ");
    reveal_strlit("if");
    let list = lexing_laws::list_of(names);
    let behind = "drop table if exists "@.skip(14);
    let i = lemma_no_two_words(names, "if"@, behind);
    let long = "if"@ + seq![' '] + behind;
    assert("drop table if exists "@ =~= "drop table "@ + long);
    lexing_laws::lemma_no_prefix("drop table "@ + list, "drop table if exists "@, 11 + i);
}

proof fn lemma_drop_statement(rest: Seq<char>)
    requires
        rest.len() > 0,
        !text::is_space(rest.last()),
        rest.last() != ';',
    ensures
        parser::parsed("drop table "@ + rest) == parser::drop_tables("drop table "@ + rest),
{
    reveal_strlit("drop");
    reveal_strlit("drop table ");
    let p = "drop table "@ + rest;
    parser_laws::lemma_statement_text(p);
    assert(p =~= "drop"@ + p.skip(4));
    parser_laws::lemma_other_forms(p, "drop"@, p.skip(4));
}

/// Tables that are to be dropped are read back, and whether they have to be there.
#[verifier::rlimit(40)]
pub proof fn a_written_drop_is_read_back(names: Seq<Seq<char>>)
    requires
        names.len() > 0,
        are_plain(names),
    ensures
        parser::parsed("drop table "@ + lexing_laws::list_of(names)) == Some(
            StatementView::DropTables { if_exists: false, names: parser::lower_all(names) },
        ),
        parser::parsed("drop table if exists "@ + lexing_laws::list_of(names)) == Some(
            StatementView::DropTables { if_exists: true, names: parser::lower_all(names) },
        ),
{
    let list = lexing_laws::list_of(names);
    lemma_names(names);
    lemma_list_ends(names);
    lemma_dropped_for_sure(names);
    lemma_drop_statement(list);
    lexing_laws::lemma_prefix("drop table "@, list);
    lexing_laws::lemma_prefix("drop table if exists "@, list);
    let rest = "if exists "@ + list;
    assert("drop table if exists "@ + list =~= "drop table "@ + rest) by {
        reveal_strlit("drop table ");
        reveal_strlit("if exists ");
        reveal_strlit("drop table if exists ");
    }
    assert(rest.last() == list.last());
    lemma_drop_statement(rest);
}

proof fn lemma_truncated_without_the_word(names: Seq<Seq<char>>)
    requires
        names.len() > 0,
        are_plain(names),
    ensures
        lexing::after_prefix("truncate "@ + lexing_laws::list_of(names), "truncate table "@) is None,
{
    reveal_strlit("truncate ");
    reveal_strlit("truncate table ");
    reveal_strlit("table");
    let list = lexing_laws::list_of(names);
    let empty = Seq::<char>::empty();
    let i = lemma_no_two_words(names, "table"@, empty);
    let long = "table"@ + seq![' '] + empty;
    assert("truncate table "@ =~= "truncate "@ + long);
    lexing_laws::lemma_no_prefix("truncate "@ + list, "truncate table "@, 9 + i);
}

proof fn lemma_truncate_statement(rest: Seq<char>)
    requires
        rest.len() > 0,
        !text::is_space(rest.last()),
        rest.last() != ';',
    ensures
        parser::parsed("truncate "@ + rest) == parser::truncate_tables("truncate "@ + rest),
{
    reveal_strlit("truncate");
    reveal_strlit("truncate ");
    let p = "truncate "@ + rest;
    parser_laws::lemma_statement_text(p);
    assert(p =~= "truncate"@ + p.skip(8));
    parser_laws::lemma_other_forms(p, "truncate"@, p.skip(8));
}

/// Tables that are to be emptied are read back.
#[verifier::rlimit(40)]
pub proof fn a_written_truncate_is_read_back(names: Seq<Seq<char>>)
    requires
        names.len() > 0,
        are_plain(names),
    ensures
        parser::parsed("truncate "@ + lexing_laws::list_of(names)) == Some(
            StatementView::TruncateTables { names: parser::lower_all(names) },
        ),
        parser::parsed("truncate table "@ + lexing_laws::list_of(names)) == Some(
            StatementView::TruncateTables { names: parser::lower_all(names) },
        ),
{
    let list = lexing_laws::list_of(names);
    lemma_names(names);
    lemma_list_ends(names);
    lemma_truncated_without_the_word(names);
    lemma_truncate_statement(list);
    lexing_laws::lemma_prefix("truncate "@, list);
    lexing_laws::lemma_prefix("truncate table "@, list);
    let rest = "table "@ + list;
    assert("truncate table "@ + list =~= "truncate "@ + rest) by {
        reveal_strlit("truncate ");
        reveal_strlit("table ");
        reveal_strlit("truncate table ");
    }
    assert(rest.last() == list.last());
    lemma_truncate_statement(rest);
}

/// The table that data is copied into is read back, whatever options follow.
#[verifier::rlimit(40)]
pub proof fn a_written_copy_is_read_back(t: Seq<char>, more: Seq<char>)
    requires
        lexing_laws::is_plain(t),
        more.len() > 0 ==> !text::is_space(more.last()) && more.last() != ';',
    ensures
        parser::parsed("copy "@ + t + " from stdin"@ + more) == Some(
            StatementView::CopyFromStdin { table: text::lower(t) },
        ),
{
    reveal_strlit("copy");
    reveal_strlit("copy ");
    reveal_strlit(" from stdin");
    reveal_strlit("commit");
    reveal_strlit("create table ");
    reveal_strlit("create unlogged table ");
    let q = "copy "@ + t + " from stdin"@ + more;
    let keyword = " from stdin"@;
    let rest = t + keyword + more;
    let n = t.len() as int;
    let empty = Seq::<char>::empty();
    assert(q =~= "copy "@ + rest);
    lexing_laws::lemma_prefix("copy "@, rest);
    lexing_laws::lemma_plain(t);
    assert(rest.subrange(n, n + keyword.len()) =~= keyword);
    assert(lexing::keyword_at(rest, keyword, n));
    assert forall|k: int| 0 <= k < n implies !#[trigger] lexing::keyword_at(rest, keyword, k) by {
        if lexing::keyword_at(rest, keyword, k) {
            assert(text::lower(rest.subrange(k, k + keyword.len()))[0] == text::lower(keyword)[0]);
            assert(rest[k] == t[k]);
            assert(lexing_laws::is_name_char(t[k]));
            parser::lemma_lower_char(t[k]);
        }
    }
    lexing_laws::lemma_keyword_skip(rest, keyword, 0, n);
    assert(rest.take(n) =~= t);
    lexing_laws::a_plain_name_is_folded(empty, t, empty);
    assert(empty + t + empty =~= t);
    assert(q.last() == if more.len() > 0 {
        more.last()
    } else {
        'n'
    });
    parser_laws::lemma_statement_text(q);
    let behind = seq![' '] + rest;
    assert(q =~= "copy"@ + behind);
    parser_laws::lemma_other_forms(q, "copy"@, behind);
    parser_laws::lemma_not_transaction(q, "copy"@, behind, 2);
    lexing_laws::lemma_no_prefix(q, "create table "@, 1);
    lexing_laws::lemma_no_prefix(q, "create unlogged table "@, 1);
}

/// Whether a word, whatever its case, is a name of a type.
pub open spec fn names_type(word: Seq<char>, data_type: SqlTypeName) -> bool {
    let w = text::lower(word);
    match data_type {
        SqlTypeName::Int4 => w == "int"@ || w == "integer"@,
        SqlTypeName::Int8 => w == "bigint"@,
        SqlTypeName::Text => w == "char"@ || w == "varchar"@ || w == "text"@ || w == "timestamp"@,
    }
}

/// A column of a table that is to be made, as it is written: its name, the name of
/// its type, and what else is said of it.
pub struct WrittenColumn {
    pub name: Seq<char>,
    pub type_word: Seq<char>,
    pub data_type: SqlTypeName,
    pub more: Seq<Piece>,
}

impl WrittenColumn {
    pub open spec fn pieces(self) -> Seq<Piece> {
        seq![Piece::Bare(self.name + seq![' '] + self.type_word)] + self.more
    }

    pub open spec fn can_be_written(self) -> bool {
        &&& lexing_laws::is_plain(self.name)
        &&& lexing_laws::is_plain(self.type_word)
        &&& names_type(self.type_word, self.data_type)
        &&& lexing_laws::is_part(self.pieces())
    }

    pub open spec fn read(self) -> ColumnDefView {
        ColumnDefView { name: text::lower(self.name), data_type: self.data_type }
    }
}

proof fn lemma_type(w: Seq<char>, x: Seq<char>, data_type: SqlTypeName)
    requires
        lexing_laws::is_plain(w),
        names_type(w, data_type),
    ensures
        parser::type_named(w + x) == Some(data_type),
{
    reveal_strlit("int");
    reveal_strlit("integer");
    reveal_strlit("bigint");
    reveal_strlit("char");
    reveal_strlit("varchar");
    reveal_strlit("text");
    reveal_strlit("timestamp");
    lexing_laws::lemma_plain(w);
    parser_laws::lemma_normal_form_begins(w, x);
    let n = lexing::normal_form(w + x);
    let l = text::lower(w);
    assert(l =~= n.take(l.len() as int));
    assert forall|literal: Seq<char>| #[trigger]
        literal.is_prefix_of(l) implies literal.is_prefix_of(n) by {
        assert(literal =~= n.take(literal.len() as int)) by {
            assert forall|i: int| 0 <= i < literal.len() implies literal[i] == n[i] by {
                assert(literal[i] == l.take(literal.len() as int)[i]);
                assert(l[i] == n.take(l.len() as int)[i]);
            }
        }
    }
    assert(n[0] == l[0]);
    assert(l =~= l.take(l.len() as int));
    match data_type {
        SqlTypeName::Int8 => {
            assert("bigint"@.is_prefix_of(l));
        },
        SqlTypeName::Int4 => {
            if l == "integer"@ {
                assert("integer"@.is_prefix_of(l));
            } else {
                assert("int"@.is_prefix_of(l));
            }
            if "bigint"@.is_prefix_of(n) {
                assert(n[0] == "bigint"@[0]);
            }
        },
        SqlTypeName::Text => {
            assert(l.is_prefix_of(l));
            if "bigint"@.is_prefix_of(n) {
                assert(n[0] == "bigint"@[0]);
            }
            if "int"@.is_prefix_of(n) {
                assert(n[0] == "int"@[0]);
            }
            if "integer"@.is_prefix_of(n) {
                assert(n[0] == "integer"@[0]);
            }
        },
    }
}

proof fn lemma_column(column: WrittenColumn)
    requires
        column.can_be_written(),
    ensures
        parser::column_def()(lexing_laws::text_of(column.pieces())) == Some(column.read()),
{
    let blank = seq![' '];
    let empty = Seq::<char>::empty();
    let pieces = column.pieces();
    let x = lexing_laws::text_of(column.more);
    let s = lexing_laws::text_of(pieces);
    assert(pieces.skip(1) =~= column.more);
    assert(s =~= column.name + (blank + column.type_word + x));
    text_laws::trimming_takes_off_the_space(empty, s, empty);
    assert(empty + s + empty =~= s);
    lexing_laws::lemma_plain(column.name);
    lexing_laws::lemma_plain(column.type_word);
    let n = column.name.len() as int;
    assert forall|j: int| 0 <= j < n implies !parser::is_space()(#[trigger] s[j]) by {
        assert(s[j] == column.name[j]);
    }
    assert(s[n] == ' ');
    search::first_index_at(s, parser::is_space(), n);
    assert(s.take(n) =~= column.name);
    let tail = column.type_word + x;
    assert(s.skip(n) =~= blank + tail + empty);
    assert(parser::is_blank(blank));
    assert(tail.last() == s.last());
    assert(tail[0] == column.type_word[0]);
    text_laws::trimming_takes_off_the_space(blank, tail, empty);
    lemma_type(column.type_word, x, column.data_type);
    lexing_laws::a_plain_name_is_folded(empty, column.name, empty);
    assert(empty + column.name + empty =~= column.name);
}

proof fn lemma_every_some<A, B>(s: Seq<A>, f: spec_fn(A) -> Option<B>, r: Seq<B>)
    requires
        s.len() == r.len(),
        forall|i: int| 0 <= i < s.len() ==> f(#[trigger] s[i]) == Some(r[i]),
    ensures
        search::every_some(s, f) == Some(r),
    decreases s.len(),
{
    if s.len() > 0 {
        assert(f(s[s.len() - 1]) == Some(r.last()));
        assert forall|i: int| 0 <= i < s.drop_last().len() implies f(#[trigger] s.drop_last()[i])
            == Some(r.drop_last()[i]) by {
            assert(s.drop_last()[i] == s[i]);
        }
        lemma_every_some(s.drop_last(), f, r.drop_last());
        assert(r.drop_last().push(r.last()) =~= r);
    } else {
        assert(r =~= seq![]);
    }
}

pub open spec fn pieces_of(columns: Seq<WrittenColumn>) -> Seq<Seq<Piece>> {
    Seq::new(columns.len(), |i: int| columns[i].pieces())
}

proof fn lemma_table(t: Seq<char>, columns: Seq<WrittenColumn>, more: Seq<char>, rest: Seq<char>)
    requires
        lexing_laws::is_plain(t),
        columns.len() > 0,
        forall|i: int| 0 <= i < columns.len() ==> (#[trigger] columns[i]).can_be_written(),
        rest == t + seq![' '] + seq!['('] + lexing_laws::list_of(
            lexing_laws::texts(pieces_of(columns)),
        ) + seq![')'] + more,
    ensures
        lexing::find_char(rest, '(') == Some((t.len() + 1) as int),
        lexing::name_of(rest.take((t.len() + 1) as int)) == text::lower(t),
        parser::inside(rest, (t.len() + 1) as int) == Some(
            lexing_laws::list_of(lexing_laws::texts(pieces_of(columns))),
        ),
        search::every_some(
            lexing::list_parts(lexing_laws::list_of(lexing_laws::texts(pieces_of(columns)))),
            parser::column_def(),
        ) == Some(Seq::new(columns.len(), |i: int| columns[i].read())),
{
    let parts = pieces_of(columns);
    let list = lexing_laws::list_of(lexing_laws::texts(parts));
    let blank = seq![' '];
    let empty = Seq::<char>::empty();
    assert forall|k: int| 0 <= k < parts.len() implies lexing_laws::is_part(#[trigger] parts[k]) by {
        assert(columns[k].can_be_written());
    }
    let head = t + blank;
    lexing_laws::a_list_is_what_its_parentheses_hold(head, parts, more);
    lexing_laws::lists_are_split_again(parts);
    parser_laws::lemma_lacks(t, '(');
    assert(!head.contains('(')) by {
        if head.contains('(') {
            let i = choose|i: int| 0 <= i < head.len() && head[i] == '(';
            if i < t.len() {
                assert(t[i] == '(');
                assert(t.contains('('));
            }
        }
    }
    lexing_laws::lemma_find_char(head, '(', list + seq![')'] + more);
    assert(rest =~= head + seq!['('] + (list + seq![')'] + more));
    assert(rest.take(head.len() as int) =~= head);
    assert(parser::is_blank(blank));
    lexing_laws::a_plain_name_is_folded(empty, t, blank);
    assert(empty + t + blank =~= head);
    let texts = lexing_laws::texts(parts);
    let read = Seq::new(columns.len(), |i: int| columns[i].read());
    assert forall|i: int| 0 <= i < texts.len() implies parser::column_def()(#[trigger] texts[i])
        == Some(read[i]) by {
        lemma_column(columns[i]);
    }
    lemma_every_some(texts, parser::column_def(), read);
}

proof fn lemma_create_statement(rest: Seq<char>)
    requires
        rest.len() > 0,
        !text::is_space(rest.last()),
        rest.last() != ';',
    ensures
        parser::parsed("create table "@ + rest) == parser::or_else(
            parser::create_table("create table "@ + rest),
            parser::copy_from_stdin("create table "@ + rest),
        ),
        parser::parsed("create unlogged table "@ + rest) == parser::or_else(
            parser::create_table("create unlogged table "@ + rest),
            parser::copy_from_stdin("create unlogged table "@ + rest),
        ),
        parser::after_either(
            "create table "@ + rest,
            "create table "@,
            "create unlogged table "@,
        ) == Some(rest),
        parser::after_either(
            "create unlogged table "@ + rest,
            "create table "@,
            "create unlogged table "@,
        ) == Some(rest),
{
    reveal_strlit("create");
    reveal_strlit("create table ");
    reveal_strlit("create unlogged table ");
    reveal_strlit("commit");
    let p = "create table "@ + rest;
    let q = "create unlogged table "@ + rest;
    lexing_laws::lemma_prefix("create table "@, rest);
    lexing_laws::lemma_prefix("create unlogged table "@, rest);
    lexing_laws::lemma_no_prefix(q, "create table "@, 7);
    parser_laws::lemma_statement_text(p);
    parser_laws::lemma_statement_text(q);
    assert(p =~= "create"@ + p.skip(6));
    assert(q =~= "create"@ + q.skip(6));
    parser_laws::lemma_other_forms(p, "create"@, p.skip(6));
    parser_laws::lemma_other_forms(q, "create"@, q.skip(6));
    parser_laws::lemma_not_transaction(p, "create"@, p.skip(6), 1);
    parser_laws::lemma_not_transaction(q, "create"@, q.skip(6), 1);
}

/// A table that is to be made is read back with the names and types of its columns,
/// in their order, whatever else is said of them and behind them.
#[verifier::rlimit(40)]
pub proof fn a_written_table_is_read_back(
    t: Seq<char>,
    columns: Seq<WrittenColumn>,
    more: Seq<char>,
)
    requires
        lexing_laws::is_plain(t),
        columns.len() > 0,
        forall|i: int| 0 <= i < columns.len() ==> (#[trigger] columns[i]).can_be_written(),
        more.len() > 0 ==> !text::is_space(more.last()) && more.last() != ';',
    ensures
        ({
            let list = lexing_laws::list_of(lexing_laws::texts(pieces_of(columns)));
            let rest = t + seq![' '] + seq!['('] + list + seq![')'] + more;
            let told = Some(
                StatementView::CreateTable {
                    name: text::lower(t),
                    columns: Seq::new(columns.len(), |i: int| columns[i].read()),
                },
            );
            &&& parser::parsed("create table "@ + rest) == told
            &&& parser::parsed("create unlogged table "@ + rest) == told
        }),
{
    let list = lexing_laws::list_of(lexing_laws::texts(pieces_of(columns)));
    let rest = t + seq![' '] + seq!['('] + list + seq![')'] + more;
    assert(rest.last() == if more.len() > 0 {
        more.last()
    } else {
        ')'
    });
    lemma_table(t, columns, more, rest);
    lemma_create_statement(rest);
}

/// A value as it is written.
pub open spec fn written_value(v: LiteralView) -> Piece {
    match v {
        LiteralView::Int(n) => Piece::Bare(text::decimal_int(n as int)),
        LiteralView::Text(s) => Piece::Quoted(s),
        LiteralView::Null => Piece::Bare("null"@),
        LiteralView::CurrentTimestamp => Piece::Bare("current_timestamp"@),
    }
}

pub open spec fn written_values(values: Seq<LiteralView>) -> Seq<Seq<Piece>> {
    Seq::new(values.len(), |i: int| seq![written_value(values[i])])
}

/// A value is read back from its written form, whatever a text holds.
proof fn lemma_value(v: LiteralView)
    ensures
        lexing_laws::is_part(seq![written_value(v)]),
        parser::literal()(lexing_laws::text_of(seq![written_value(v)])) == Some(v),
{
    reveal_strlit("null");
    reveal_strlit("\\N");
    reveal_strlit("current_timestamp");
    let piece = written_value(v);
    let pieces = seq![piece];
    let empty = Seq::<char>::empty();
    assert(pieces.skip(1) =~= seq![]);
    assert(lexing_laws::text_of(pieces.skip(1)) =~= seq![]);
    let s = lexing_laws::text_of(pieces);
    assert(s =~= piece.written());
    match v {
        LiteralView::Int(n) => {
            parser_laws::lemma_number(empty, n);
            parser::a_written_number_is_read_back(n);
        },
        LiteralView::Text(inner) => {
            parser::a_written_string_is_read_back(inner);
        },
        LiteralView::Null => {
            assert(!"null"@.contains(',') && lexing_laws::is_simple("null"@));
            text_laws::trimming_takes_off_the_space(empty, "null"@, empty);
            assert(empty + "null"@ + empty =~= "null"@);
        },
        LiteralView::CurrentTimestamp => {
            let w = "current_timestamp"@;
            assert(!w.contains(',') && lexing_laws::is_simple(w));
            text_laws::trimming_takes_off_the_space(empty, w, empty);
            assert(empty + w + empty =~= w);
            assert(text::lower(w)[0] == 'c');
            assert(text::lower("null"@)[0] == 'n');
            assert(text::lower("\\N"@)[0] == '\\');
        },
    }
}

proof fn lemma_values(values: Seq<LiteralView>)
    requires
        values.len() > 0,
    ensures
        ({
            let list = lexing_laws::list_of(lexing_laws::texts(written_values(values)));
            &&& forall|k: int|
                0 <= k < values.len() ==> lexing_laws::is_part(
                    #[trigger] written_values(values)[k],
                )
            &&& parser::value_list(text::trim("("@ + list + ")"@)) == Some(values)
        }),
{
    reveal_strlit("(");
    reveal_strlit(")");
    let parts = written_values(values);
    let empty = Seq::<char>::empty();
    assert forall|k: int| 0 <= k < parts.len() implies lexing_laws::is_part(#[trigger] parts[k])
        && parser::literal()(lexing_laws::text_of(parts[k])) == Some(values[k]) by {
        lemma_value(values[k]);
    }
    let list = lexing_laws::list_of(lexing_laws::texts(parts));
    let s = "("@ + list + ")"@;
    text_laws::trimming_takes_off_the_space(empty, s, empty);
    assert(empty + s + empty =~= s);
    assert(s =~= empty + seq!['('] + list + seq![')'] + empty);
    lexing_laws::a_list_is_what_its_parentheses_hold(empty, parts, empty);
    lexing_laws::lemma_find_char(empty, '(', list + seq![')']);
    assert(s =~= empty + seq!['('] + (list + seq![')']));
    lexing_laws::lists_are_split_again(parts);
    let texts = lexing_laws::texts(parts);
    assert forall|i: int| 0 <= i < texts.len() implies parser::literal()(#[trigger] texts[i])
        == Some(values[i]) by {
        assert(lexing_laws::is_part(parts[i]));
    }
    lemma_every_some(texts, parser::literal(), values);
}

proof fn lemma_insert_statement(head: Seq<char>, list: Seq<char>)
    requires
        head.len() > 0,
    ensures
        ({
            let q = "insert into "@ + head + " values "@ + ("("@ + list + ")"@);
            &&& parser::parsed(q) == parser::insert(q)
        }),
{
    reveal_strlit("insert");
    reveal_strlit("insert into ");
    reveal_strlit("(");
    reveal_strlit(")");
    let q = "insert into "@ + head + " values "@ + ("("@ + list + ")"@);
    assert(q.last() == ')');
    assert(q[0] == 'i');
    parser_laws::lemma_statement_text(q);
    assert(q =~= "insert"@ + q.skip(6));
    parser_laws::lemma_other_forms(q, "insert"@, q.skip(6));
}

/// A row that is inserted is read back, with its values in their order, whatever
/// the texts among them hold.
#[verifier::rlimit(40)]
pub proof fn a_written_insert_is_read_back(t: Seq<char>, values: Seq<LiteralView>)
    requires
        lexing_laws::is_plain(t),
        values.len() > 0,
    ensures
        parser::parsed(
            "insert into "@ + t + " values "@ + ("("@ + lexing_laws::list_of(
                lexing_laws::texts(written_values(values)),
            ) + ")"@),
        ) == Some(
            StatementView::Insert { table: text::lower(t), columns: seq![], values },
        ),
{
    reveal_strlit("values");
    reveal_strlit(" values ");
    let empty = Seq::<char>::empty();
    let list = lexing_laws::list_of(lexing_laws::texts(written_values(values)));
    let tail = "("@ + list + ")"@;
    let rest = t + " values "@ + tail;
    let q = "insert into "@ + t + " values "@ + tail;
    lemma_values(values);
    lemma_insert_statement(t, list);
    assert(q =~= "insert into "@ + rest);
    lexing_laws::lemma_prefix("insert into "@, rest);
    lexing_laws::lemma_plain(t);
    let words: Seq<Seq<char>> = seq![t];
    assert(text::joined(words, " "@) == t);
    assert(lexing_laws::spaced("values"@) =~= " values "@);
    lexing_laws::the_first_keyword_parts_the_text(words, "values"@, tail, "values"@);
    text_laws::trimming_takes_off_the_space(empty, t, empty);
    assert(empty + t + empty =~= t);
    lexing_laws::a_plain_name_is_folded(empty, t, empty);
    parser_laws::lemma_lacks(t, '(');
    assert forall|j: int| 0 <= j < t.len() implies !lexing::is_char('(')(#[trigger] t[j]) by {
        assert(t.contains(t[j]));
    }
    search::first_index_none(t, lexing::is_char('('));
}

/// The columns of a list as words: each with the comma or the parenthesis behind it.
spec fn closed_words(names: Seq<Seq<char>>) -> Seq<Seq<char>> {
    Seq::new(
        names.len(),
        |i: int|
            names[i].push(
                if i == names.len() - 1 {
                    ')'
                } else {
                    ','
                },
            ),
    )
}

proof fn lemma_closed_words(names: Seq<Seq<char>>)
    requires
        names.len() > 0,
    ensures
        text::joined(closed_words(names), " "@) == lexing_laws::list_of(names).push(')'),
    decreases names.len(),
{
    reveal_strlit(" ");
    let words = closed_words(names);
    let list = lexing_laws::list_of(names);
    if names.len() == 1 {
        assert(text::joined(words, " "@) =~= list.push(')'));
    } else {
        let rest = names.skip(1);
        lemma_closed_words(rest);
        text_laws::lemma_joined_first(words, " "@);
        text_laws::lemma_joined_first(names, seq![',', ' ']);
        assert(words.skip(1) =~= closed_words(rest));
        assert(text::joined(words, " "@) =~= list.push(')'));
    }
}

proof fn lemma_target(t: Seq<char>, names: Seq<Seq<char>>)
    requires
        lexing_laws::is_plain(t),
        names.len() > 0,
        are_plain(names),
    ensures
        ({
            let head = t + seq![' '] + seq!['('] + lexing_laws::list_of(names) + seq![')'];
            parser::insert_target(text::trim(head)) == Some(
                (text::lower(t), parser::lower_all(names)),
            )
        }),
{
    let blank = seq![' '];
    let empty = Seq::<char>::empty();
    let list = lexing_laws::list_of(names);
    let head = t + seq![' '] + seq!['('] + list + seq![')'];
    let front = t + blank;
    lexing_laws::lemma_plain(t);
    text_laws::trimming_takes_off_the_space(empty, head, empty);
    assert(empty + head + empty =~= head);
    lemma_names(names);
    lexing_laws::a_list_is_what_its_parentheses_hold(front, all_bare(names), empty);
    assert(front + seq!['('] + list + seq![')'] + empty =~= head);
    parser_laws::lemma_lacks(t, '(');
    assert(!front.contains('(')) by {
        if front.contains('(') {
            let i = choose|i: int| 0 <= i < front.len() && front[i] == '(';
            if i < t.len() {
                assert(t[i] == '(');
                assert(t.contains('('));
            }
        }
    }
    lexing_laws::lemma_find_char(front, '(', list + seq![')']);
    assert(head =~= front + seq!['('] + (list + seq![')']));
    assert(head.take(front.len() as int) =~= front);
    assert(parser::is_blank(blank));
    lexing_laws::a_plain_name_is_folded(empty, t, blank);
    assert(empty + t + blank =~= front);
}

proof fn lemma_target_words(t: Seq<char>, names: Seq<Seq<char>>) -> (words: Seq<Seq<char>>)
    requires
        lexing_laws::is_plain(t),
        names.len() > 0,
        are_plain(names),
    ensures
        words.len() > 0,
        text_laws::are_words(words),
        text::joined(words, " "@) == t + seq![' '] + seq!['('] + lexing_laws::list_of(names)
            + seq![')'],
        forall|k: int|
            0 < k < words.len() ==> text::lower(#[trigger] words[k]) != text::lower("values"@),
{
    reveal_strlit(" ");
    reveal_strlit("values");
    let closed = closed_words(names);
    let first = seq!['('] + closed[0];
    let others = closed.skip(1);
    let words = seq![t, first] + others;
    lexing_laws::lemma_plain(t);
    assert forall|k: int| 0 <= k < words.len() implies bki_laws::is_word(#[trigger] words[k]) && (k
        > 0 ==> text::lower(words[k]) != text::lower("values"@)) by {
        if k > 0 {
            assert(lexing_laws::is_plain(names[k - 1]));
            lexing_laws::lemma_plain(names[k - 1]);
            let w = words[k];
            assert(w =~= if k == 1 {
                seq!['('] + closed[k - 1]
            } else {
                closed[k - 1]
            });
            assert(w.last() == ')' || w.last() == ',');
            assert(text::lower(w).last() == w.last());
            assert(text::lower("values"@).last() == 's');
            assert forall|i: int| 0 <= i < w.len() implies !text::is_space(#[trigger] w[i]) by {
                let j: int = if k == 1 {
                    i - 1
                } else {
                    i
                };
                if 0 <= j < names[k - 1].len() {
                    assert(w[i] == names[k - 1][j]);
                    assert(!text::is_space(names[k - 1][j]));
                }
            }
        }
    }
    lemma_closed_words(names);
    text_laws::lemma_joined_first(words, " "@);
    let opened = seq![first] + others;
    assert(words.skip(1) =~= opened);
    if others.len() > 0 {
        text_laws::lemma_joined_first(opened, " "@);
        text_laws::lemma_joined_first(closed, " "@);
        assert(opened.skip(1) =~= others);
    } else {
        assert(opened =~= seq![first]);
        assert(closed =~= seq![closed[0]]);
    }
    assert(text::joined(opened, " "@) =~= seq!['('] + text::joined(closed, " "@));
    assert(text::joined(words, " "@) =~= t + seq![' '] + seq!['('] + lexing_laws::list_of(names)
        + seq![')']);
    words
}

/// A row that is inserted into columns is read back, with the columns and the
/// values in their order, whatever the texts among them hold.
#[verifier::rlimit(40)]
pub proof fn a_written_insert_into_columns_is_read_back(
    t: Seq<char>,
    names: Seq<Seq<char>>,
    values: Seq<LiteralView>,
)
    requires
        lexing_laws::is_plain(t),
        names.len() > 0,
        are_plain(names),
        values.len() > 0,
    ensures
        ({
            let head = t + seq![' '] + seq!['('] + lexing_laws::list_of(names) + seq![')'];
            let list = lexing_laws::list_of(lexing_laws::texts(written_values(values)));
            parser::parsed("insert into "@ + head + " values "@ + ("("@ + list + ")"@)) == Some(
                StatementView::Insert {
                    table: text::lower(t),
                    columns: parser::lower_all(names),
                    values,
                },
            )
        }),
{
    reveal_strlit("values");
    reveal_strlit(" values ");
    let head = t + seq![' '] + seq!['('] + lexing_laws::list_of(names) + seq![')'];
    let list = lexing_laws::list_of(lexing_laws::texts(written_values(values)));
    let tail = "("@ + list + ")"@;
    let rest = head + " values "@ + tail;
    let q = "insert into "@ + head + " values "@ + tail;
    lemma_values(values);
    lemma_insert_statement(head, list);
    assert(q =~= "insert into "@ + rest);
    lexing_laws::lemma_prefix("insert into "@, rest);
    let words = lemma_target_words(t, names);
    assert(lexing_laws::spaced("values"@) =~= " values "@);
    lexing_laws::the_first_keyword_parts_the_text(words, "values"@, tail, "values"@);
    lemma_target(t, names);
}

proof fn lemma_joined_folded(list: Seq<Seq<char>>)
    ensures
        text::lower(text::joined(list, " "@)) == text::joined(parser::lower_all(list), " "@),
    decreases list.len(),
{
    reveal_strlit(" ");
    let low = parser::lower_all(list);
    if list.len() == 0 {
        assert(text::lower(text::joined(list, " "@)) =~= text::joined(low, " "@));
    } else if list.len() > 1 {
        lemma_joined_folded(list.drop_last());
        assert(low.drop_last() =~= parser::lower_all(list.drop_last()));
        assert(text::lower(text::joined(list, " "@)) =~= text::joined(low, " "@));
    }
}

/// Statements that are read as they stand are read whatever their case and the space
/// between their words.
#[verifier::rlimit(40)]
pub proof fn a_fixed_statement_is_read(list: Seq<Seq<char>>, gap: Seq<char>)
    requires
        list.len() > 0,
        text_laws::are_words(list),
        list.last().last() != ';',
        parser::is_blank(gap),
        gap.len() > 0,
    ensures
        ({
            let low = parser::lower_all(list);
            let told = parser::parsed(text::joined(list, gap));
            &&& low == seq!["begin"@] ==> told == Some(StatementView::Begin)
            &&& low == seq!["commit"@] ==> told == Some(StatementView::Commit)
            &&& low == seq!["end"@] ==> told == Some(StatementView::Commit)
            &&& low == seq!["rollback"@] ==> told == Some(StatementView::Rollback)
            &&& low == seq!["select"@, "1"@] ==> told == Some(StatementView::SelectOne)
            &&& low == seq!["show"@, "server_version"@] ==> told == Some(
                StatementView::ShowServerVersion,
            )
            &&& low == seq!["select"@, "$1::int4"@] ==> told == Some(
                StatementView::SelectInt4Parameter,
            )
            &&& text::joined(low, " "@)
                == "select relkind from pg_catalog.pg_class where oid=$1::pg_catalog.regclass"@
                ==> told == Some(StatementView::SelectRelkindByRegclassParameter)
            &&& "select o.n, p.partstrat, pg_catalog.count(i.inhparent) from pg_catalog.pg_class as c"@.is_prefix_of(
            text::joined(low, " "@)) ==> told == Some(StatementView::SelectPgbenchPartitionInfo)
        }),
{
    reveal_strlit(" ");
    reveal_strlit("begin");
    reveal_strlit("commit");
    reveal_strlit("end");
    reveal_strlit("rollback");
    reveal_strlit("select");
    reveal_strlit("1");
    reveal_strlit("select 1");
    reveal_strlit("show");
    reveal_strlit("server_version");
    reveal_strlit("show server_version");
    reveal_strlit("$1::int4");
    reveal_strlit("select $1::int4");
    let low = parser::lower_all(list);
    let q = text::joined(list, gap);
    text_laws::joined_words_are_split_again(list, gap);
    lemma_joined_folded(list);
    let n = text::joined(low, " "@);
    assert(lexing::normal_form(q) == n);
    assert(bki_laws::is_word(list[0]));
    assert(bki_laws::is_word(list[list.len() - 1]));
    if list.len() > 1 {
        text_laws::lemma_joined_first(list, gap);
        assert(q[0] == list[0][0]);
    }
    assert(q.last() == list.last().last());
    assert(!text::is_space(list.last()[list.last().len() - 1]));
    parser_laws::lemma_statement_text(q);
    lemma_literals_differ(n);
    if low.len() == 2 {
        assert(low.drop_last() =~= seq![low[0]]);
        reveal_with_fuel(text::joined, 3);
        assert(n =~= low[0] + " "@ + low[1]);
        assert("select"@ + " "@ + "1"@ =~= "select 1"@);
        assert("show"@ + " "@ + "server_version"@ =~= "show server_version"@);
        assert("select"@ + " "@ + "$1::int4"@ =~= "select $1::int4"@);
    }
    assert(low.len() == 1 ==> n == low[0]);
}

/// The statements that are read as they stand are different ones.
proof fn lemma_literals_differ(n: Seq<char>)
    ensures
        n == "begin"@ || n == "commit"@ || n == "end"@ || n == "rollback"@ ==> n != "select 1"@
            && n != "show server_version"@ && n != "select $1::int4"@ && n
            != "select relkind from pg_catalog.pg_class where oid=$1::pg_catalog.regclass"@
            && !"select o.n, p.partstrat, pg_catalog.count(i.inhparent) from pg_catalog.pg_class as c"@.is_prefix_of(
        n),
        "commit"@ != "begin"@,
        "end"@ != "begin"@,
        "rollback"@ != "begin"@,
        "rollback"@ != "commit"@,
        "rollback"@ != "end"@,
        "show server_version"@ != "select 1"@,
        "select $1::int4"@ != "select 1"@,
        "select $1::int4"@ != "show server_version"@,
        n == "select relkind from pg_catalog.pg_class where oid=$1::pg_catalog.regclass"@ ==> n
            != "select 1"@ && n != "show server_version"@ && n != "select $1::int4"@,
        "select o.n, p.partstrat, pg_catalog.count(i.inhparent) from pg_catalog.pg_class as c"@.is_prefix_of(
        n) ==> n != "select 1"@ && n != "show server_version"@ && n != "select $1::int4"@ && n
            != "select relkind from pg_catalog.pg_class where oid=$1::pg_catalog.regclass"@,
{
    reveal_strlit("begin");
    reveal_strlit("commit");
    reveal_strlit("end");
    reveal_strlit("rollback");
    reveal_strlit("select 1");
    reveal_strlit("show server_version");
    reveal_strlit("select $1::int4");
    reveal_strlit("select relkind from pg_catalog.pg_class where oid=$1::pg_catalog.regclass");
    reveal_strlit(
        "select o.n, p.partstrat, pg_catalog.count(i.inhparent) from pg_catalog.pg_class as c",
    );
    let a = "select 1"@;
    let b = "show server_version"@;
    let c = "select $1::int4"@;
    let d = "select relkind from pg_catalog.pg_class where oid=$1::pg_catalog.regclass"@;
    let f =
        "select o.n, p.partstrat, pg_catalog.count(i.inhparent) from pg_catalog.pg_class as c"@;
    assert(a[0] == 's' && b[0] == 's' && c[0] == 's' && d[0] == 's' && f[0] == 's');
    assert("begin"@[0] == 'b' && "commit"@[0] == 'c' && "end"@[0] == 'e' && "rollback"@[0] == 'r');
    assert(a[1] == 'e' && b[1] == 'h' && c[1] == 'e' && d[1] == 'e' && f[1] == 'e');
    assert(a[7] == '1' && c[7] == '$' && d[7] == 'r' && f[7] == 'o');
    if f.is_prefix_of(n) {
        assert(n[0] == f[0] && n[1] == f[1] && n[7] == f[7]);
    }
}

} // verus!
