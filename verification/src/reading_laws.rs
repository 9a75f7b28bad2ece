//! What numbers, names and statements are read as, and what is not read as one.

use vstd::prelude::*;

use crate::lexing;
use crate::parser;
use crate::parser::{LiteralView, SqlTypeName, StatementView};
use crate::text;
use crate::text_laws;

verus! {

/// A digit behind a number makes it ten times what it was and adds itself, and is
/// what is written last of a number.
pub proof fn digits_count_by_tens(n: nat, d: nat)
    requires
        d < 10,
    ensures
        text::decimal(d) == seq![('0' as u32 + d) as char],
        n > 0 ==> text::decimal(10 * n + d) == text::decimal(n).push(('0' as u32 + d) as char),
        text::decimal_int(-((n + 1) as int)) == seq!['-'] + text::decimal(n + 1),
        text::decimal_int(n as int) == text::decimal(n),
{
    assert((10 * n + d) / 10 == n);
    assert((10 * n + d) % 10 == d);
}

/// A text is read as a number where it is digits, with or without a sign in front of
/// them, and the number lies within the limits; a sign that no number within the
/// limits has is no sign.
pub proof fn numbers_are_digits_with_a_sign(s: Seq<char>, c: char, lo: int, hi: int)
    requires
        text::all_digits(s),
        s.len() > 0,
        lo <= 0 <= hi,
    ensures
        ({
            let n = text::digits_value(s) as int;
            &&& n <= hi ==> text::parsed_int(s, lo, hi) == Some(n)
            &&& n > hi ==> text::parsed_int(s, lo, hi) is None
            &&& n <= hi ==> text::parsed_int(seq!['+'] + s, lo, hi) == Some(n)
            &&& lo < 0 && lo <= -n ==> text::parsed_int(seq!['-'] + s, lo, hi) == Some(-n)
            &&& lo < 0 && -n < lo ==> text::parsed_int(seq!['-'] + s, lo, hi) is None
            &&& lo == 0 ==> text::parsed_int(seq!['-'] + s, lo, hi) is None
            &&& text::is_digit(c) ==> text::digits_value(s.push(c)) == 10 * n + (c as u32
                - '0' as u32)
            &&& !text::is_digit(c) ==> text::parsed_int(s.push(c), lo, hi) is None
        }),
        text::is_digit(c) ==> text::digits_value(seq![c]) == c as u32 - '0' as u32,
        text::parsed_int(seq![], lo, hi) is None,
        text::parsed_int(seq!['-'], lo, hi) is None,
        text::parsed_int(seq!['+'], lo, hi) is None,
{
    assert(text::is_digit(s[0]));
    let plus = seq!['+'] + s;
    let minus = seq!['-'] + s;
    assert(plus.drop_first() =~= s);
    assert(minus.drop_first() =~= s);
    assert(!text::is_digit(minus[0]));
    assert(s.push(c).drop_last() =~= s);
    assert(seq![c].drop_last() =~= seq![]);
    assert(text::digits_value(seq![]) == 0);
    let longer = s.push(c);
    assert(longer[0] == s[0]);
    assert(longer[longer.len() - 1] == c);
    assert(!text::is_digit(seq!['-'][0]));
    assert(!text::is_digit(seq!['+'][0]));
}

/// A name between quotes is what is between them, with its case, and another is
/// folded; space around either does not count.
pub proof fn quoted_names_keep_their_case(before: Seq<char>, s: Seq<char>, after: Seq<char>)
    requires
        parser::is_blank(before),
        parser::is_blank(after),
    ensures
        lexing::name_of(before + lexing::quoted(s, '"') + after) == s,
        text_laws::is_trimmed(s) && s[0] != '"' ==> lexing::name_of(before + s + after)
            == text::lower(s),
{
    let q = lexing::quoted(s, '"');
    lexing::quotes_come_off(s, '"');
    assert(text_laws::is_trimmed(q));
    text_laws::trimming_takes_off_the_space(before, q, after);
    if text_laws::is_trimmed(s) {
        text_laws::trimming_takes_off_the_space(before, s, after);
    }
}

/// Whether a text begins with words, whatever the case of its letters.
pub open spec fn begins_with(s: Seq<char>, words: Seq<char>) -> bool {
    words.len() <= s.len() && text::lower(s.take(words.len() as int)) == words
}

/// A statement is only what its first words say that it is.
pub proof fn a_statement_begins_with_its_words(sql: Seq<char>)
    ensures
        ({
            let q = lexing::statement_text(sql);
            match parser::parsed(sql) {
                Some(StatementView::DropTables { if_exists, names }) => {
                    &&& begins_with(q, "drop table "@)
                    &&& if_exists <==> begins_with(q, "drop table if exists "@)
                    &&& names.len() > 0
                },
                Some(StatementView::CreateTable { .. }) => begins_with(q, "create table "@)
                    || begins_with(q, "create unlogged table "@),
                Some(StatementView::TruncateTables { names }) => {
                    &&& begins_with(q, "truncate "@)
                    &&& names.len() > 0
                },
                Some(StatementView::CopyFromStdin { .. }) => begins_with(q, "copy "@),
                Some(StatementView::SelectCount { .. }) => begins_with(
                    q,
                    "select count(*) from "@,
                ),
                Some(StatementView::SelectColumnWhereInt { .. }) => begins_with(q, "select "@)
                    && !begins_with(q, "select count(*) from "@),
                Some(StatementView::UpdateAddInt { .. }) => begins_with(q, "update "@),
                Some(StatementView::Insert { .. }) => begins_with(q, "insert into "@),
                Some(StatementView::Begin) => lexing::normal_form(q) == "begin"@,
                Some(StatementView::Commit) => lexing::normal_form(q) == "commit"@
                    || lexing::normal_form(q) == "end"@,
                Some(StatementView::Rollback) => lexing::normal_form(q) == "rollback"@,
                Some(StatementView::SelectOne) => lexing::normal_form(q) == "select 1"@,
                Some(StatementView::ShowServerVersion) => lexing::normal_form(q)
                    == "show server_version"@,
                Some(StatementView::SelectInt4Parameter) => lexing::normal_form(q)
                    == "select $1::int4"@,
                Some(StatementView::SelectRelkindByRegclassParameter) => lexing::normal_form(q)
                    == "select relkind from pg_catalog.pg_class where oid=$1::pg_catalog.regclass"@,
                Some(StatementView::SelectPgbenchPartitionInfo) => "select o.n, p.partstrat, pg_catalog.count(i.inhparent) from pg_catalog.pg_class as c"@.is_prefix_of(
                lexing::normal_form(q)),
                None => !begins_with(q, "select count(*) from "@),
            }
        }),
{
    reveal_strlit("drop table ");
    reveal_strlit("drop table if exists ");
    reveal_strlit("create table ");
    reveal_strlit("create unlogged table ");
    reveal_strlit("truncate ");
    reveal_strlit("truncate table ");
    reveal_strlit("copy ");
    reveal_strlit("select count(*) from ");
    reveal_strlit("select ");
    reveal_strlit("update ");
    reveal_strlit("insert into ");
    assert(text::lower("drop table "@) =~= "drop table "@);
    assert(text::lower("drop table if exists "@) =~= "drop table if exists "@);
    assert(text::lower("create table "@) =~= "create table "@);
    assert(text::lower("create unlogged table "@) =~= "create unlogged table "@);
    assert(text::lower("truncate "@) =~= "truncate "@);
    assert(text::lower("truncate table "@) =~= "truncate table "@);
    assert(text::lower("copy "@) =~= "copy "@);
    assert(text::lower("select count(*) from "@) =~= "select count(*) from "@);
    assert(text::lower("select "@) =~= "select "@);
    assert(text::lower("update "@) =~= "update "@);
    assert(text::lower("insert into "@) =~= "insert into "@);
    let q = lexing::statement_text(sql);
    lemma_shorter(q, "drop table if exists "@, "drop table "@);
    lemma_shorter(q, "truncate table "@, "truncate "@);
    lemma_shorter(q, "select count(*) from "@, "select "@);
    assert("drop table "@ =~= "drop table if exists "@.take(11));
    assert("truncate "@ =~= "truncate table "@.take(9));
    assert("select "@ =~= "select count(*) from "@.take(7));
}

proof fn lemma_shorter(q: Seq<char>, long: Seq<char>, short: Seq<char>)
    requires
        short.len() <= long.len(),
    ensures
        begins_with(q, long) && short == long.take(short.len() as int) ==> begins_with(q, short),
{
    if begins_with(q, long) && short == long.take(short.len() as int) {
        let n = short.len() as int;
        assert(text::lower(q.take(n)) =~= text::lower(q.take(long.len() as int)).take(n));
    }
}

/// A value that is given is nothing, the time of the statement, a text between
/// quotes, or a number, and what is none of these is refused.
pub proof fn values_are_read_as_they_are_written(
    before: Seq<char>,
    s: Seq<char>,
    after: Seq<char>,
    n: i64,
)
    requires
        parser::is_blank(before),
        parser::is_blank(after),
        text_laws::is_trimmed(s),
    ensures
        ({
            let read = parser::literal();
            let given = before + s + after;
            &&& read(given) == Some(LiteralView::Null) <==> (text::lower(s) == "null"@
                || text::lower(s) == "\\n"@)
            &&& read(given) == Some(LiteralView::CurrentTimestamp) <==> text::lower(s)
                == "current_timestamp"@
            &&& s == text::decimal_int(n as int) ==> read(given) == Some(LiteralView::Int(n))
            &&& read(given) matches Some(LiteralView::Int(m)) ==> text::parsed_int(
                s,
                i64::MIN as int,
                i64::MAX as int,
            ) == Some(m as int)
            &&& read(given) matches Some(LiteralView::Text(_)) ==> s[0] == '\'' && s.last() == '\''
        }),
        parser::literal()(before + lexing::quoted(s, '\'') + after) == Some(LiteralView::Text(s)),
{
    reveal_strlit("null");
    reveal_strlit("\\N");
    reveal_strlit("\\n");
    reveal_strlit("current_timestamp");
    let null = "null"@;
    let mark = "\\N"@;
    let low = "\\n"@;
    let now = "current_timestamp"@;
    assert(text::lower(null) =~= null);
    assert(text::lower(mark) =~= low);
    assert(text::lower(now) =~= now);
    assert(null.len() == 4 && low.len() == 2 && now.len() == 17);
    text_laws::trimming_takes_off_the_space(before, s, after);
    let q = lexing::quoted(s, '\'');
    lexing::quotes_come_off(s, '\'');
    assert(text_laws::is_trimmed(q));
    text_laws::trimming_takes_off_the_space(before, q, after);
    assert(text::lower(q)[0] == '\'');
    assert(null[0] == 'n' && low[0] == '\\' && now[0] == 'c');
    if s == text::decimal_int(n as int) {
        text::decimal_form_reads_back(n as int, i64::MIN as int, i64::MAX as int);
        text::decimal_form_is_digits(n as int);
        let d = text::decimal_int(n as int);
        assert(text::is_digit(d[0]) || d[0] == '-');
        assert(text::lower(d)[0] == d[0]);
    }
}

/// A column's type is told by how its name begins.
pub proof fn types_of_columns_go_by_their_names(s: Seq<char>)
    ensures
        ({
            let n = lexing::normal_form(s);
            let told = parser::type_named(s);
            &&& "bigint"@.is_prefix_of(n) ==> told == Some(SqlTypeName::Int8)
            &&& "int"@.is_prefix_of(n) ==> told == Some(SqlTypeName::Int4)
            &&& "char"@.is_prefix_of(n) ==> told == Some(SqlTypeName::Text)
            &&& "varchar"@.is_prefix_of(n) ==> told == Some(SqlTypeName::Text)
            &&& "text"@.is_prefix_of(n) ==> told == Some(SqlTypeName::Text)
            &&& "timestamp"@.is_prefix_of(n) ==> told == Some(SqlTypeName::Text)
            &&& told == Some(SqlTypeName::Int8) ==> "bigint"@.is_prefix_of(n)
            &&& told == Some(SqlTypeName::Int4) ==> "int"@.is_prefix_of(n)
            &&& told == Some(SqlTypeName::Text) ==> "char"@.is_prefix_of(n)
                || "varchar"@.is_prefix_of(n) || "text"@.is_prefix_of(n)
                || "timestamp"@.is_prefix_of(n)
        }),
{
    reveal_strlit("bigint");
    reveal_strlit("int");
    reveal_strlit("integer");
    reveal_strlit("char");
    reveal_strlit("varchar");
    reveal_strlit("text");
    reveal_strlit("timestamp");
    let n = lexing::normal_form(s);
    if n.len() > 0 {
        assert("bigint"@[0] == 'b' && "int"@[0] == 'i' && "char"@[0] == 'c' && "varchar"@[0] == 'v'
            && "text"@[0] == 't' && "timestamp"@[0] == 't');
        assert("bigint"@.is_prefix_of(n) ==> n[0] == 'b');
        assert("int"@.is_prefix_of(n) ==> n[0] == 'i');
        assert("char"@.is_prefix_of(n) ==> n[0] == 'c');
        assert("varchar"@.is_prefix_of(n) ==> n[0] == 'v');
        assert("text"@.is_prefix_of(n) ==> n[0] == 't');
        assert("timestamp"@.is_prefix_of(n) ==> n[0] == 't');
        assert("integer"@.is_prefix_of(n) ==> n[0] == 'i');
        if "integer"@.is_prefix_of(n) {
            assert("int"@ =~= n.subrange(0, 3));
        }
    }
}

} // verus!
