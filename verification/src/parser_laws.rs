//! Statements that are written are read back.

use vstd::prelude::*;

use crate::bootstrap::bki_laws;
use crate::lexing;
use crate::lexing_laws;
use crate::parser;
use crate::parser::StatementView;
use crate::text;
use crate::text_laws;

verus! {

pub(crate) proof fn lemma_statement_text(q: Seq<char>)
    requires
        text_laws::is_trimmed(q),
        q.last() != ';',
    ensures
        lexing::statement_text(q) == q,
        parser::parsed(q) == parser::statement(q),
{
    let empty = Seq::<char>::empty();
    text_laws::trimming_takes_off_the_space(empty, q, empty);
    assert(empty + q + empty =~= q);
}

spec fn begins_with_word(scan: text::WordScan, w: Seq<char>) -> bool {
    ||| scan.words.len() == 0 && w.is_prefix_of(scan.current)
    ||| scan.words.len() > 0 && w.is_prefix_of(scan.words[0])
}

proof fn lemma_scan_begins(w: Seq<char>, x: Seq<char>)
    requires
        bki_laws::is_word(w),
    ensures
        begins_with_word(text::scan_words(w + x), w),
    decreases x.len(),
{
    if x.len() == 0 {
        let empty = Seq::<char>::empty();
        bki_laws::lemma_scan_word(empty, w);
        assert(empty + w =~= w);
        assert(w + x =~= w);
    } else {
        let shorter = x.drop_last();
        lemma_scan_begins(w, shorter);
        assert((w + x).drop_last() =~= w + shorter);
        let before = text::scan_words(w + shorter);
        let now = text::scan_words(w + x);
        let c = (w + x).last();
        if before.words.len() == 0 {
            assert(w.is_prefix_of(before.current));
            if !text::is_space(c) {
                assert(before.current.push(c).take(w.len() as int) =~= before.current.take(
                    w.len() as int,
                ));
            } else {
                assert(now.words[0] == before.current);
            }
        } else {
            assert(now.words[0] == before.words[0]);
        }
    }
}

/// The normal form of a text begins with the word that the text begins with.
pub(crate) proof fn lemma_normal_form_begins(w: Seq<char>, x: Seq<char>)
    requires
        bki_laws::is_word(w),
    ensures
        text::lower(w).is_prefix_of(lexing::normal_form(w + x)),
{
    lemma_scan_begins(w, x);
    let list = text::words(w + x);
    let line = text::joined(list, " "@);
    assert(list.len() > 0 && w.is_prefix_of(list[0]));
    if list.len() > 1 {
        text_laws::lemma_joined_first(list, " "@);
    }
    assert(list[0].is_prefix_of(line));
    assert(w =~= list[0].take(w.len() as int));
    assert(text::lower(w) =~= text::lower(line).take(w.len() as int)) by {
        assert forall|i: int| 0 <= i < w.len() implies w[i] == line[i] by {
            assert(w[i] == list[0][i]);
            assert(list[0][i] == line.take(list[0].len() as int)[i]);
        }
    }
}

/// What a text that begins with a word is not read as, by a letter of the word.
proof fn lemma_differs(q: Seq<char>, w: Seq<char>, x: Seq<char>, literal: Seq<char>, i: int)
    requires
        q == w + x,
        bki_laws::is_word(w),
        0 <= i < w.len(),
        i >= literal.len() || text::lower_char(w[i]) != literal[i],
    ensures
        lexing::normal_form(q) != literal,
        !literal.is_prefix_of(lexing::normal_form(q)) || i >= literal.len(),
{
    lemma_normal_form_begins(w, x);
    let n = lexing::normal_form(q);
    assert(text::lower(w)[i] == n.take(w.len() as int)[i]);
    if i < literal.len() && literal.is_prefix_of(n) {
        assert(literal[i] == n.take(literal.len() as int)[i]);
    }
}

/// A statement that begins with a word is none of those that are read as they
/// stand where the word does not begin one of them.
proof fn lemma_not_fixed(q: Seq<char>, w: Seq<char>, x: Seq<char>)
    requires
        q == w + x,
        bki_laws::is_word(w),
        text::lower_char(w[0]) != 's',
    ensures
        parser::fixed_query(q) is None,
{
    reveal_strlit("select 1");
    reveal_strlit("show server_version");
    reveal_strlit("select $1::int4");
    reveal_strlit("select relkind from pg_catalog.pg_class where oid=$1::pg_catalog.regclass");
    reveal_strlit(
        "select o.n, p.partstrat, pg_catalog.count(i.inhparent) from pg_catalog.pg_class as c",
    );
    lemma_differs(q, w, x, "select 1"@, 0);
    lemma_differs(q, w, x, "show server_version"@, 0);
    lemma_differs(q, w, x, "select $1::int4"@, 0);
    lemma_differs(
        q,
        w,
        x,
        "select relkind from pg_catalog.pg_class where oid=$1::pg_catalog.regclass"@,
        0,
    );
    lemma_differs(
        q,
        w,
        x,
        "select o.n, p.partstrat, pg_catalog.count(i.inhparent) from pg_catalog.pg_class as c"@,
        0,
    );
}

pub(crate) proof fn lemma_not_transaction(q: Seq<char>, w: Seq<char>, x: Seq<char>, i: int)
    requires
        q == w + x,
        bki_laws::is_word(w),
        0 <= i < w.len(),
        text::lower_char(w[0]) != 'b',
        text::lower_char(w[0]) != 'e',
        text::lower_char(w[0]) != 'r',
        i >= "commit"@.len() || text::lower_char(w[i]) != "commit"@[i],
    ensures
        parser::transaction(q) is None,
{
    reveal_strlit("begin");
    reveal_strlit("end");
    reveal_strlit("rollback");
    lemma_differs(q, w, x, "begin"@, 0);
    lemma_differs(q, w, x, "commit"@, i);
    lemma_differs(q, w, x, "end"@, 0);
    lemma_differs(q, w, x, "rollback"@, 0);
}

pub(crate) proof fn lemma_number(before: Seq<char>, n: i64)
    requires
        parser::is_blank(before),
    ensures
        parser::number(before + text::decimal_int(n as int)) == Some(n),
        bki_laws::is_word(text::decimal_int(n as int)),
        text_laws::is_trimmed(text::decimal_int(n as int)),
        lexing_laws::is_simple(text::decimal_int(n as int)),
        !text::decimal_int(n as int).contains(','),
        text::decimal_int(n as int).last() != ';',
        text::decimal_int(n as int)[0] == '-' || text::is_digit(text::decimal_int(n as int)[0]),
        forall|i: int|
            0 <= i < text::decimal_int(n as int).len() ==> text::is_digit(
                #[trigger] text::decimal_int(n as int)[i],
            ) || text::decimal_int(n as int)[i] == '-',
{
    let d = text::decimal_int(n as int);
    let empty = Seq::<char>::empty();
    bki_laws::lemma_decimal_digits(
        if n < 0 {
            (-n) as nat
        } else {
            n as nat
        },
    );
    assert forall|i: int| 0 <= i < d.len() implies (text::is_digit(#[trigger] d[i]) || d[i] == '-')
        && !text::is_space(d[i]) by {
        if n < 0 {
            if i > 0 {
                assert(d[i] == text::decimal((-n) as nat)[i - 1]);
                assert(text::is_digit(text::decimal((-n) as nat)[i - 1]));
            }
        } else {
            assert(text::is_digit(text::decimal(n as nat)[i]));
        }
    }
    text_laws::trimming_takes_off_the_space(before, d, empty);
    assert(before + d + empty =~= before + d);
    text::decimal_form_reads_back(n as int, i64::MIN as int, i64::MAX as int);
}

pub(crate) proof fn lemma_lacks(s: Seq<char>, c: char)
    requires
        lexing_laws::is_plain(s),
        !lexing_laws::is_name_char(c),
    ensures
        !s.contains(c),
{
    if s.contains(c) {
        let i = choose|i: int| 0 <= i < s.len() && s[i] == c;
        assert(lexing_laws::is_name_char(s[i]));
    }
}

/// A condition on a key is read back.
proof fn lemma_equality(k: Seq<char>, v: i64)
    requires
        lexing_laws::is_plain(k),
    ensures
        parser::int_equality(text::joined(seq![k, "="@, text::decimal_int(v as int)], " "@))
            == Some((text::lower(k), v)),
{
    reveal_strlit(" ");
    reveal_strlit("=");
    let d = text::decimal_int(v as int);
    let list = seq![k, "="@, d];
    let empty = Seq::<char>::empty();
    let blank = seq![' '];
    assert(list.drop_last() =~= seq![k, "="@]);
    assert(list.drop_last().drop_last() =~= seq![k]);
    reveal_with_fuel(text::joined, 4);
    let s = text::joined(list, " "@);
    assert(s =~= (k + blank) + seq!['='] + (blank + d));
    lemma_lacks(k, '=');
    assert(!(k + blank).contains('=')) by {
        if (k + blank).contains('=') {
            let i = choose|i: int| 0 <= i < (k + blank).len() && (k + blank)[i] == '=';
            if i < k.len() {
                assert(k[i] == '=');
                assert(k.contains('='));
            }
        }
    }
    lexing_laws::lemma_find_char(k + blank, '=', blank + d);
    assert(parser::is_blank(blank));
    lexing_laws::a_plain_name_is_folded(empty, k, blank);
    assert(empty + k + blank =~= k + blank);
    lemma_number(blank, v);
}

proof fn lemma_addition(c: Seq<char>, n: i64)
    requires
        lexing_laws::is_plain(c),
    ensures
        parser::addition(
            text::joined(seq![c, "="@, c, "+"@, text::decimal_int(n as int)], " "@),
        ) == Some((text::lower(c), n)),
{
    reveal_strlit(" ");
    reveal_strlit("=");
    reveal_strlit("+");
    let d = text::decimal_int(n as int);
    let list = seq![c, "="@, c, "+"@, d];
    let empty = Seq::<char>::empty();
    let blank = seq![' '];
    assert(list.drop_last() =~= seq![c, "="@, c, "+"@]);
    assert(list.drop_last().drop_last() =~= seq![c, "="@, c]);
    assert(list.drop_last().drop_last().drop_last() =~= seq![c, "="@]);
    assert(list.drop_last().drop_last().drop_last().drop_last() =~= seq![c]);
    reveal_with_fuel(text::joined, 6);
    let s = text::joined(list, " "@);
    let expression = (blank + c + blank) + seq!['+'] + (blank + d);
    assert(s =~= (c + blank) + seq!['='] + expression);
    lemma_lacks(c, '=');
    lemma_lacks(c, '+');
    assert(!(c + blank).contains('=')) by {
        if (c + blank).contains('=') {
            let i = choose|i: int| 0 <= i < (c + blank).len() && (c + blank)[i] == '=';
            if i < c.len() {
                assert(c[i] == '=');
                assert(c.contains('='));
            }
        }
    }
    let left = blank + c + blank;
    assert(!left.contains('+')) by {
        if left.contains('+') {
            let i = choose|i: int| 0 <= i < left.len() && left[i] == '+';
            if 0 < i <= c.len() {
                assert(c[i - 1] == '+');
                assert(c.contains('+'));
            }
        }
    }
    lexing_laws::lemma_find_char(c + blank, '=', expression);
    lexing_laws::lemma_find_char(left, '+', blank + d);
    assert(parser::is_blank(blank));
    lexing_laws::a_plain_name_is_folded(empty, c, blank);
    assert(empty + c + blank =~= c + blank);
    lemma_number(blank, n);
}

proof fn lemma_folded_word(literal: Seq<char>)
    requires
        forall|i: int| 0 <= i < literal.len() ==> !('A' <= #[trigger] literal[i] <= 'Z'),
    ensures
        text::lower(literal) == literal,
{
    assert(text::lower(literal) =~= literal);
}

/// What a statement is not read as, by the letter that it begins with.
pub(crate) proof fn lemma_other_forms(q: Seq<char>, w: Seq<char>, x: Seq<char>)
    requires
        q == w + x,
        bki_laws::is_word(w),
    ensures
        ({
            let l = text::lower_char(w[0]);
            &&& l != 's' ==> parser::fixed_query(q) is None
            &&& l != 'b' && l != 'c' && l != 'e' && l != 'r' ==> parser::transaction(q) is None
            &&& l != 'd' ==> parser::drop_tables(q) is None
            &&& l != 'c' ==> parser::create_table(q) is None && parser::copy_from_stdin(q) is None
            &&& l != 't' ==> parser::truncate_tables(q) is None
            &&& l != 's' ==> parser::select_count(q) is None && parser::select_column_where_int(
                q,
            ) is None
            &&& l != 'u' ==> parser::update_add_int(q) is None
            &&& l != 'i' ==> parser::insert(q) is None
        }),
{
    reveal_strlit("commit");
    reveal_strlit("drop table if exists ");
    reveal_strlit("drop table ");
    reveal_strlit("create table ");
    reveal_strlit("create unlogged table ");
    reveal_strlit("truncate table ");
    reveal_strlit("truncate ");
    reveal_strlit("copy ");
    reveal_strlit("select count(*) from ");
    reveal_strlit("select ");
    reveal_strlit("update ");
    reveal_strlit("insert into ");
    let l = text::lower_char(w[0]);
    assert(q[0] == w[0]);
    if l != 's' {
        lemma_not_fixed(q, w, x);
        lexing_laws::lemma_no_prefix(q, "select count(*) from "@, 0);
        lexing_laws::lemma_no_prefix(q, "select "@, 0);
    }
    if l != 'b' && l != 'c' && l != 'e' && l != 'r' {
        lemma_not_transaction(q, w, x, 0);
    }
    if l != 'd' {
        lexing_laws::lemma_no_prefix(q, "drop table if exists "@, 0);
        lexing_laws::lemma_no_prefix(q, "drop table "@, 0);
    }
    if l != 'c' {
        lexing_laws::lemma_no_prefix(q, "create table "@, 0);
        lexing_laws::lemma_no_prefix(q, "create unlogged table "@, 0);
        lexing_laws::lemma_no_prefix(q, "copy "@, 0);
    }
    if l != 't' {
        lexing_laws::lemma_no_prefix(q, "truncate table "@, 0);
        lexing_laws::lemma_no_prefix(q, "truncate "@, 0);
    }
    if l != 'u' {
        lexing_laws::lemma_no_prefix(q, "update "@, 0);
    }
    if l != 'i' {
        lexing_laws::lemma_no_prefix(q, "insert into "@, 0);
    }
}

#[verifier::rlimit(60)]
proof fn lemma_update_parts(
    t: Seq<char>,
    c: Seq<char>,
    n: i64,
    k: Seq<char>,
    v: i64,
    rest: Seq<char>,
)
    requires
        lexing_laws::is_plain(t),
        lexing_laws::is_plain(c),
        lexing_laws::is_plain(k),
        text::lower(c) != "where"@,
        rest == t + " set "@ + (text::joined(
            seq![c, "="@, c, "+"@, text::decimal_int(n as int)],
            " "@,
        ) + " where "@ + text::joined(seq![k, "="@, text::decimal_int(v as int)], " "@)),
    ensures
        parser::update_add_int("update "@ + rest) == Some(
            StatementView::UpdateAddInt {
                table: text::lower(t),
                column: text::lower(c),
                addend: n,
                key_column: text::lower(k),
                key_value: v,
            },
        ),
{
    reveal_strlit("set");
    reveal_strlit(" set ");
    reveal_strlit("where");
    reveal_strlit(" where ");
    reveal_strlit("=");
    reveal_strlit("+");
    let d = text::decimal_int(n as int);
    let e = text::decimal_int(v as int);
    let empty = Seq::<char>::empty();
    let sum = seq![c, "="@, c, "+"@, d];
    let key = text::joined(seq![k, "="@, e], " "@);
    lemma_number(empty, n);
    lexing_laws::lemma_plain(t);
    lexing_laws::lemma_plain(c);
    let tail = text::joined(sum, " "@) + " where "@ + key;
    assert(lexing_laws::spaced("set"@) =~= " set "@);
    assert(lexing_laws::spaced("where"@) =~= " where "@);
    assert(text_laws::are_words(seq![t]));
    assert(text_laws::are_words(sum));
    assert(text::joined(seq![t], " "@) == t);
    lexing_laws::lemma_prefix("update "@, rest);
    lexing_laws::the_first_keyword_parts_the_text(seq![t], "set"@, tail, "set"@);
    lemma_folded_word("where"@);
    assert forall|i: int| 0 < i < sum.len() implies text::lower(#[trigger] sum[i]) != text::lower(
        "where"@,
    ) by {
        if i == 4 {
            assert(text::lower(d)[0] == text::lower_char(d[0]));
            assert(text::lower("where"@)[0] == 'w');
        } else if i == 1 || i == 3 {
            assert(text::lower(sum[i]).len() == 1);
            assert(text::lower("where"@).len() == 5);
        }
    }
    lexing_laws::the_first_keyword_parts_the_text(sum, "where"@, key, "where"@);
    lemma_addition(c, n);
    lemma_equality(k, v);
    lexing_laws::a_plain_name_is_folded(empty, t, empty);
    assert(empty + t + empty =~= t);
}

/// An update that adds a number to a column of the row with a key is read back,
/// with its names in lower case. A column whose name is the keyword in front of the
/// condition is left out.
#[verifier::rlimit(60)]
pub proof fn a_written_update_is_read_back(
    t: Seq<char>,
    c: Seq<char>,
    n: i64,
    k: Seq<char>,
    v: i64,
)
    requires
        lexing_laws::is_plain(t),
        lexing_laws::is_plain(c),
        lexing_laws::is_plain(k),
        text::lower(c) != "where"@,
    ensures
        parser::parsed(
            "update "@ + t + " set "@ + c + " = "@ + c + " + "@ + text::decimal_int(n as int)
                + " where "@ + k + " = "@ + text::decimal_int(v as int),
        ) == Some(
            StatementView::UpdateAddInt {
                table: text::lower(t),
                column: text::lower(c),
                addend: n,
                key_column: text::lower(k),
                key_value: v,
            },
        ),
{
    let d = text::decimal_int(n as int);
    let e = text::decimal_int(v as int);
    let sum = text::joined(seq![c, "="@, c, "+"@, d], " "@);
    let key = text::joined(seq![k, "="@, e], " "@);
    let rest = t + " set "@ + (sum + " where "@ + key);
    let q = "update "@ + t + " set "@ + c + " = "@ + c + " + "@ + d + " where "@ + k + " = "@ + e;
    lemma_update_parts(t, c, n, k, v, rest);
    lemma_sum_text(c, d);
    lemma_key_text(k, e);
    assert(q =~= "update "@ + rest);
    reveal_strlit("update");
    reveal_strlit("update ");
    lemma_number(Seq::empty(), v);
    assert(q.last() == e.last());
    assert(!text::is_space(e[e.len() - 1]));
    lemma_statement_text(q);
    let behind = seq![' '] + rest;
    assert(q =~= "update"@ + behind);
    lemma_other_forms(q, "update"@, behind);
}

proof fn lemma_sum_text(c: Seq<char>, d: Seq<char>)
    ensures
        text::joined(seq![c, "="@, c, "+"@, d], " "@) == c + " = "@ + c + " + "@ + d,
{
    reveal_strlit(" ");
    reveal_strlit("=");
    reveal_strlit("+");
    reveal_strlit(" = ");
    reveal_strlit(" + ");
    let list = seq![c, "="@, c, "+"@, d];
    assert(list.drop_last() =~= seq![c, "="@, c, "+"@]);
    assert(list.drop_last().drop_last() =~= seq![c, "="@, c]);
    assert(list.drop_last().drop_last().drop_last() =~= seq![c, "="@]);
    assert(list.drop_last().drop_last().drop_last().drop_last() =~= seq![c]);
    reveal_with_fuel(text::joined, 6);
    assert(text::joined(list, " "@) =~= c + " = "@ + c + " + "@ + d);
}

proof fn lemma_key_text(k: Seq<char>, d: Seq<char>)
    ensures
        text::joined(seq![k, "="@, d], " "@) == k + " = "@ + d,
{
    reveal_strlit(" ");
    reveal_strlit("=");
    reveal_strlit(" = ");
    let list = seq![k, "="@, d];
    assert(list.drop_last() =~= seq![k, "="@]);
    assert(list.drop_last().drop_last() =~= seq![k]);
    reveal_with_fuel(text::joined, 4);
    assert(text::joined(list, " "@) =~= k + " = "@ + d);
}

proof fn lemma_joined_lacks(list: Seq<Seq<char>>, c: char)
    requires
        c != ' ',
        forall|i: int| 0 <= i < list.len() ==> !(#[trigger] list[i]).contains(c),
    ensures
        !text::joined(list, " "@).contains(c),
    decreases list.len(),
{
    reveal_strlit(" ");
    let s = text::joined(list, " "@);
    if list.len() > 0 {
        let last = list.last();
        assert(!list[list.len() - 1].contains(c));
        if list.len() > 1 {
            let before = list.drop_last();
            assert forall|i: int| 0 <= i < before.len() implies !(#[trigger] before[i]).contains(
                c,
            ) by {
                assert(before[i] == list[i]);
            }
            lemma_joined_lacks(before, c);
            let head = text::joined(before, " "@);
            if s.contains(c) {
                let i = choose|i: int| 0 <= i < s.len() && s[i] == c;
                if i < head.len() {
                    assert(head[i] == c);
                    assert(head.contains(c));
                } else if i > head.len() {
                    assert(last[i - head.len() - 1] == c);
                    assert(last.contains(c));
                }
            }
        }
    }
}

/// Words, a word and words behind it, each with a single space before it.
proof fn lemma_two_lists(a: Seq<Seq<char>>, w: Seq<char>, b: Seq<Seq<char>>)
    requires
        a.len() > 0,
        b.len() > 0,
    ensures
        text::joined(a.push(w) + b, " "@) == text::joined(a, " "@) + lexing_laws::spaced(w)
            + text::joined(b, " "@),
    decreases a.len(),
{
    reveal_strlit(" ");
    let all = a.push(w) + b;
    text_laws::lemma_joined_first(all, " "@);
    if a.len() == 1 {
        assert(all.skip(1) =~= seq![w] + b);
        text_laws::lemma_joined_first(seq![w] + b, " "@);
        assert((seq![w] + b).skip(1) =~= b);
        assert(text::joined(a, " "@) == a[0]);
        assert(text::joined(all, " "@) =~= a[0] + lexing_laws::spaced(w) + text::joined(b, " "@));
    } else {
        let rest = a.skip(1);
        assert(all.skip(1) =~= rest.push(w) + b);
        lemma_two_lists(rest, w, b);
        text_laws::lemma_joined_first(a, " "@);
        assert(text::joined(all, " "@) =~= text::joined(a, " "@) + lexing_laws::spaced(w)
            + text::joined(b, " "@));
    }
}

/// The words of a statement that looks up a column.
proof fn lemma_select_words(c: Seq<char>, t: Seq<char>, k: Seq<char>, e: Seq<char>)
    ensures
        ({
            let list = seq!["select"@, c, "from"@, t, "where"@, k, "="@, e];
            let q = "select "@ + c + " from "@ + t + " where "@ + k + " = "@ + e;
            &&& text::joined(list, " "@) == q
        }),
{
    reveal_strlit(" ");
    reveal_strlit("select");
    reveal_strlit("select ");
    reveal_strlit("from");
    reveal_strlit(" from ");
    reveal_strlit("where");
    reveal_strlit(" where ");
    let list = seq!["select"@, c, "from"@, t, "where"@, k, "="@, e];
    let key = seq![k, "="@, e];
    lemma_key_text(k, e);
    let one: Seq<Seq<char>> = seq![t];
    lemma_two_lists(one, "where"@, key);
    assert(text::joined(one, " "@) == t);
    let target = one.push("where"@) + key;
    let two: Seq<Seq<char>> = seq!["select"@, c];
    lemma_two_lists(two, "from"@, target);
    assert(two.drop_last() =~= seq!["select"@]);
    reveal_with_fuel(text::joined, 3);
    assert(text::joined(two, " "@) =~= "select "@ + c);
    assert(list =~= two.push("from"@) + target);
    assert(text::joined(list, " "@) =~= "select "@ + c + " from "@ + t + " where "@ + k + " = "@
        + e);
}

proof fn lemma_select_is_not_fixed(c: Seq<char>, t: Seq<char>, k: Seq<char>, v: i64)
    requires
        lexing_laws::is_plain(t),
        lexing_laws::is_plain(c),
        lexing_laws::is_plain(k),
    ensures
        ({
            let q = "select "@ + c + " from "@ + t + " where "@ + k + " = "@ + text::decimal_int(
                v as int,
            );
            &&& parser::fixed_query(q) is None
            &&& parser::select_count(q) is None
        }),
{
    let e = text::decimal_int(v as int);
    let q = "select "@ + c + " from "@ + t + " where "@ + k + " = "@ + e;
    let list = seq!["select"@, c, "from"@, t, "where"@, k, "="@, e];
    lemma_select_words(c, t, k, e);
    lemma_number(Seq::empty(), v);
    lexing_laws::lemma_plain(t);
    lexing_laws::lemma_plain(c);
    lexing_laws::lemma_plain(k);
    reveal_strlit("select");
    reveal_strlit("select ");
    reveal_strlit("from");
    reveal_strlit("where");
    reveal_strlit("=");
    assert(text_laws::are_words(list));
    text_laws::lemma_normal_form(list);
    let n = text::lower(q);
    assert forall|x: char| x == '$' || x == '.' || x == '(' implies !q.contains(x) && !n.contains(
        x,
    ) by {
        lemma_lacks(t, x);
        lemma_lacks(c, x);
        lemma_lacks(k, x);
        assert(!"select"@.contains(x) && !"from"@.contains(x) && !"where"@.contains(x)
            && !"="@.contains(x));
        assert(!e.contains(x)) by {
            if e.contains(x) {
                let i = choose|i: int| 0 <= i < e.len() && e[i] == x;
                assert(text::is_digit(e[i]) || e[i] == '-');
            }
        }
        lemma_joined_lacks(list, x);
        if n.contains(x) {
            let i = choose|i: int| 0 <= i < n.len() && n[i] == x;
            assert(n[i] == text::lower_char(q[i]));
            assert(q[i] == x);
            assert(q.contains(x));
        }
    }
    reveal_strlit("select 1");
    reveal_strlit("show server_version");
    reveal_strlit("select $1::int4");
    reveal_strlit("select relkind from pg_catalog.pg_class where oid=$1::pg_catalog.regclass");
    reveal_strlit(
        "select o.n, p.partstrat, pg_catalog.count(i.inhparent) from pg_catalog.pg_class as c",
    );
    assert(n.len() > 8);
    assert("select 1"@.len() == 8);
    assert(n[1] == 'e');
    assert("show server_version"@[1] == 'h');
    let b = "select $1::int4"@;
    assert(b[7] == '$');
    assert(b.contains('$'));
    let d = "select relkind from pg_catalog.pg_class where oid=$1::pg_catalog.regclass"@;
    assert(d[50] == '$');
    assert(d.contains('$'));
    let f =
        "select o.n, p.partstrat, pg_catalog.count(i.inhparent) from pg_catalog.pg_class as c"@;
    assert(f[8] == '.');
    if f.is_prefix_of(n) {
        assert(n[8] == f[8]);
        assert(n.contains('.'));
    }
    reveal_strlit("select count(*) from ");
    assert("select count(*) from "@[12] == '(');
    if q.len() > 12 {
        assert(q.contains(q[12]));
        if text::lower_char(q[12]) == '(' {
            assert(q[12] == '(');
        }
    }
    lexing_laws::lemma_no_prefix(q, "select count(*) from "@, 12);
}

/// A statement that looks up a column of the row with a key is read back.
#[verifier::rlimit(60)]
pub proof fn a_written_lookup_is_read_back(c: Seq<char>, t: Seq<char>, k: Seq<char>, v: i64)
    requires
        lexing_laws::is_plain(t),
        lexing_laws::is_plain(c),
        lexing_laws::is_plain(k),
    ensures
        parser::parsed(
            "select "@ + c + " from "@ + t + " where "@ + k + " = "@ + text::decimal_int(v as int),
        ) == Some(
            StatementView::SelectColumnWhereInt {
                table: text::lower(t),
                column: text::lower(c),
                key_column: text::lower(k),
                key_value: v,
            },
        ),
{
    reveal_strlit("select");
    reveal_strlit("select ");
    reveal_strlit("from");
    reveal_strlit(" from ");
    reveal_strlit("where");
    reveal_strlit(" where ");
    let e = text::decimal_int(v as int);
    let empty = Seq::<char>::empty();
    let q = "select "@ + c + " from "@ + t + " where "@ + k + " = "@ + e;
    let key = text::joined(seq![k, "="@, e], " "@);
    let after = t + " where "@ + key;
    let rest = c + " from "@ + after;
    lemma_key_text(k, e);
    assert(q =~= "select "@ + rest);
    lemma_number(empty, v);
    lexing_laws::lemma_plain(t);
    lexing_laws::lemma_plain(c);
    assert(lexing_laws::spaced("from"@) =~= " from "@);
    assert(lexing_laws::spaced("where"@) =~= " where "@);
    let column: Seq<Seq<char>> = seq![c];
    let table: Seq<Seq<char>> = seq![t];
    assert(text::joined(column, " "@) == c && text::joined(table, " "@) == t);
    lexing_laws::lemma_prefix("select "@, rest);
    lexing_laws::the_first_keyword_parts_the_text(column, "from"@, after, "from"@);
    lexing_laws::the_first_keyword_parts_the_text(table, "where"@, key, "where"@);
    lemma_equality(k, v);
    lexing_laws::a_plain_name_is_folded(empty, t, empty);
    lexing_laws::a_plain_name_is_folded(empty, c, empty);
    assert(empty + t + empty =~= t);
    assert(empty + c + empty =~= c);
    assert(q.last() == e.last());
    assert(!text::is_space(e[e.len() - 1]));
    assert(q[0] == 's');
    lemma_statement_text(q);
    let behind = seq![' '] + rest;
    assert(q =~= "select"@ + behind);
    lemma_other_forms(q, "select"@, behind);
    lemma_select_is_not_fixed(c, t, k, v);
}

/// A statement that counts the rows of a table is read back.
#[verifier::rlimit(60)]
pub proof fn a_written_count_is_read_back(t: Seq<char>)
    requires
        lexing_laws::is_plain(t),
    ensures
        parser::parsed("select count(*) from "@ + t) == Some(
            StatementView::SelectCount { table: text::lower(t) },
        ),
{
    reveal_strlit(" ");
    reveal_strlit("select");
    reveal_strlit("count(*)");
    reveal_strlit("from");
    reveal_strlit("select count(*) from ");
    let empty = Seq::<char>::empty();
    let q = "select count(*) from "@ + t;
    lexing_laws::lemma_plain(t);
    lexing_laws::lemma_prefix("select count(*) from "@, t);
    lexing_laws::a_plain_name_is_folded(empty, t, empty);
    assert(empty + t + empty =~= t);
    assert(q.last() == t.last());
    assert(lexing_laws::is_name_char(t[t.len() - 1]));
    lemma_statement_text(q);
    let behind = " count(*) from "@ + t;
    reveal_strlit(" count(*) from ");
    assert(q =~= "select"@ + behind);
    lemma_other_forms(q, "select"@, behind);
    let list = seq!["select"@, "count(*)"@, "from"@, t];
    assert(text_laws::are_words(list));
    text_laws::lemma_normal_form(list);
    assert(list.drop_last() =~= seq!["select"@, "count(*)"@, "from"@]);
    assert(list.drop_last().drop_last() =~= seq!["select"@, "count(*)"@]);
    assert(list.drop_last().drop_last().drop_last() =~= seq!["select"@]);
    reveal_with_fuel(text::joined, 5);
    assert(text::joined(list, " "@) =~= q);
    let n = text::lower(q);
    assert(n[7] == 'c' && n[1] == 'e');
    reveal_strlit("select 1");
    reveal_strlit("show server_version");
    reveal_strlit("select $1::int4");
    reveal_strlit("select relkind from pg_catalog.pg_class where oid=$1::pg_catalog.regclass");
    reveal_strlit(
        "select o.n, p.partstrat, pg_catalog.count(i.inhparent) from pg_catalog.pg_class as c",
    );
    assert("select 1"@[7] == '1');
    assert("show server_version"@[1] == 'h');
    assert("select $1::int4"@[7] == '$');
    assert("select relkind from pg_catalog.pg_class where oid=$1::pg_catalog.regclass"@[7] == 'r');
    let f =
        "select o.n, p.partstrat, pg_catalog.count(i.inhparent) from pg_catalog.pg_class as c"@;
    assert(f[7] == 'o');
    if f.is_prefix_of(n) {
        assert(n[7] == f[7]);
    }
}

} // verus!
