//! The values of a row of the bootstrap file.

use vstd::prelude::*;

use crate::bootstrap::lines;
use crate::bootstrap::lines::{find_char, find_last_char};
use crate::lexing;
use crate::search;
use crate::text;

verus! {

/// The values that the rest of a row holds, behind what is known of the value
/// that the rest begins in: values end at space, but for what stands between
/// quotation marks, where a pair of marks is one. A value without characters is
/// none.
pub open spec fn values_from(rest: Seq<char>, value: Seq<char>, inside: bool) -> Seq<Seq<char>>
    decreases rest.len(),
{
    if rest.len() == 0 {
        if value.len() > 0 {
            seq![value]
        } else {
            seq![]
        }
    } else if inside {
        if rest[0] != '\'' {
            values_from(rest.drop_first(), value.push(rest[0]), true)
        } else if rest.len() > 1 && rest[1] == '\'' {
            values_from(rest.skip(2), value.push('\''), true)
        } else {
            values_from(rest.drop_first(), value, false)
        }
    } else if rest[0] == '\'' {
        values_from(rest.drop_first(), value, true)
    } else if !text::is_space(rest[0]) {
        values_from(rest.drop_first(), value.push(rest[0]), false)
    } else if value.len() > 0 {
        seq![value] + values_from(rest.drop_first(), seq![], false)
    } else {
        values_from(rest.drop_first(), seq![], false)
    }
}

/// The values of a row.
pub open spec fn values_in(s: Seq<char>) -> Seq<Seq<char>> {
    values_from(s, seq![], false)
}

pub fn tokenize_bki_values(s: &Vec<char>) -> (r: Vec<Vec<char>>)
    ensures
        search::views(r@) == values_in(s@),
{
    let mut found: Vec<Vec<char>> = Vec::new();
    let mut value: Vec<char> = Vec::new();
    let mut inside = false;
    let total = s.len();
    let mut i: usize = 0;
    assert(s@.skip(0) =~= s@);
    assert(search::views(found@) =~= seq![]);
    assert(value@ =~= seq![]);
    assert(Seq::<Seq<char>>::empty() + values_in(s@) =~= values_in(s@));
    while i < total
        invariant
            i <= total,
            total == s@.len(),
            values_in(s@) == search::views(found@) + values_from(
                s@.skip(i as int),
                value@,
                inside,
            ),
        decreases total - i,
    {
        let ghost rest = s@.skip(i as int);
        assert(rest.drop_first() =~= s@.skip(i + 1));
        let c = s[i];
        assert(rest[0] == c);
        if inside {
            if c != '\'' {
                value.push(c);
            } else if total - i > 1 && s[i + 1] == '\'' {
                assert(rest[1] == s@[i + 1]);
                assert(rest.skip(2) =~= s@.skip(i + 2));
                value.push('\'');
                i += 1;
            } else {
                assert(rest.len() > 1 ==> rest[1] == s@[i + 1]);
                inside = false;
            }
        } else if c == '\'' {
            inside = true;
        } else if !text::is_whitespace(c) {
            value.push(c);
        } else if value.len() > 0 {
            let ghost before = search::views(found@);
            let ghost word = value@;
            found.push(value);
            value = Vec::new();
            assert(value@ =~= seq![]);
            assert(search::views(found@) =~= before.push(word));
            assert(before + (seq![word] + values_from(rest.drop_first(), seq![], false))
                =~= before.push(word) + values_from(rest.drop_first(), seq![], false));
        } else {
            assert(value@ =~= seq![]);
        }
        i += 1;
    }
    assert(s@.skip(i as int).len() == 0);
    let ghost before = search::views(found@);
    if value.len() > 0 {
        let ghost word = value@;
        found.push(value);
        assert(search::views(found@) =~= before.push(word));
        assert(before + seq![word] =~= before.push(word));
    } else {
        assert(before + Seq::<Seq<char>>::empty() =~= before);
    }
    found
}

/// A row as it is written: each value between quotation marks, with space
/// between them.
pub open spec fn written(values: Seq<Seq<char>>) -> Seq<char>
    decreases values.len(),
{
    if values.len() == 0 {
        seq![]
    } else {
        lexing::quoted(values[0], '\'') + seq![' '] + written(values.drop_first())
    }
}

proof fn lemma_inside(s: Seq<char>, value: Seq<char>, behind: Seq<char>)
    requires
        behind.len() > 0,
        behind[0] != '\'',
    ensures
        values_from(lexing::doubled(s, '\'') + seq!['\''] + behind, value, true) == values_from(
            behind,
            value + s,
            false,
        ),
    decreases s.len(),
{
    let rest = lexing::doubled(s, '\'') + seq!['\''] + behind;
    if s.len() == 0 {
        assert(rest =~= seq!['\''] + behind);
        assert(rest.drop_first() =~= behind);
        assert(value + s =~= value);
    } else {
        let tail = lexing::doubled(s.skip(1), '\'') + seq!['\''] + behind;
        lemma_inside(s.skip(1), value.push(s[0]), behind);
        assert(value.push(s[0]) + s.skip(1) =~= value + s);
        if s[0] == '\'' {
            assert(rest =~= seq!['\'', '\''] + tail);
            assert(rest.skip(2) =~= tail);
        } else {
            assert(rest =~= seq![s[0]] + tail);
            assert(rest.drop_first() =~= tail);
        }
    }
}

/// The values of a row that is written are read back, if none of them is empty.
pub proof fn written_values_are_read_back(values: Seq<Seq<char>>)
    requires
        forall|i: int| 0 <= i < values.len() ==> (#[trigger] values[i]).len() > 0,
    ensures
        values_in(written(values)) == values,
    decreases values.len(),
{
    if values.len() > 0 {
        let rest = values.drop_first();
        assert forall|i: int| 0 <= i < rest.len() implies (#[trigger] rest[i]).len() > 0 by {
            assert(rest[i] == values[i + 1]);
        }
        written_values_are_read_back(rest);
        let behind = seq![' '] + written(rest);
        let s = written(values);
        assert(s.drop_first() =~= lexing::doubled(values[0], '\'') + seq!['\''] + behind);
        lemma_inside(values[0], seq![], behind);
        assert(Seq::<char>::empty() + values[0] =~= values[0]);
        assert(behind.drop_first() =~= written(rest));
        assert(seq![values[0]] + rest =~= values);
    }
}

/// A value, or nothing for the word that stands for a null.
pub open spec fn or_null(value: Seq<char>) -> Option<Seq<char>> {
    if value == "_null_"@ {
        None
    } else {
        Some(value)
    }
}

/// The values of a row that is inserted: those between the first opening and the
/// last closing parenthesis.
pub open spec fn inserted(line: Seq<char>) -> Option<Seq<Option<Seq<char>>>> {
    match (lines::first_place(line, '('), lines::last_place(line, ')')) {
        (Some(start), Some(end)) if start < end => Some(
            values_in(line.subrange(start + 1, end)).map_values(
                |value: Seq<char>| or_null(value),
            ),
        ),
        _ => None,
    }
}

/// What a row of texts holds.
pub open spec fn row_texts(row: Seq<Option<String>>) -> Seq<Option<Seq<char>>> {
    Seq::new(row.len(), |i: int| search::option_view(row[i]))
}

pub fn parse_insert_values(line: &Vec<char>) -> (r: Option<Vec<Option<String>>>)
    ensures
        match r {
            Some(row) => inserted(line@) == Some(row_texts(row@)),
            None => inserted(line@) is None,
        },
{
    let (start, end) = match (find_char(line, '('), find_last_char(line, ')')) {
        (Some(start), Some(end)) => (start, end),
        _ => return None,
    };
    if start >= end {
        return None;
    }
    let tokens = tokenize_bki_values(&text::slice_of(line, start + 1, end));
    let ghost all = search::views(tokens@);
    let mut row: Vec<Option<String>> = Vec::new();
    let mut i: usize = 0;
    while i < tokens.len()
        invariant
            i <= tokens.len(),
            all == search::views(tokens@),
            row@.len() == i,
            forall|j: int| 0 <= j < i ==> search::option_view(#[trigger] row@[j]) == or_null(all[j]),
        decreases tokens.len() - i,
    {
        assert(all[i as int] == tokens@[i as int]@);
        if text::spells(&tokens[i], "_null_") {
            row.push(None);
        } else {
            row.push(Some(text::string_of(&tokens[i])));
        }
        i += 1;
    }
    assert(tokens@.len() == all.len());
    assert(row_texts(row@) =~= all.map_values(|value: Seq<char>| or_null(value)));
    Some(row)
}

} // verus!
