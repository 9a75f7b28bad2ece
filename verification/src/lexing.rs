//! The pieces that statements are taken apart into: prefixes and keywords,
//! names and strings, parentheses and lists.

use vstd::prelude::*;

use crate::search;
use crate::text;

verus! {

/// Without the semicolons at its end.
pub open spec fn without_semicolons(s: Seq<char>) -> Seq<char>
    decreases s.len(),
{
    if s.len() > 0 && s.last() == ';' {
        without_semicolons(s.drop_last())
    } else {
        s
    }
}

/// A statement without the space around it and the semicolons at its end.
pub open spec fn statement_text(s: Seq<char>) -> Seq<char> {
    text::trim(without_semicolons(text::trim(s)))
}

pub fn trim_sql(s: &Vec<char>) -> (r: Vec<char>)
    ensures
        r@ == statement_text(s@),
{
    let trimmed = text::trim_chars(s);
    let mut n: usize = trimmed.len();
    assert(trimmed@.take(n as int) =~= trimmed@);
    while n > 0 && trimmed[n - 1] == ';'
        invariant
            n <= trimmed.len(),
            without_semicolons(trimmed@) == without_semicolons(trimmed@.take(n as int)),
        decreases n,
    {
        assert(trimmed@.take(n as int).drop_last() =~= trimmed@.take(n - 1));
        n -= 1;
    }
    let rest = text::slice_of(&trimmed, 0, n);
    assert(rest@ =~= trimmed@.take(n as int));
    text::trim_chars(&rest)
}

/// A statement with single spaces between its words, in lower case.
pub open spec fn normal_form(s: Seq<char>) -> Seq<char> {
    text::lower(text::joined(text::words(s), " "@))
}

pub fn normalize_query(s: &Vec<char>) -> (r: Vec<char>)
    ensures
        r@ == normal_form(s@),
{
    let found = text::split_words(s);
    let line = text::join(&found, " ");
    text::lower_chars(&line)
}

/// What stands behind a prefix, whatever its case.
pub open spec fn after_prefix(s: Seq<char>, prefix: Seq<char>) -> Option<Seq<char>> {
    if prefix.len() <= s.len() && text::lower(s.take(prefix.len() as int)) == text::lower(prefix) {
        Some(s.skip(prefix.len() as int))
    } else {
        None
    }
}

pub open spec fn chars_option(v: Option<Vec<char>>) -> Option<Seq<char>> {
    match v {
        Some(x) => Some(x@),
        None => None,
    }
}

pub fn strip_prefix_ci(s: &Vec<char>, prefix: &str) -> (r: Option<Vec<char>>)
    ensures
        chars_option(r) == after_prefix(s@, prefix@),
{
    let wanted = text::chars_of(prefix);
    if wanted.len() > s.len() {
        return None;
    }
    let head = text::slice_of(s, 0, wanted.len());
    assert(head@ =~= s@.take(prefix@.len() as int));
    if text::same_chars(&text::lower_chars(&head), &text::lower_chars(&wanted)) {
        let rest = text::slice_of(s, wanted.len(), s.len());
        assert(rest@ =~= s@.skip(prefix@.len() as int));
        Some(rest)
    } else {
        None
    }
}

/// Whether a keyword, whatever its case, stands at a place.
pub open spec fn keyword_at(s: Seq<char>, keyword: Seq<char>, i: int) -> bool {
    &&& 0 <= i
    &&& i + keyword.len() <= s.len()
    &&& text::lower(s.subrange(i, i + keyword.len())) == text::lower(keyword)
}

/// The first place at or behind `i` where a keyword stands.
pub open spec fn keyword_from(s: Seq<char>, keyword: Seq<char>, i: int) -> Option<int>
    decreases s.len() + 1 - i,
{
    if i + keyword.len() > s.len() {
        None
    } else if keyword_at(s, keyword, i) {
        Some(i)
    } else {
        keyword_from(s, keyword, i + 1)
    }
}

/// Where a keyword, whatever its case, stands first.
pub open spec fn find_keyword(s: Seq<char>, keyword: Seq<char>) -> Option<int> {
    keyword_from(s, keyword, 0)
}

pub fn find_keyword_ci(s: &Vec<char>, keyword: &str) -> (r: Option<usize>)
    ensures
        match r {
            Some(i) => find_keyword(s@, keyword@) == Some(i as int) && i + keyword@.len()
                <= s@.len(),
            None => find_keyword(s@, keyword@) is None,
        },
{
    let wanted = text::lower_chars(&text::chars_of(keyword));
    let n = wanted.len();
    let mut i: usize = 0;
    while i <= s.len() && n <= s.len() - i
        invariant
            i <= s.len() + 1,
            n == keyword@.len(),
            wanted@ == text::lower(keyword@),
            find_keyword(s@, keyword@) == keyword_from(s@, keyword@, i as int),
        decreases s.len() + 1 - i,
    {
        let here = text::slice_of(s, i, i + n);
        if text::same_chars(&text::lower_chars(&here), &wanted) {
            return Some(i);
        }
        if i == s.len() {
            assert(keyword_from(s@, keyword@, i + 1) is None);
            return None;
        }
        i += 1;
    }
    None
}

pub open spec fn is_char(c: char) -> spec_fn(char) -> bool {
    |x: char| x == c
}

/// Where a character stands first.
pub open spec fn find_char(s: Seq<char>, c: char) -> Option<int> {
    search::first_index(s, is_char(c))
}

pub fn position_of(s: &Vec<char>, c: char) -> (r: Option<usize>)
    ensures
        match r {
            Some(i) => find_char(s@, c) == Some(i as int) && i < s@.len() && s@[i as int] == c,
            None => find_char(s@, c) is None,
        },
{
    let mut i: usize = 0;
    while i < s.len()
        invariant
            i <= s.len(),
            forall|j: int| 0 <= j < i ==> !is_char(c)(#[trigger] s@[j]),
        decreases s.len() - i,
    {
        if s[i] == c {
            proof {
                search::first_index_at(s@, is_char(c), i as int);
            }
            return Some(i);
        }
        i += 1;
    }
    proof {
        search::first_index_none(s@, is_char(c));
    }
    None
}

/// With every pair of a character made a single one.
pub open spec fn undoubled(s: Seq<char>, c: char) -> Seq<char>
    decreases s.len(),
{
    if s.len() == 0 {
        s
    } else if s.len() > 1 && s[0] == c && s[1] == c {
        seq![c] + undoubled(s.skip(2), c)
    } else {
        seq![s[0]] + undoubled(s.skip(1), c)
    }
}

/// With every one of a character made a pair.
pub open spec fn doubled(s: Seq<char>, c: char) -> Seq<char>
    decreases s.len(),
{
    if s.len() == 0 {
        s
    } else if s[0] == c {
        seq![c, c] + doubled(s.skip(1), c)
    } else {
        seq![s[0]] + doubled(s.skip(1), c)
    }
}

/// Doubling a character and undoing it gives the text back.
pub proof fn undoubling_undoes_doubling(s: Seq<char>, c: char)
    ensures
        undoubled(doubled(s, c), c) == s,
    decreases s.len(),
{
    if s.len() > 0 {
        let rest = s.skip(1);
        undoubling_undoes_doubling(rest, c);
        let all = doubled(s, c);
        if s[0] == c {
            assert(all.skip(2) =~= doubled(rest, c));
        } else {
            assert(all.skip(1) =~= doubled(rest, c));
        }
        assert(seq![s[0]] + rest =~= s);
    } else {
        assert(undoubled(doubled(s, c), c) =~= s);
    }
}

fn undouble(s: &Vec<char>, c: char) -> (r: Vec<char>)
    ensures
        r@ == undoubled(s@, c),
{
    let mut r: Vec<char> = Vec::new();
    let mut i: usize = 0;
    assert(s@.skip(0) =~= s@);
    assert(r@ + undoubled(s@, c) =~= undoubled(s@, c));
    while i < s.len()
        invariant
            i <= s.len(),
            r@ + undoubled(s@.skip(i as int), c) == undoubled(s@, c),
        decreases s.len() - i,
    {
        let ghost before = r@;
        let ghost rest = s@.skip(i as int);
        if s.len() - i > 1 && s[i] == c && s[i + 1] == c {
            r.push(c);
            assert(rest.skip(2) =~= s@.skip(i + 2));
            assert(r@ + undoubled(s@.skip(i + 2), c) =~= before + undoubled(rest, c));
            i += 2;
        } else {
            r.push(s[i]);
            assert(rest.skip(1) =~= s@.skip(i + 1));
            assert(r@ + undoubled(s@.skip(i + 1), c) =~= before + undoubled(rest, c));
            i += 1;
        }
    }
    assert(s@.skip(i as int) =~= seq![]);
    assert(r@ + undoubled(s@.skip(i as int), c) =~= r@);
    r
}

/// Whether a text starts and ends with a quotation mark.
pub open spec fn is_quoted(s: Seq<char>, mark: char) -> bool {
    s.len() >= 2 && s[0] == mark && s.last() == mark
}

/// What stands between quotation marks, with pairs of them made single.
pub open spec fn between_quotes(s: Seq<char>, mark: char) -> Seq<char> {
    undoubled(s.subrange(1, s.len() - 1), mark)
}

/// A text between quotation marks, with each of them inside it made a pair.
pub open spec fn quoted(s: Seq<char>, mark: char) -> Seq<char> {
    seq![mark] + doubled(s, mark) + seq![mark]
}

/// Quoting a text and taking it out of its quotes gives the text back.
pub proof fn quotes_come_off(s: Seq<char>, mark: char)
    ensures
        is_quoted(quoted(s, mark), mark),
        between_quotes(quoted(s, mark), mark) == s,
{
    let q = quoted(s, mark);
    assert(q.subrange(1, q.len() - 1) =~= doubled(s, mark));
    undoubling_undoes_doubling(s, mark);
}

fn has_quotes(s: &Vec<char>, mark: char) -> (r: bool)
    ensures
        r == is_quoted(s@, mark),
{
    s.len() >= 2 && s[0] == mark && s[s.len() - 1] == mark
}

fn take_quotes_off(s: &Vec<char>, mark: char) -> (r: Vec<char>)
    requires
        is_quoted(s@, mark),
    ensures
        r@ == between_quotes(s@, mark),
{
    let inner = text::slice_of(s, 1, s.len() - 1);
    undouble(&inner, mark)
}

/// The name that an identifier stands for: as it is between double quotes, in
/// lower case otherwise.
pub open spec fn name_of(s: Seq<char>) -> Seq<char> {
    let trimmed = text::trim(s);
    if is_quoted(trimmed, '"') {
        between_quotes(trimmed, '"')
    } else {
        text::lower(trimmed)
    }
}

pub fn strip_identifier(s: &Vec<char>) -> (r: String)
    ensures
        r@ == name_of(s@),
{
    let trimmed = text::trim_chars(s);
    if has_quotes(&trimmed, '"') {
        text::string_of(&take_quotes_off(&trimmed, '"'))
    } else {
        text::string_of(&text::lower_chars(&trimmed))
    }
}

proof fn lemma_trim_keeps(s: Seq<char>)
    requires
        s.len() > 0,
        !text::is_space(s[0]),
        !text::is_space(s.last()),
    ensures
        text::trim(s) == s,
{
}

/// Any name can be written as an identifier: between double quotes.
pub proof fn a_quoted_name_is_kept(name: Seq<char>)
    ensures
        name_of(quoted(name, '"')) == name,
{
    quotes_come_off(name, '"');
    lemma_trim_keeps(quoted(name, '"'));
}

/// The text that a string literal stands for.
pub open spec fn string_of_literal(s: Seq<char>) -> Option<Seq<char>> {
    if is_quoted(s, '\'') {
        Some(between_quotes(s, '\''))
    } else {
        None
    }
}

pub fn unquote_string(s: &Vec<char>) -> (r: Option<String>)
    ensures
        search::option_view(r) == string_of_literal(s@),
{
    if has_quotes(s, '\'') {
        Some(text::string_of(&take_quotes_off(s, '\'')))
    } else {
        None
    }
}

/// The parenthesis that closes the one that `depth` others are open behind,
/// looked for from `i` on. Parentheses inside strings do not count.
pub open spec fn closing(s: Seq<char>, i: int, depth: nat, in_string: bool) -> Option<int>
    decreases s.len() - i,
{
    if i < 0 || i >= s.len() {
        None
    } else if in_string {
        if s[i] != '\'' {
            closing(s, i + 1, depth, true)
        } else if i + 1 < s.len() && s[i + 1] == '\'' {
            closing(s, i + 2, depth, true)
        } else {
            closing(s, i + 1, depth, false)
        }
    } else if s[i] == '\'' {
        closing(s, i + 1, depth, true)
    } else if s[i] == '(' {
        closing(s, i + 1, depth + 1, false)
    } else if s[i] == ')' {
        if depth == 0 {
            None
        } else if depth == 1 {
            Some(i)
        } else {
            closing(s, i + 1, (depth - 1) as nat, false)
        }
    } else {
        closing(s, i + 1, depth, false)
    }
}

/// The parenthesis that closes the one at `open`.
pub open spec fn matching_paren(s: Seq<char>, open: int) -> Option<int> {
    closing(s, open, 0, false)
}

pub fn find_matching_paren(s: &Vec<char>, open: usize) -> (r: Option<usize>)
    ensures
        match r {
            Some(i) => matching_paren(s@, open as int) == Some(i as int) && open <= i < s.len()
                && s@[i as int] == ')',
            None => matching_paren(s@, open as int) is None,
        },
{
    if open >= s.len() {
        return None;
    }
    let mut depth: usize = 0;
    let mut in_string = false;
    let mut i: usize = open;
    while i < s.len()
        invariant
            open <= i <= s.len(),
            depth <= i,
            matching_paren(s@, open as int) == closing(s@, i as int, depth as nat, in_string),
        decreases s.len() - i,
    {
        let c = s[i];
        if in_string {
            if c == '\'' {
                if s.len() - i > 1 && s[i + 1] == '\'' {
                    i += 1;
                } else {
                    in_string = false;
                }
            }
        } else if c == '\'' {
            in_string = true;
        } else if c == '(' {
            depth += 1;
        } else if c == ')' {
            if depth == 0 {
                return None;
            }
            depth -= 1;
            if depth == 0 {
                return Some(i);
            }
        }
        i += 1;
    }
    None
}

/// A part of a list, without the space around it, unless nothing is left.
pub open spec fn part_of(s: Seq<char>) -> Seq<Seq<char>> {
    let trimmed = text::trim(s);
    if trimmed.len() == 0 {
        seq![]
    } else {
        seq![trimmed]
    }
}

/// The parts of a list from the one that starts at `start` on, where the text
/// from there to `i` holds no comma that parts the list. Commas inside
/// parentheses and strings do not.
pub open spec fn parts_from(
    s: Seq<char>,
    start: int,
    i: int,
    depth: nat,
    in_string: bool,
) -> Seq<Seq<char>>
    decreases s.len() - i,
{
    if i < 0 || i >= s.len() {
        part_of(s.subrange(start, s.len() as int))
    } else if in_string {
        if s[i] != '\'' {
            parts_from(s, start, i + 1, depth, true)
        } else if i + 1 < s.len() && s[i + 1] == '\'' {
            parts_from(s, start, i + 2, depth, true)
        } else {
            parts_from(s, start, i + 1, depth, false)
        }
    } else if s[i] == '\'' {
        parts_from(s, start, i + 1, depth, true)
    } else if s[i] == '(' {
        parts_from(s, start, i + 1, depth + 1, false)
    } else if s[i] == ')' {
        parts_from(
            s,
            start,
            i + 1,
            if depth > 0 {
                (depth - 1) as nat
            } else {
                0
            },
            false,
        )
    } else if s[i] == ',' && depth == 0 {
        part_of(s.subrange(start, i)) + parts_from(s, i + 1, i + 1, depth, false)
    } else {
        parts_from(s, start, i + 1, depth, false)
    }
}

/// The parts of a list that commas part.
pub open spec fn list_parts(s: Seq<char>) -> Seq<Seq<char>> {
    parts_from(s, 0, 0, 0, false)
}

fn add_part(parts: &mut Vec<Vec<char>>, s: &Vec<char>, start: usize, end: usize)
    requires
        start <= end <= s.len(),
    ensures
        text::all_chars(final(parts)@) == text::all_chars(old(parts)@) + part_of(
            s@.subrange(start as int, end as int),
        ),
{
    let part = text::trim_chars(&text::slice_of(s, start, end));
    let ghost before = parts@;
    if part.len() > 0 {
        let ghost told = part@;
        parts.push(part);
        assert(text::all_chars(parts@) =~= text::all_chars(before) + seq![told]);
    } else {
        assert(text::all_chars(parts@) =~= text::all_chars(before) + Seq::<Seq<char>>::empty());
    }
}

pub fn split_top_level_commas(s: &Vec<char>) -> (r: Vec<Vec<char>>)
    ensures
        text::all_chars(r@) == list_parts(s@),
{
    let mut parts: Vec<Vec<char>> = Vec::new();
    let mut start: usize = 0;
    let mut depth: usize = 0;
    let mut in_string = false;
    let mut i: usize = 0;
    assert(text::all_chars(parts@) + list_parts(s@) =~= list_parts(s@));
    while i < s.len()
        invariant
            start <= i <= s.len(),
            depth <= i,
            text::all_chars(parts@) + parts_from(
                s@,
                start as int,
                i as int,
                depth as nat,
                in_string,
            ) == list_parts(s@),
        decreases s.len() - i,
    {
        let c = s[i];
        if in_string {
            if c == '\'' {
                if s.len() - i > 1 && s[i + 1] == '\'' {
                    i += 1;
                } else {
                    in_string = false;
                }
            }
        } else if c == '\'' {
            in_string = true;
        } else if c == '(' {
            depth += 1;
        } else if c == ')' {
            if depth > 0 {
                depth -= 1;
            }
        } else if c == ',' && depth == 0 {
            let ghost before = text::all_chars(parts@);
            let ghost rest = parts_from(s@, i + 1, i + 1, 0, false);
            add_part(&mut parts, s, start, i);
            assert(text::all_chars(parts@) + rest =~= before + (part_of(
                s@.subrange(start as int, i as int),
            ) + rest));
            start = i + 1;
        }
        i += 1;
    }
    add_part(&mut parts, s, start, s.len());
    parts
}

} // verus!
