//! What the build files tell: lists of files, and the version.

use vstd::prelude::*;

use crate::bootstrap::lines;
use crate::bootstrap::lines::{find_char, find_text, split_lines};
use crate::search;
use crate::text;

verus! {

/// What stands between the first two apostrophes of a text.
pub open spec fn quoted(s: Seq<char>) -> Option<Seq<char>> {
    match lines::first_place(s, '\'') {
        Some(start) => {
            let rest = s.skip(start + 1);
            match lines::first_place(rest, '\'') {
                Some(end) => Some(rest.take(end)),
                None => None,
            }
        },
        None => None,
    }
}

pub fn quoted_value(s: &Vec<char>) -> (r: Option<Vec<char>>)
    ensures
        search::option_view(r) == quoted(s@),
{
    let total = s.len();
    match find_char(s, '\'') {
        Some(start) => {
            let rest = text::slice_of(s, start + 1, total);
            assert(rest@ =~= s@.skip(start + 1));
            match find_char(&rest, '\'') {
                Some(end) => {
                    let inner = text::slice_of(&rest, 0, end);
                    assert(inner@ =~= rest@.take(end as int));
                    Some(inner)
                },
                None => None,
            }
        },
        None => None,
    }
}

/// The texts between apostrophes in some lines, up to the one that begins with a
/// closing bracket.
pub open spec fn listed(all: Seq<Seq<char>>) -> Seq<Seq<char>>
    decreases all.len(),
{
    if all.len() == 0 || (all[0].len() > 0 && all[0][0] == ']') {
        seq![]
    } else {
        match quoted(all[0]) {
            Some(value) => seq![value] + listed(all.drop_first()),
            None => listed(all.drop_first()),
        }
    }
}

/// The list that a file gives a name, if it gives it one.
pub open spec fn list_named(contents: Seq<char>, name: Seq<char>) -> Option<Seq<Seq<char>>> {
    let head = name + " = ["@;
    match lines::place_of(contents, head) {
        Some(i) => Some(listed(lines::trimmed_lines(contents.skip(i + head.len())))),
        None => None,
    }
}

/// Reads the list that a file gives a name, if it gives it one.
pub fn parse_meson_string_list(contents: &str, name: &str) -> (r: Option<Vec<String>>)
    ensures
        match r {
            Some(list) => list_named(contents@, name@) == Some(search::views(list@)),
            None => list_named(contents@, name@) is None,
        },
{
    let chars = text::chars_of(contents);
    let mut head = text::chars_of(name);
    text::push_text(&mut head, " = [");
    let start = match find_text(&chars, &head) {
        Some(start) => start,
        None => return None,
    };
    let total = chars.len();
    let rest = text::slice_of(&chars, start + head.len(), total);
    assert(rest@ =~= contents@.skip(start + head@.len()));
    let found = split_lines(&rest);
    let ghost all = search::views(found@);
    let mut list: Vec<String> = Vec::new();
    let mut i: usize = 0;
    assert(all.skip(0) =~= all);
    assert(search::views(list@) =~= seq![]);
    assert(Seq::<Seq<char>>::empty() + listed(all) =~= listed(all));
    while i < found.len() && !(found[i].len() > 0 && found[i][0] == ']')
        invariant
            i <= found.len(),
            all == search::views(found@),
            listed(all) == search::views(list@) + listed(all.skip(i as int)),
        decreases found.len() - i,
    {
        assert(all[i as int] == found@[i as int]@);
        assert(all.skip(i as int)[0] == all[i as int]);
        assert(all.skip(i as int).drop_first() =~= all.skip(i + 1));
        match quoted_value(&found[i]) {
            Some(value) => {
                let ghost before = search::views(list@);
                let ghost behind = listed(all.skip(i + 1));
                list.push(text::string_of(&value));
                assert(search::views(list@) =~= before.push(value@));
                assert(before + (seq![value@] + behind) =~= before.push(value@) + behind);
            },
            None => {},
        }
        i += 1;
    }
    assert(all.len() == found@.len());
    if i < found.len() {
        assert(all.skip(i as int)[0] == found@[i as int]@);
    }
    assert(listed(all.skip(i as int)) =~= seq![]);
    assert(search::views(list@) + Seq::<Seq<char>>::empty() =~= search::views(list@));
    Some(list)
}

/// The digits that a text begins with.
pub open spec fn leading_digits(s: Seq<char>) -> Seq<char>
    decreases s.len(),
{
    if s.len() > 0 && text::is_digit(s[0]) {
        seq![s[0]] + leading_digits(s.drop_first())
    } else {
        seq![]
    }
}

/// The major version that a file declares, if it declares one.
pub open spec fn major_version(contents: Seq<char>) -> Option<Seq<char>> {
    let mark = "version: '"@;
    match lines::place_of(contents, mark) {
        Some(i) => {
            let digits = leading_digits(contents.skip(i + mark.len()));
            if digits.len() > 0 {
                Some(digits)
            } else {
                None
            }
        },
        None => None,
    }
}

/// Reads the major version that a file declares, if it declares one.
pub fn parse_major_version(contents: &str) -> (r: Option<String>)
    ensures
        search::option_view(r) == major_version(contents@),
{
    let chars = text::chars_of(contents);
    let mark = text::chars_of("version: '");
    let total = chars.len();
    let start = match find_text(&chars, &mark) {
        Some(start) => start + mark.len(),
        None => return None,
    };
    let ghost rest = contents@.skip(start as int);
    let mut digits: Vec<char> = Vec::new();
    let mut i: usize = start;
    assert(digits@ + leading_digits(rest) =~= leading_digits(rest));
    while i < chars.len() && '0' <= chars[i] && chars[i] <= '9'
        invariant
            start <= i <= chars.len(),
            chars@ == contents@,
            rest == contents@.skip(start as int),
            leading_digits(rest) == digits@ + leading_digits(contents@.skip(i as int)),
        decreases chars.len() - i,
    {
        let ghost here = contents@.skip(i as int);
        let ghost before = digits@;
        assert(here[0] == chars@[i as int]);
        assert(here.drop_first() =~= contents@.skip(i + 1));
        digits.push(chars[i]);
        assert(before + (seq![here[0]] + leading_digits(here.drop_first())) =~= digits@
            + leading_digits(here.drop_first()));
        i += 1;
    }
    if i < chars.len() {
        assert(contents@.skip(i as int)[0] == chars@[i as int]);
    }
    assert(leading_digits(contents@.skip(i as int)) =~= seq![]);
    assert(digits@ + Seq::<char>::empty() =~= digits@);
    if digits.len() > 0 {
        Some(text::string_of(&digits))
    } else {
        None
    }
}

} // verus!
