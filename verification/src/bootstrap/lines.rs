//! Lines, and places in texts.

use vstd::prelude::*;

use crate::search;
use crate::text;

verus! {

/// What a scan for lines has found: the lines that are complete, and the
/// characters of the line that it stands in.
pub struct LineScan {
    pub lines: Seq<Seq<char>>,
    pub current: Seq<char>,
}

/// The scan for lines, over the whole of `s`.
pub open spec fn scan_lines(s: Seq<char>) -> LineScan
    decreases s.len(),
{
    if s.len() == 0 {
        LineScan { lines: seq![], current: seq![] }
    } else {
        let before = scan_lines(s.drop_last());
        if s.last() == '\n' {
            LineScan { lines: before.lines.push(text::trim(before.current)), current: seq![] }
        } else {
            LineScan { lines: before.lines, current: before.current.push(s.last()) }
        }
    }
}

/// The lines of a text without the space around them. What follows the last line
/// feed is a line if it is not empty.
pub open spec fn trimmed_lines(s: Seq<char>) -> Seq<Seq<char>> {
    let scan = scan_lines(s);
    if scan.current.len() > 0 {
        scan.lines.push(text::trim(scan.current))
    } else {
        scan.lines
    }
}

pub fn split_lines(s: &Vec<char>) -> (r: Vec<Vec<char>>)
    ensures
        search::views(r@) == trimmed_lines(s@),
{
    let mut found: Vec<Vec<char>> = Vec::new();
    let mut current: Vec<char> = Vec::new();
    let mut i: usize = 0;
    assert(search::views(found@) =~= seq![]);
    assert(s@.take(0) =~= seq![]);
    while i < s.len()
        invariant
            i <= s.len(),
            search::views(found@) == scan_lines(s@.take(i as int)).lines,
            current@ == scan_lines(s@.take(i as int)).current,
        decreases s.len() - i,
    {
        assert(s@.take(i + 1).drop_last() =~= s@.take(i as int));
        let c = s[i];
        if c == '\n' {
            let line = text::trim_chars(&current);
            let ghost before = found@;
            found.push(line);
            assert(search::views(found@) =~= search::views(before).push(line@));
            current = Vec::new();
        } else {
            current.push(c);
        }
        i += 1;
    }
    assert(s@.take(i as int) =~= s@);
    if current.len() > 0 {
        let line = text::trim_chars(&current);
        let ghost before = found@;
        found.push(line);
        assert(search::views(found@) =~= search::views(before).push(line@));
    }
    found
}

/// Whether a text stands at a place in another.
pub open spec fn stands_at(s: Seq<char>, part: Seq<char>, i: int) -> bool {
    0 <= i && i + part.len() <= s.len() && s.subrange(i, i + part.len()) == part
}

/// Where a text stands in another first.
pub open spec fn place_of(s: Seq<char>, part: Seq<char>) -> Option<int> {
    if exists|i: int| stands_at(s, part, i) {
        Some(
            choose|i: int|
                stands_at(s, part, i) && forall|j: int| 0 <= j < i ==> !stands_at(s, part, j),
        )
    } else {
        None
    }
}

/// The place that a text stands at, if it stands at none before it, is the one
/// where it stands first.
pub proof fn first_place_is_found(s: Seq<char>, part: Seq<char>, i: int)
    requires
        stands_at(s, part, i),
        forall|j: int| 0 <= j < i ==> !stands_at(s, part, j),
    ensures
        place_of(s, part) == Some(i),
{
    let found = place_of(s, part)->0;
    assert(stands_at(s, part, found) && forall|j: int|
        0 <= j < found ==> !stands_at(s, part, j));
    if found < i {
        assert(!stands_at(s, part, found));
    }
    if i < found {
        assert(!stands_at(s, part, i));
    }
}

pub fn find_text(s: &Vec<char>, part: &Vec<char>) -> (r: Option<usize>)
    ensures
        match r {
            Some(i) => place_of(s@, part@) == Some(i as int) && i + part@.len() <= s@.len(),
            None => place_of(s@, part@) is None,
        },
{
    if part.len() > s.len() {
        return None;
    }
    let total = s.len();
    let width = part.len();
    let last = total - width;
    let mut i: usize = 0;
    loop
        invariant
            i <= last,
            total == s@.len(),
            width == part@.len(),
            last + width == total,
            forall|j: int| 0 <= j < i ==> !stands_at(s@, part@, j),
        decreases last - i,
    {
        let piece = text::slice_of(s, i, i + width);
        if text::same_chars(&piece, part) {
            proof {
                assert(stands_at(s@, part@, i as int));
                first_place_is_found(s@, part@, i as int);
            }
            return Some(i);
        }
        assert(!stands_at(s@, part@, i as int));
        if i == last {
            assert forall|j: int| !stands_at(s@, part@, j) by {}
            return None;
        }
        i += 1;
    }
}

pub open spec fn is_char(c: char) -> spec_fn(char) -> bool {
    |x: char| x == c
}

/// Where a character stands first.
pub open spec fn first_place(s: Seq<char>, c: char) -> Option<int> {
    search::first_index(s, is_char(c))
}

pub fn find_char(s: &Vec<char>, c: char) -> (r: Option<usize>)
    ensures
        match r {
            Some(i) => first_place(s@, c) == Some(i as int) && i < s@.len() && s@[i as int] == c,
            None => first_place(s@, c) is None,
        },
{
    let mut i: usize = 0;
    while i < s.len()
        invariant
            i <= s.len(),
            forall|j: int| 0 <= j < i ==> #[trigger] s@[j] != c,
        decreases s.len() - i,
    {
        if s[i] == c {
            proof {
                search::first_index_at(s@, is_char(c), i as int);
            }
            return Some(i);
        }
        i += 1;
    }
    proof {
        search::first_index_none(s@, is_char(c));
    }
    None
}

/// Where a character stands last.
pub open spec fn last_place(s: Seq<char>, c: char) -> Option<int>
    decreases s.len(),
{
    if s.len() == 0 {
        None
    } else if s.last() == c {
        Some(s.len() - 1)
    } else {
        last_place(s.drop_last(), c)
    }
}

pub fn find_last_char(s: &Vec<char>, c: char) -> (r: Option<usize>)
    ensures
        match r {
            Some(i) => last_place(s@, c) == Some(i as int) && i < s@.len() && s@[i as int] == c,
            None => last_place(s@, c) is None,
        },
{
    let mut i: usize = s.len();
    assert(s@.take(i as int) =~= s@);
    while i > 0
        invariant
            i <= s.len(),
            last_place(s@, c) == last_place(s@.take(i as int), c),
        decreases i,
    {
        assert(s@.take(i as int).drop_last() =~= s@.take(i - 1));
        assert(s@.take(i as int).last() == s@[i - 1]);
        if s[i - 1] == c {
            return Some(i - 1);
        }
        i -= 1;
    }
    None
}

/// A text without a character wherever it begins with it.
pub open spec fn without_leading(s: Seq<char>, c: char) -> Seq<char>
    decreases s.len(),
{
    if s.len() > 0 && s[0] == c {
        without_leading(s.drop_first(), c)
    } else {
        s
    }
}

/// A text without a character wherever it ends with it.
pub open spec fn without_trailing(s: Seq<char>, c: char) -> Seq<char>
    decreases s.len(),
{
    if s.len() > 0 && s.last() == c {
        without_trailing(s.drop_last(), c)
    } else {
        s
    }
}

pub fn cut_leading(s: &Vec<char>, c: char) -> (r: Vec<char>)
    ensures
        r@ == without_leading(s@, c),
{
    let mut i: usize = 0;
    assert(s@.skip(0) =~= s@);
    while i < s.len() && s[i] == c
        invariant
            i <= s.len(),
            without_leading(s@, c) == without_leading(s@.skip(i as int), c),
        decreases s.len() - i,
    {
        assert(s@.skip(i as int).drop_first() =~= s@.skip(i + 1));
        i += 1;
    }
    assert(s@.subrange(i as int, s@.len() as int) =~= s@.skip(i as int));
    text::slice_of(s, i, s.len())
}

pub fn cut_trailing(s: &Vec<char>, c: char) -> (r: Vec<char>)
    ensures
        r@ == without_trailing(s@, c),
{
    let mut i: usize = s.len();
    assert(s@.take(i as int) =~= s@);
    while i > 0 && s[i - 1] == c
        invariant
            i <= s.len(),
            without_trailing(s@, c) == without_trailing(s@.take(i as int), c),
        decreases i,
    {
        assert(s@.take(i as int).drop_last() =~= s@.take(i - 1));
        i -= 1;
    }
    assert(s@.subrange(0, i as int) =~= s@.take(i as int));
    text::slice_of(s, 0, i)
}

} // verus!
