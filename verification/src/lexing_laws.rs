//! Keywords, names, parentheses and lists that are written to a text are found in
//! it again.

use vstd::prelude::*;

use crate::bootstrap::bki_laws;
use crate::lexing;
use crate::parser;
use crate::search;
use crate::text;
use crate::text_laws;

verus! {

/// Whether a character is one of a name that needs no quotes.
pub open spec fn is_name_char(c: char) -> bool {
    'a' <= c <= 'z' || 'A' <= c <= 'Z' || '0' <= c <= '9' || c == '_'
}

/// Whether a text is a name that needs no quotes.
pub open spec fn is_plain(s: Seq<char>) -> bool {
    s.len() > 0 && forall|i: int| 0 <= i < s.len() ==> is_name_char(#[trigger] s[i])
}

pub(crate) proof fn lemma_plain(s: Seq<char>)
    requires
        is_plain(s),
    ensures
        bki_laws::is_word(s),
        text_laws::is_trimmed(s),
{
    assert forall|i: int| 0 <= i < s.len() implies !text::is_space(#[trigger] s[i]) by {
        assert(is_name_char(s[i]));
    }
}

/// A name without quotes is read in lower case, without the space around it.
pub proof fn a_plain_name_is_folded(before: Seq<char>, s: Seq<char>, after: Seq<char>)
    requires
        is_plain(s),
        parser::is_blank(before),
        parser::is_blank(after),
    ensures
        lexing::name_of(before + s + after) == text::lower(s),
{
    lemma_plain(s);
    text_laws::trimming_takes_off_the_space(before, s, after);
    assert(is_name_char(s[0]));
}

pub(crate) proof fn lemma_find_char(a: Seq<char>, c: char, b: Seq<char>)
    requires
        !a.contains(c),
    ensures
        parser::around_char(a + seq![c] + b, c) == Some((a, b)),
        lexing::find_char(a + seq![c] + b, c) == Some(a.len() as int),
{
    let s = a + seq![c] + b;
    let n = a.len() as int;
    assert forall|j: int| 0 <= j < n implies !lexing::is_char(c)(#[trigger] s[j]) by {
        assert(a.contains(a[j]));
        assert(s[j] == a[j]);
    }
    search::first_index_at(s, lexing::is_char(c), n);
    assert(s.take(n) =~= a);
    assert(s.skip(n + 1) =~= b);
}

proof fn lemma_keyword_shift(a: Seq<char>, b: Seq<char>, keyword: Seq<char>, i: int)
    requires
        0 <= i,
    ensures
        lexing::keyword_from(a + b, keyword, a.len() + i) == match lexing::keyword_from(
            b,
            keyword,
            i,
        ) {
            Some(k) => Some(a.len() + k),
            None => None,
        },
    decreases b.len() + 1 - i,
{
    let s = a + b;
    if i + keyword.len() <= b.len() {
        assert(s.subrange(a.len() + i, a.len() + i + keyword.len()) =~= b.subrange(
            i,
            i + keyword.len(),
        ));
        if !lexing::keyword_at(b, keyword, i) {
            lemma_keyword_shift(a, b, keyword, i + 1);
        }
    }
}

/// Where no keyword stands at a number of places, it is looked for behind them.
pub(crate) proof fn lemma_keyword_skip(s: Seq<char>, keyword: Seq<char>, i: int, n: int)
    requires
        0 <= i <= n,
        n + keyword.len() <= s.len(),
        forall|k: int| i <= k < n ==> !#[trigger] lexing::keyword_at(s, keyword, k),
    ensures
        lexing::keyword_from(s, keyword, i) == lexing::keyword_from(s, keyword, n),
    decreases n - i,
{
    if i < n {
        assert(!lexing::keyword_at(s, keyword, i));
        lemma_keyword_skip(s, keyword, i + 1, n);
    }
}

/// A word with a space on either side.
pub open spec fn spaced(word: Seq<char>) -> Seq<char> {
    seq![' '] + word + seq![' ']
}

/// A keyword with a space on either side is found behind words with single spaces
/// between them, none of which, but for the first, is the keyword itself. It parts
/// them from what stands behind it.
pub proof fn the_first_keyword_parts_the_text(
    list: Seq<Seq<char>>,
    written: Seq<char>,
    tail: Seq<char>,
    word: Seq<char>,
)
    requires
        list.len() > 0,
        text_laws::are_words(list),
        bki_laws::is_word(word),
        text::lower(written) == text::lower(word),
        forall|k: int| 0 < k < list.len() ==> text::lower(#[trigger] list[k]) != text::lower(word),
    ensures
        parser::around_keyword(text::joined(list, " "@) + spaced(written) + tail, spaced(word))
            == Some((text::joined(list, " "@), tail)),
{
    let before = text::joined(list, " "@);
    let s = before + spaced(written) + tail;
    lemma_keyword_place(list, written, tail, word);
    assert(text::lower(written).len() == written.len());
    assert(text::lower(word).len() == word.len());
    assert(s.take(before.len() as int) =~= before);
    assert(s.skip((before.len() + spaced(word).len()) as int) =~= tail);
}

proof fn lemma_keyword_place(
    list: Seq<Seq<char>>,
    written: Seq<char>,
    tail: Seq<char>,
    word: Seq<char>,
)
    requires
        list.len() > 0,
        text_laws::are_words(list),
        bki_laws::is_word(word),
        text::lower(written) == text::lower(word),
        forall|k: int| 0 < k < list.len() ==> text::lower(#[trigger] list[k]) != text::lower(word),
    ensures
        lexing::find_keyword(
            text::joined(list, " "@) + spaced(written) + tail,
            spaced(word),
        ) == Some(text::joined(list, " "@).len() as int),
    decreases list.len(),
{
    reveal_strlit(" ");
    let before = text::joined(list, " "@);
    let s = before + spaced(written) + tail;
    let keyword = spaced(word);
    let first = list[0];
    let n = first.len() as int;
    assert(bki_laws::is_word(first));
    assert(text::lower(written).len() == written.len());
    assert(text::lower(word).len() == word.len());
    let rest = list.skip(1);
    let inner = text::joined(rest, " "@) + spaced(written) + tail;
    if list.len() > 1 {
        text_laws::lemma_joined_first(list, " "@);
        assert(s =~= (first + seq![' ']) + inner);
    } else {
        assert(before == first);
    }
    assert forall|k: int| 0 <= k < n implies !#[trigger] lexing::keyword_at(s, keyword, k) by {
        if lexing::keyword_at(s, keyword, k) {
            let here = s.subrange(k, k + keyword.len());
            assert(text::lower(here)[0] == text::lower(keyword)[0]);
            assert(s[k] == first[k]);
            assert(!text::is_space(first[k]));
            parser::lemma_lower_char(first[k]);
            assert(text::lower_char(first[k]) == ' ');
        }
    }
    lemma_keyword_skip(s, keyword, 0, n);
    if list.len() == 1 {
        assert(s.subrange(n, n + keyword.len()) =~= spaced(written));
        assert(text::lower(spaced(written)) =~= seq![' '] + text::lower(written) + seq![' ']);
        assert(text::lower(keyword) =~= seq![' '] + text::lower(word) + seq![' ']);
        assert(lexing::keyword_at(s, keyword, n));
    } else {
        let second = list[1];
        assert(bki_laws::is_word(second));
        assert(n + spaced(second).len() <= s.len() && s.subrange(n, n + spaced(second).len())
            =~= spaced(second)) by {
            if list.len() > 2 {
                text_laws::lemma_joined_first(rest, " "@);
            } else {
                assert(text::joined(rest, " "@) == second);
            }
        }
        if lexing::keyword_at(s, keyword, n) {
            lemma_same_word(s, n, second, word);
            assert(text::lower(list[1]) == text::lower(word));
        }
        assert forall|k: int| 0 <= k < rest.len() implies bki_laws::is_word(#[trigger] rest[k]) by {
            assert(rest[k] == list[k + 1]);
        }
        assert forall|k: int| 0 < k < rest.len() implies text::lower(#[trigger] rest[k])
            != text::lower(word) by {
            assert(rest[k] == list[k + 1]);
        }
        lemma_keyword_place(rest, written, tail, word);
        lemma_keyword_shift(first + seq![' '], inner, keyword, 0);
    }
}

/// A keyword that stands where a word does is that word.
proof fn lemma_same_word(s: Seq<char>, n: int, second: Seq<char>, word: Seq<char>)
    requires
        0 <= n,
        n + spaced(second).len() <= s.len(),
        s.subrange(n, n + spaced(second).len()) == spaced(second),
        bki_laws::is_word(second),
        bki_laws::is_word(word),
        lexing::keyword_at(s, spaced(word), n),
    ensures
        text::lower(second) == text::lower(word),
{
    let keyword = spaced(word);
    let here = s.subrange(n, n + keyword.len());
    let there = s.subrange(n, n + spaced(second).len());
    assert(text::lower(here) == text::lower(keyword));
    assert forall|k: int| 0 <= k < keyword.len() implies text::lower_char(#[trigger] s[n + k])
        == text::lower_char(keyword[k]) by {
        assert(text::lower(here)[k] == text::lower(keyword)[k]);
    }
    assert forall|k: int| 0 <= k < spaced(second).len() implies #[trigger] s[n + k] == spaced(
        second,
    )[k] by {
        assert(there[k] == s[n + k]);
    }
    if second.len() < word.len() {
        let k = second.len() as int;
        assert(s[n + (k + 1)] == ' ');
        assert(keyword[k + 1] == word[k]);
        assert(!text::is_space(word[k]));
        parser::lemma_lower_char(word[k]);
        assert(text::lower_char(s[n + (k + 1)]) == text::lower_char(keyword[k + 1]));
    } else if word.len() < second.len() {
        let k = word.len() as int;
        assert(s[n + (k + 1)] == second[k]);
        assert(keyword[k + 1] == ' ');
        assert(!text::is_space(second[k]));
        parser::lemma_lower_char(second[k]);
        assert(text::lower_char(s[n + (k + 1)]) == text::lower_char(keyword[k + 1]));
    } else {
        assert forall|k: int| 0 <= k < word.len() implies text::lower(second)[k] == text::lower(
            word,
        )[k] by {
            assert(s[n + (k + 1)] == second[k]);
            assert(text::lower_char(s[n + (k + 1)]) == text::lower_char(keyword[k + 1]));
        }
        assert(text::lower(second) =~= text::lower(word));
    }
}

pub(crate) proof fn lemma_no_prefix(s: Seq<char>, prefix: Seq<char>, i: int)
    requires
        0 <= i < prefix.len(),
        i >= s.len() || text::lower_char(s[i]) != text::lower_char(prefix[i]),
    ensures
        lexing::after_prefix(s, prefix) is None,
{
    if prefix.len() <= s.len() && text::lower(s.take(prefix.len() as int)) == text::lower(prefix) {
        assert(text::lower(s.take(prefix.len() as int))[i] == text::lower(prefix)[i]);
    }
}

pub(crate) proof fn lemma_prefix(prefix: Seq<char>, rest: Seq<char>)
    ensures
        lexing::after_prefix(prefix + rest, prefix) == Some(rest),
{
    assert((prefix + rest).take(prefix.len() as int) =~= prefix);
    assert((prefix + rest).skip(prefix.len() as int) =~= rest);
}

/// A piece of a text: a run without parentheses and quotes, a string between
/// quotes, or such a run between parentheses.
pub enum Piece {
    Bare(Seq<char>),
    Quoted(Seq<char>),
    Group(Seq<char>),
}

pub open spec fn is_simple(s: Seq<char>) -> bool {
    !s.contains('(') && !s.contains(')') && !s.contains('\'')
}

impl Piece {
    pub open spec fn written(self) -> Seq<char> {
        match self {
            Piece::Bare(s) => s,
            Piece::Quoted(s) => lexing::quoted(s, '\''),
            Piece::Group(s) => seq!['('] + s + seq![')'],
        }
    }

    /// Whether the piece can stand in a list, where commas part.
    pub open spec fn fits(self) -> bool {
        match self {
            Piece::Bare(s) => is_simple(s) && !s.contains(','),
            Piece::Quoted(s) => true,
            Piece::Group(s) => is_simple(s),
        }
    }
}

/// The text that pieces make.
pub open spec fn text_of(pieces: Seq<Piece>) -> Seq<char>
    decreases pieces.len(),
{
    if pieces.len() == 0 {
        seq![]
    } else {
        pieces[0].written() + text_of(pieces.skip(1))
    }
}

/// Whether pieces can make a part of a list: a text that begins and ends with
/// something else than space. Strings do not touch, as two that do are one.
pub open spec fn is_part(pieces: Seq<Piece>) -> bool {
    &&& text_laws::is_trimmed(text_of(pieces))
    &&& forall|i: int| 0 <= i < pieces.len() ==> (#[trigger] pieces[i]).fits()
    &&& forall|i: int|
        0 <= i < pieces.len() - 1 && pieces[i] is Quoted ==> text_of(
            #[trigger] pieces.skip(i + 1),
        ).len() > 0 && text_of(pieces.skip(i + 1))[0] != '\''
}

proof fn lemma_bare_parts(s: Seq<char>, start: int, i: int, n: int, depth: nat)
    requires
        0 <= i,
        0 <= n,
        i + n <= s.len(),
        is_simple(s.subrange(i, i + n)),
        depth == 0 ==> !s.subrange(i, i + n).contains(','),
    ensures
        lexing::parts_from(s, start, i, depth, false) == lexing::parts_from(
            s,
            start,
            i + n,
            depth,
            false,
        ),
        lexing::closing(s, i, depth + 1, false) == lexing::closing(s, i + n, depth + 1, false),
    decreases n,
{
    if n > 0 {
        let run = s.subrange(i, i + n);
        let rest = s.subrange(i + 1, i + n);
        assert(run[0] == s[i]);
        assert(run.contains(s[i]));
        assert forall|c: char| !run.contains(c) implies !rest.contains(c) by {
            if rest.contains(c) {
                let k = choose|k: int| 0 <= k < rest.len() && rest[k] == c;
                assert(run[k + 1] == c);
            }
        }
        lemma_bare_parts(s, start, i + 1, n - 1, depth);
    }
}

/// The same of a run in which commas do not count, for parentheses alone.
proof fn lemma_bare_closing(s: Seq<char>, i: int, n: int, depth: nat)
    requires
        0 <= i,
        0 <= n,
        i + n <= s.len(),
        is_simple(s.subrange(i, i + n)),
    ensures
        lexing::closing(s, i, depth, false) == lexing::closing(s, i + n, depth, false),
    decreases n,
{
    if n > 0 {
        let run = s.subrange(i, i + n);
        let rest = s.subrange(i + 1, i + n);
        assert(run[0] == s[i]);
        assert(run.contains(s[i]));
        assert forall|c: char| !run.contains(c) implies !rest.contains(c) by {
            if rest.contains(c) {
                let k = choose|k: int| 0 <= k < rest.len() && rest[k] == c;
                assert(run[k + 1] == c);
            }
        }
        lemma_bare_closing(s, i + 1, n - 1, depth);
    }
}

proof fn lemma_string_parts(s: Seq<char>, start: int, i: int, rest: Seq<char>, depth: nat)
    requires
        0 <= i,
        i + lexing::doubled(rest, '\'').len() < s.len(),
        s.subrange(i, i + lexing::doubled(rest, '\'').len()) == lexing::doubled(rest, '\''),
        s[i + lexing::doubled(rest, '\'').len()] == '\'',
        i + lexing::doubled(rest, '\'').len() + 1 < s.len() ==> s[i + lexing::doubled(
            rest,
            '\'',
        ).len() + 1] != '\'',
    ensures
        ({
            let next = i + lexing::doubled(rest, '\'').len() + 1;
            &&& lexing::parts_from(s, start, i, depth, true) == lexing::parts_from(
                s,
                start,
                next,
                depth,
                false,
            )
            &&& lexing::closing(s, i, depth, true) == lexing::closing(s, next, depth, false)
        }),
    decreases rest.len(),
{
    let written = lexing::doubled(rest, '\'');
    if rest.len() > 0 {
        let others = rest.skip(1);
        let more = lexing::doubled(others, '\'');
        let n: int = if rest[0] == '\'' {
            2
        } else {
            1
        };
        assert(written.len() == n + more.len());
        assert(s[i] == s.subrange(i, i + written.len())[0]);
        assert(s[i] == rest[0]);
        if n == 2 {
            assert(s[i + 1] == s.subrange(i, i + written.len())[1]);
        }
        assert(s.subrange(i + n, i + n + more.len()) =~= more) by {
            assert forall|k: int| 0 <= k < more.len() implies s[i + n + k] == more[k] by {
                assert(s.subrange(i, i + written.len())[n + k] == written[n + k]);
            }
        }
        lemma_string_parts(s, start, i + n, others, depth);
    }
}

proof fn lemma_piece(s: Seq<char>, start: int, i: int, piece: Piece)
    requires
        0 <= i,
        i + piece.written().len() <= s.len(),
        s.subrange(i, i + piece.written().len()) == piece.written(),
        piece.fits(),
        piece is Quoted && i + piece.written().len() < s.len() ==> s[i + piece.written().len()]
            != '\'',
    ensures
        ({
            let next = i + piece.written().len();
            &&& lexing::parts_from(s, start, i, 0, false) == lexing::parts_from(
                s,
                start,
                next,
                0,
                false,
            )
            &&& lexing::closing(s, i, 1, false) == lexing::closing(s, next, 1, false)
        }),
{
    let all = piece.written();
    let here = s.subrange(i, i + all.len());
    match piece {
        Piece::Bare(run) => {
            lemma_bare_parts(s, start, i, run.len() as int, 0);
        },
        Piece::Quoted(inner) => {
            let inside = lexing::doubled(inner, '\'');
            let n = inside.len();
            assert(all.len() == n + 2);
            assert(s[i] == here[0]);
            assert(s[i + 1 + n] == here[1 + n as int]);
            assert(s.subrange(i + 1, i + 1 + n) =~= inside) by {
                assert forall|k: int| 0 <= k < n implies s[i + 1 + k] == inside[k] by {
                    assert(here[1 + k] == all[1 + k]);
                }
            }
            lemma_string_parts(s, start, i + 1, inner, 0);
            lemma_string_parts(s, start, i + 1, inner, 1);
        },
        Piece::Group(run) => {
            let n = run.len() as int;
            assert(s[i] == here[0]);
            assert(s[i + 1 + n] == here[1 + n]);
            assert(s.subrange(i + 1, i + 1 + n) =~= run) by {
                assert forall|k: int| 0 <= k < n implies s[i + 1 + k] == run[k] by {
                    assert(here[1 + k] == all[1 + k]);
                }
            }
            lemma_bare_parts(s, start, i + 1, n, 1);
        },
    }
}

proof fn lemma_pieces(s: Seq<char>, start: int, i: int, pieces: Seq<Piece>)
    requires
        0 <= i,
        i + text_of(pieces).len() <= s.len(),
        s.subrange(i, i + text_of(pieces).len()) == text_of(pieces),
        forall|k: int| 0 <= k < pieces.len() ==> (#[trigger] pieces[k]).fits(),
        forall|k: int|
            0 <= k < pieces.len() - 1 && pieces[k] is Quoted ==> text_of(
                #[trigger] pieces.skip(k + 1),
            ).len() > 0 && text_of(pieces.skip(k + 1))[0] != '\'',
        i + text_of(pieces).len() < s.len() ==> s[i + text_of(pieces).len()] != '\'',
    ensures
        ({
            let next = i + text_of(pieces).len();
            &&& lexing::parts_from(s, start, i, 0, false) == lexing::parts_from(
                s,
                start,
                next,
                0,
                false,
            )
            &&& lexing::closing(s, i, 1, false) == lexing::closing(s, next, 1, false)
        }),
    decreases pieces.len(),
{
    if pieces.len() > 0 {
        let all = text_of(pieces);
        let first = pieces[0];
        let others = pieces.skip(1);
        let n = first.written().len() as int;
        let here = s.subrange(i, i + all.len());
        assert(first.fits());
        assert(s.subrange(i, i + n) =~= first.written()) by {
            assert forall|k: int| 0 <= k < n implies s[i + k] == first.written()[k] by {
                assert(here[k] == all[k]);
            }
        }
        assert(s.subrange(i + n, i + n + text_of(others).len()) =~= text_of(others)) by {
            assert forall|k: int| 0 <= k < text_of(others).len() implies s[i + n + k] == text_of(
                others,
            )[k] by {
                assert(here[n + k] == all[n + k]);
            }
        }
        if first is Quoted && i + n < s.len() {
            if pieces.len() > 1 {
                assert(text_of(pieces.skip(1)).len() > 0);
                assert(here[n] == all[n]);
            } else {
                assert(text_of(others).len() == 0);
            }
        }
        lemma_piece(s, start, i, first);
        assert forall|k: int| 0 <= k < others.len() implies (#[trigger] others[k]).fits() by {
            assert(others[k] == pieces[k + 1]);
        }
        assert forall|k: int| 0 <= k < others.len() - 1 && others[k] is Quoted implies text_of(
            #[trigger] others.skip(k + 1),
        ).len() > 0 && text_of(others.skip(k + 1))[0] != '\'' by {
            assert(others.skip(k + 1) =~= pieces.skip(k + 2));
            assert(others[k] == pieces[k + 1]);
            assert(text_of(pieces.skip((k + 1) + 1)).len() > 0);
        }
        lemma_pieces(s, start, i + n, others);
    }
}

/// The texts of parts.
pub open spec fn texts(parts: Seq<Seq<Piece>>) -> Seq<Seq<char>> {
    Seq::new(parts.len(), |i: int| text_of(parts[i]))
}

/// A list with a comma and a space between its parts.
pub open spec fn list_of(parts: Seq<Seq<char>>) -> Seq<char> {
    text::joined(parts, seq![',', ' '])
}

proof fn lemma_list(s: Seq<char>, i: int, parts: Seq<Seq<Piece>>)
    requires
        0 <= i,
        parts.len() > 0,
        forall|k: int| 0 <= k < parts.len() ==> is_part(#[trigger] parts[k]),
        i + list_of(texts(parts)).len() <= s.len(),
        s.subrange(i, i + list_of(texts(parts)).len()) == list_of(texts(parts)),
        i + list_of(texts(parts)).len() < s.len() ==> s[i + list_of(texts(parts)).len()] != '\'',
    ensures
        lexing::closing(s, i, 1, false) == lexing::closing(
            s,
            i + list_of(texts(parts)).len(),
            1,
            false,
        ),
        i + list_of(texts(parts)).len() == s.len() ==> lexing::parts_from(s, i, i, 0, false)
            == texts(parts),
        i + list_of(texts(parts)).len() == s.len() && i > 0 && s[i - 1] == ' '
            ==> lexing::parts_from(s, i - 1, i - 1, 0, false) == texts(parts),
    decreases parts.len(),
{
    let all = list_of(texts(parts));
    let first = parts[0];
    let others = parts.skip(1);
    let head = text_of(first);
    let n = head.len() as int;
    let here = s.subrange(i, i + all.len());
    let gap = seq![',', ' '];
    let empty = Seq::<char>::empty();
    assert(is_part(first));
    assert(texts(parts) =~= seq![head] + texts(others));
    if others.len() > 0 {
        text_laws::lemma_joined_first(texts(parts), gap);
        assert(texts(parts).skip(1) =~= texts(others));
        assert(all == head + gap + list_of(texts(others)));
    } else {
        assert(all == head);
    }
    assert(s.subrange(i, i + n) =~= head) by {
        assert forall|k: int| 0 <= k < n implies s[i + k] == head[k] by {
            assert(here[k] == all[k]);
        }
    }
    let tail = list_of(texts(others));
    if others.len() > 0 {
        assert(s[i + n] == here[n]);
        assert(s[i + n + 1] == here[n + 1]);
        assert(s.subrange(i + n + 2, i + n + 2 + tail.len()) =~= tail) by {
            assert forall|k: int| 0 <= k < tail.len() implies s[i + n + 2 + k] == tail[k] by {
                assert(here[n + 2 + k] == all[n + 2 + k]);
            }
        }
        assert forall|k: int| 0 <= k < others.len() implies is_part(#[trigger] others[k]) by {
            assert(others[k] == parts[k + 1]);
        }
        lemma_list(s, i + n + 2, others);
    }
    lemma_pieces(s, i, i, first);
    text_laws::trimming_takes_off_the_space(empty, head, empty);
    assert(empty + head + empty =~= head);
    if others.len() > 0 {
        assert(lexing::part_of(s.subrange(i, i + n)) == seq![head]);
        assert(lexing::closing(s, i + n, 1, false) == lexing::closing(s, i + n + 1, 1, false));
        assert(lexing::closing(s, i + n + 1, 1, false) == lexing::closing(s, i + n + 2, 1, false));
    } else {
        assert(texts(parts) =~= seq![head]);
    }
    if i + all.len() == s.len() && i > 0 && s[i - 1] == ' ' {
        lemma_pieces(s, i - 1, i, first);
        let wide = s.subrange(i - 1, i + n);
        assert(wide =~= seq![' '] + head + empty);
        assert(parser::is_blank(seq![' ']));
        text_laws::trimming_takes_off_the_space(seq![' '], head, empty);
        assert(lexing::parts_from(s, i - 1, i - 1, 0, false) == lexing::parts_from(
            s,
            i - 1,
            i,
            0,
            false,
        ));
        if others.len() > 0 {
            assert(lexing::part_of(wide) == seq![head]);
        } else {
            assert(s.subrange(i - 1, s.len() as int) =~= wide);
        }
    } else if i + all.len() == s.len() && others.len() == 0 {
        assert(s.subrange(i, s.len() as int) =~= head);
    }
}

/// Parts are split again once they are put in a list, whatever their strings and
/// what stands between parentheses hold.
pub proof fn lists_are_split_again(parts: Seq<Seq<Piece>>)
    requires
        parts.len() > 0,
        forall|k: int| 0 <= k < parts.len() ==> is_part(#[trigger] parts[k]),
    ensures
        lexing::list_parts(list_of(texts(parts))) == texts(parts),
{
    let s = list_of(texts(parts));
    assert(s.subrange(0, s.len() as int) =~= s);
    lemma_list(s, 0, parts);
}

/// The parenthesis that closes the one in front of a list is the one behind the
/// list, so what stands between them is the list.
pub proof fn a_list_is_what_its_parentheses_hold(
    before: Seq<char>,
    parts: Seq<Seq<Piece>>,
    after: Seq<char>,
)
    requires
        parts.len() > 0,
        forall|k: int| 0 <= k < parts.len() ==> is_part(#[trigger] parts[k]),
    ensures
        parser::inside(
            before + seq!['('] + list_of(texts(parts)) + seq![')'] + after,
            before.len() as int,
        ) == Some(list_of(texts(parts))),
{
    let list = list_of(texts(parts));
    let s = before + seq!['('] + list + seq![')'] + after;
    let open = before.len() as int;
    let n = list.len() as int;
    assert(s[open] == '(');
    assert(s.subrange(open + 1, open + 1 + n) =~= list);
    assert(s[open + 1 + n] == ')');
    lemma_list(s, open + 1, parts);
    assert(lexing::closing(s, open, 0, false) == lexing::closing(s, open + 1, 1, false));
    assert(lexing::closing(s, open + 1 + n, 1, false) == Some(open + 1 + n));
}

} // verus!
