//! What trimming, folding and splitting a text do to it.

use vstd::prelude::*;

use crate::bootstrap::bki_laws;
use crate::exec::fields;
use crate::lexing;
use crate::parser;
use crate::text;

verus! {

/// Whether a text begins and ends with something else than space.
pub open spec fn is_trimmed(s: Seq<char>) -> bool {
    s.len() > 0 && !text::is_space(s[0]) && !text::is_space(s.last())
}

/// Trimming takes the space off both ends of a text and nothing else.
pub proof fn trimming_takes_off_the_space(before: Seq<char>, s: Seq<char>, after: Seq<char>)
    requires
        parser::is_blank(before),
        parser::is_blank(after),
        s.len() == 0 || is_trimmed(s),
    ensures
        text::trim(before + s + after) == s,
{
    let empty = Seq::<char>::empty();
    assert(before + s + after =~= before + (s + after));
    parser::lemma_trim_start(before, s + after);
    if s.len() == 0 {
        assert(s + after =~= after);
        parser::lemma_trim_start(after, empty);
        assert(after + empty =~= after);
        assert(text::trim_start(after) =~= empty);
        assert(s =~= empty);
    } else {
        assert(text::trim_start(s) == s);
        parser::lemma_trim_start(s, after);
        parser::lemma_trim_end(s, after);
        assert(text::trim_end(s) == s);
    }
}

/// Folding a text makes its upper case ASCII letters lower case ones, each in its
/// place, and leaves everything else.
pub proof fn folding_is_by_letters(s: Seq<char>, i: int)
    requires
        0 <= i < s.len(),
    ensures
        text::lower(s).len() == s.len(),
        'A' <= s[i] <= 'Z' ==> 'a' <= text::lower(s)[i] <= 'z' && text::lower(s)[i] as u32
            - 'a' as u32 == s[i] as u32 - 'A' as u32,
        !('A' <= s[i] <= 'Z') ==> text::lower(s)[i] == s[i],
{
}

/// Whether each text of a list is one word.
pub open spec fn are_words(list: Seq<Seq<char>>) -> bool {
    forall|i: int| 0 <= i < list.len() ==> bki_laws::is_word(#[trigger] list[i])
}

proof fn lemma_gap(s: Seq<char>, gap: Seq<char>)
    requires
        parser::is_blank(gap),
        gap.len() > 0 || bki_laws::between_words(s),
    ensures
        bki_laws::between_words(s + gap),
        text::scan_words(s + gap).words == text::words(s),
    decreases gap.len(),
{
    if gap.len() == 0 {
        assert(s + gap =~= s);
    } else {
        let shorter = gap.drop_last();
        assert((s + gap).drop_last() =~= s + shorter);
        assert((s + gap).last() == gap.last());
        assert(text::is_space(gap[gap.len() - 1]));
        if shorter.len() == 0 {
            assert(s + shorter =~= s);
        } else {
            assert forall|i: int| 0 <= i < shorter.len() implies text::is_space(
                #[trigger] shorter[i],
            ) by {
                assert(shorter[i] == gap[i]);
            }
            lemma_gap(s, shorter);
        }
    }
}

/// Words with space between them are split into themselves.
pub proof fn joined_words_are_split_again(list: Seq<Seq<char>>, gap: Seq<char>)
    requires
        are_words(list),
        parser::is_blank(gap),
        gap.len() > 0,
    ensures
        text::words(text::joined(list, gap)) == list,
    decreases list.len(),
{
    let s = text::joined(list, gap);
    if list.len() == 0 {
        assert(text::words(s) =~= list);
    } else {
        let w = list.last();
        assert(bki_laws::is_word(list[list.len() - 1]));
        if list.len() == 1 {
            let empty = Seq::<char>::empty();
            bki_laws::lemma_scan_word(empty, w);
            assert(empty + w =~= s);
            assert(text::words(s) =~= list);
        } else {
            let before = list.drop_last();
            assert forall|i: int| 0 <= i < before.len() implies bki_laws::is_word(
                #[trigger] before[i],
            ) by {
                assert(before[i] == list[i]);
            }
            joined_words_are_split_again(before, gap);
            let head = text::joined(before, gap);
            lemma_gap(head, gap);
            bki_laws::lemma_scan_word(head + gap, w);
            assert(text::words(s) =~= list);
        }
    }
}

/// A statement of words with single spaces between them is in its normal form,
/// but for its case.
pub(crate) proof fn lemma_normal_form(list: Seq<Seq<char>>)
    requires
        are_words(list),
    ensures
        lexing::normal_form(text::joined(list, " "@)) == text::lower(text::joined(list, " "@)),
{
    reveal_strlit(" ");
    assert(parser::is_blank(" "@));
    joined_words_are_split_again(list, " "@);
}

/// A list of texts with a separator between them, taken apart behind the first.
pub(crate) proof fn lemma_joined_first(list: Seq<Seq<char>>, separator: Seq<char>)
    requires
        list.len() > 1,
    ensures
        text::joined(list, separator) == list[0] + separator + text::joined(
            list.skip(1),
            separator,
        ),
{
    fields::lemma_joined_from_the_left(list[0], list.skip(1), separator);
    assert(seq![list[0]] + list.skip(1) =~= list);
}

} // verus!
