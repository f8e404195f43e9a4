//! What the text functions do, told by single characters and by parts.

use crate::text::{
    ascii_lowered, begins_with, characters, eq_ignoring_ascii_case, lines_of,
    same_ignoring_ascii_case, split_lines, string_of, without_carriage_return,
};
use crate::views::views;
use vstd::prelude::*;

verus! {

/// `c` is `d`, or one of them is the ASCII capital letter of the other.
pub open spec fn is_letter(c: char, d: char) -> bool {
    ||| c == d
    ||| 'A' <= c && c <= 'Z' && d as u32 == c as u32 + 32
    ||| 'A' <= d && d <= 'Z' && c as u32 == d as u32 + 32
}

/// The text is the word, in any ASCII case.
pub open spec fn is_word(text: Seq<char>, word: Seq<char>) -> bool {
    &&& text.len() == word.len()
    &&& forall|i: int| 0 <= i < word.len() ==> is_letter(#[trigger] text[i], word[i])
}

proof fn lemma_letter(c: char, d: char)
    ensures
        (ascii_lowered(c) == ascii_lowered(d)) == is_letter(c, d),
{
}

/// Two texts are the same but for case exactly where they are as long, and
/// each character is the same or the capital of the other.
pub proof fn lemma_words()
    ensures
        forall|text: Seq<char>, word: Seq<char>|
            same_ignoring_ascii_case(text, word) == #[trigger] is_word(text, word),
{
    assert forall|text: Seq<char>, word: Seq<char>|
        same_ignoring_ascii_case(text, word) == #[trigger] is_word(text, word) by {
        assert forall|i: int| 0 <= i < word.len() && 0 <= i < text.len() implies (ascii_lowered(
            #[trigger] text[i],
        ) == ascii_lowered(word[i])) == is_letter(text[i], word[i]) by {
            lemma_letter(text[i], word[i]);
        }
        if is_word(text, word) {
            assert forall|i: int| 0 <= i < text.len() implies ascii_lowered(#[trigger] text[i])
                == ascii_lowered(word[i]) by {
                assert(is_letter(text[i], word[i]));
            }
        }
    }
}

/// Texts are compared without regard to ASCII case: as long as each other,
/// and letter by letter the same or the capital of the other.
pub proof fn case_is_disregarded(a: &str, b: &str, r: bool)
    requires
        call_ensures(eq_ignoring_ascii_case, (a, b), r),
    ensures
        r == is_word(a@, b@),
{
    lemma_words();
}

/// A text begins with a prefix exactly where it is the prefix with something
/// behind it.
pub proof fn prefixes_stand_at_the_front(text: &str, prefix: &str, r: bool)
    requires
        call_ensures(begins_with, (text, prefix), r),
    ensures
        r <==> exists|rest: Seq<char>| text@ == #[trigger] (prefix@ + rest),
{
    if prefix@.is_prefix_of(text@) {
        let rest = text@.skip(prefix@.len() as int);
        assert(text@ == prefix@ + rest);
    }
    if exists|rest: Seq<char>| text@ == #[trigger] (prefix@ + rest) {
        let rest = choose|rest: Seq<char>| text@ == #[trigger] (prefix@ + rest);
        assert(text@.subrange(0, prefix@.len() as int) =~= prefix@);
    }
}

/// A text without a line feed is one line, and no text at all is none; what
/// ends at a line feed is a line of its own, without a carriage return that
/// stands directly before the line feed, and the lines of the rest follow.
pub proof fn lines_end_at_line_feeds(line: Seq<char>, rest: Seq<char>)
    requires
        !line.contains('\n'),
    ensures
        lines_of(seq![]) == Seq::<Seq<char>>::empty(),
        line.len() > 0 ==> lines_of(line) == seq![line],
        !(line.len() > 0 && line.last() == '\r') ==> lines_of(line + seq!['\n'] + rest) == seq![
            line,
        ] + lines_of(rest),
        lines_of(line + seq!['\r', '\n'] + rest) == seq![line] + lines_of(rest),
{
    lemma_first_line(line, rest);
    let ended = line.push('\r');
    assert(!ended.contains('\n')) by {
        if ended.contains('\n') {
            let i = choose|i: int| 0 <= i < ended.len() && ended[i] == '\n';
            assert(line[i] == '\n');
        }
    }
    lemma_first_line(ended, rest);
    assert(ended.drop_last() == line);
    assert(line + seq!['\r', '\n'] + rest == ended + seq!['\n'] + rest);
}

proof fn lemma_first_line(line: Seq<char>, rest: Seq<char>)
    requires
        !line.contains('\n'),
    ensures
        lines_of(line + seq!['\n'] + rest) == seq![without_carriage_return(line)]
            + lines_of(rest),
{
    let whole = line + seq!['\n'] + rest;
    whole.index_of_first_ensures('\n');
    assert(whole[line.len() as int] == '\n');
    assert(whole.contains('\n'));
    let first = whole.index_of_first('\n')->0;
    assert(first == line.len()) by {
        if first < line.len() {
            assert(line[first] == '\n');
        }
    }
    assert(whole.take(first) == line);
    assert(whole.skip(first + 1) == rest);
}

/// A text is split into its lines, in order.
pub proof fn texts_are_split_into_their_lines(text: &str, r: Vec<String>)
    requires
        call_ensures(split_lines, (text,), r),
    ensures
        r@.len() == lines_of(text@).len(),
        forall|i: int| 0 <= i < r@.len() ==> (#[trigger] r@[i])@ == lines_of(text@)[i],
{
    assert forall|i: int| 0 <= i < r@.len() implies (#[trigger] r@[i])@ == lines_of(text@)[i] by {
        assert(views(r@)[i] == r@[i]@);
    }
    assert(views(r@).len() == r@.len());
}

/// A string is made of the characters between two places, and a text is all
/// its characters.
pub proof fn strings_are_their_characters(
    text: &str,
    chars: Vec<char>,
    from: usize,
    to: usize,
    part: String,
)
    requires
        call_ensures(characters, (text,), chars),
        from <= to <= chars@.len(),
        call_ensures(string_of, (&chars, from, to), part),
    ensures
        chars@ == text@,
        part@.len() == to - from,
        forall|i: int| 0 <= i < part@.len() ==> #[trigger] part@[i] == text@[from + i],
{
}

} // verus!
