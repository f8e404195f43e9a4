//! Text predicates and splitting, stated over sequences of characters.

use crate::views::views;
use vstd::prelude::*;

verus! {

/// Appends one character to a string.
///
/// `String::push` of the standard library: the documentation says that the
/// given character is appended to the end of the string.
pub assume_specification[ String::push ](text: &mut String, c: char)
    ensures
        final(text)@ == old(text)@.push(c),
;

/// The lower-case partner of an ASCII capital letter, every other character
/// unchanged.
pub open spec fn ascii_lowered(c: char) -> char {
    if 'A' <= c && c <= 'Z' {
        (c as u32 + 32) as char
    } else {
        c
    }
}

/// Two texts agree once the case of their ASCII letters is disregarded.
pub open spec fn same_ignoring_ascii_case(a: Seq<char>, b: Seq<char>) -> bool {
    &&& a.len() == b.len()
    &&& forall|i: int| 0 <= i < a.len() ==> ascii_lowered(#[trigger] a[i]) == ascii_lowered(b[i])
}

/// A line without the carriage return it may end with.
pub open spec fn without_carriage_return(line: Seq<char>) -> Seq<char> {
    if line.len() > 0 && line.last() == '\r' {
        line.drop_last()
    } else {
        line
    }
}

/// The lines of a text. A line ends at a line feed, which together with a
/// carriage return directly before it belongs to no line; what follows the
/// last line feed is a line only where it is not empty.
pub open spec fn lines_of(text: Seq<char>) -> Seq<Seq<char>>
    decreases text.len(),
{
    if text.len() == 0 {
        seq![]
    } else if !text.contains('\n') {
        seq![text]
    } else {
        let end = text.index_of_first('\n')->0;
        proof {
            text.index_of_first_ensures('\n');
        }
        seq![without_carriage_return(text.take(end))] + lines_of(text.skip(end + 1))
    }
}

/// The characters of `text`, in order.
pub fn characters(text: &str) -> (r: Vec<char>)
    ensures
        r@ == text@,
{
    let mut out: Vec<char> = Vec::new();
    for c in it: text.chars()
        invariant
            out@ == text@.take(it.index() as int),
            it.seq() == text@,
    {
        proof {
            assert(text@.take(it.index() as int + 1) == text@.take(it.index() as int).push(c));
        }
        out.push(c);
    }
    proof {
        assert(text@.take(text@.len() as int) == text@);
    }
    out
}

/// The string that consists of `chars[from..to]`.
pub fn string_of(chars: &Vec<char>, from: usize, to: usize) -> (r: String)
    requires
        from <= to <= chars@.len(),
    ensures
        r@ == chars@.subrange(from as int, to as int),
{
    let mut out: String = String::new();
    let mut i: usize = from;
    while i < to
        invariant
            from <= i <= to <= chars@.len(),
            out@ == chars@.subrange(from as int, i as int),
        decreases to - i,
    {
        out.push(chars[i]);
        i = i + 1;
        proof {
            assert(chars@.subrange(from as int, i as int) == chars@.subrange(from as int, i - 1).push(
                chars@[i - 1],
            ));
        }
    }
    out
}

/// The lower-case partner of an ASCII capital letter, every other character
/// unchanged.
fn lowered(c: char) -> (r: char)
    ensures
        r == ascii_lowered(c),
{
    if 'A' <= c && c <= 'Z' {
        let code: u8 = c as u8;
        (code + 32) as char
    } else {
        c
    }
}

/// Whether `a` and `b` agree once the case of ASCII letters is disregarded.
pub fn eq_ignoring_ascii_case(a: &str, b: &str) -> (r: bool)
    ensures
        r == same_ignoring_ascii_case(a@, b@),
{
    let left: Vec<char> = characters(a);
    let right: Vec<char> = characters(b);
    if left.len() != right.len() {
        return false;
    }
    let mut i: usize = 0;
    while i < left.len()
        invariant
            i <= left@.len(),
            left@ == a@,
            right@ == b@,
            left@.len() == right@.len(),
            forall|k: int| 0 <= k < i ==> ascii_lowered(#[trigger] a@[k]) == ascii_lowered(b@[k]),
        decreases left@.len() - i,
    {
        if lowered(left[i]) != lowered(right[i]) {
            proof {
                assert(ascii_lowered(a@[i as int]) != ascii_lowered(b@[i as int]));
            }
            return false;
        }
        i = i + 1;
    }
    true
}

/// Whether `text` begins with `prefix`.
pub fn begins_with(text: &str, prefix: &str) -> (r: bool)
    ensures
        r == prefix@.is_prefix_of(text@),
{
    let whole: Vec<char> = characters(text);
    let part: Vec<char> = characters(prefix);
    if part.len() > whole.len() {
        return false;
    }
    let mut i: usize = 0;
    while i < part.len()
        invariant
            i <= part@.len() <= whole@.len(),
            whole@ == text@,
            part@ == prefix@,
            forall|k: int| 0 <= k < i ==> #[trigger] text@[k] == prefix@[k],
        decreases part@.len() - i,
    {
        if whole[i] != part[i] {
            proof {
                assert(text@.subrange(0, prefix@.len() as int)[i as int] == text@[i as int]);
            }
            return false;
        }
        i = i + 1;
    }
    proof {
        assert(text@.subrange(0, prefix@.len() as int) =~= prefix@);
    }
    true
}

/// The lines of `text`.
pub fn split_lines(text: &str) -> (r: Vec<String>)
    ensures
        views(r@) == lines_of(text@),
{
    let chars: Vec<char> = characters(text);
    let mut out: Vec<String> = Vec::new();
    let mut from: usize = 0;
    let mut i: usize = 0;
    proof {
        assert(chars@.skip(0) == chars@);
        assert(views(out@) + lines_of(chars@) == lines_of(chars@));
    }
    while i < chars.len()
        invariant
            from <= i <= chars@.len(),
            chars@ == text@,
            forall|k: int| from <= k < i ==> chars@[k] != '\n',
            views(out@) + lines_of(chars@.skip(from as int)) == lines_of(text@),
        decreases chars@.len() - i,
    {
        if chars[i] == '\n' {
            let ghost rest = chars@.skip(from as int);
            let ghost end = i - from;
            let to: usize = if i > from && chars[i - 1] == '\r' {
                i - 1
            } else {
                i
            };
            let line: String = string_of(&chars, from, to);
            proof {
                rest.index_of_first_ensures('\n');
                assert(rest[end] == '\n');
                assert(rest.contains('\n'));
                let first = rest.index_of_first('\n')->0;
                assert(first == end) by {
                    if first < end {
                        assert(rest[first] == chars@[from + first]);
                    }
                }
                assert(line@ == without_carriage_return(rest.take(end)));
                assert(rest.skip(end + 1) == chars@.skip(i + 1));
                assert(views(out@.push(line)) == views(out@).push(line@));
                assert(views(out@) + (seq![line@] + lines_of(chars@.skip(i + 1))) == views(
                    out@.push(line),
                ) + lines_of(chars@.skip(i + 1)));
            }
            out.push(line);
            from = i + 1;
        }
        i = i + 1;
    }
    let ghost rest = chars@.skip(from as int);
    if from < chars.len() {
        let line: String = string_of(&chars, from, chars.len());
        proof {
            assert(line@ == rest);
            assert(!rest.contains('\n'));
            assert(views(out@.push(line)) == views(out@).push(line@));
            assert(views(out@) + seq![rest] == views(out@.push(line)));
        }
        out.push(line);
    } else {
        proof {
            assert(views(out@) + lines_of(rest) == views(out@));
        }
    }
    out
}

} // verus!
