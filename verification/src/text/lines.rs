//! The lines of a text, and the search for the first line that holds a
//! given text.

use crate::text::search::{
    contains, index_of, lemma_index_of, lemma_index_of_unique, occurs_in, position,
};
use vstd::prelude::*;
use vstd::slice::slice_subrange;

verus! {

/// `line` without one trailing carriage return.
pub open spec fn without_cr(line: Seq<char>) -> Seq<char> {
    if line.len() > 0 && line.last() == '\r' {
        line.drop_last()
    } else {
        line
    }
}

/// The lines of `s`. A line ends at a line feed; the line feed, and a
/// carriage return directly before it, are not part of the line. The last
/// line needs no line feed, and a carriage return at its end stays. The
/// empty text has no lines.
pub open spec fn lines(s: Seq<char>) -> Seq<Seq<char>>
    decreases s.len(),
{
    if s.len() == 0 {
        Seq::empty()
    } else {
        let i = index_of(s, '\n');
        if 0 <= i < s.len() {
            seq![without_cr(s.take(i))] + lines(s.skip(i + 1))
        } else {
            seq![s]
        }
    }
}

/// No line holds a line feed.
pub proof fn lemma_lines_hold_no_line_feed(s: Seq<char>)
    ensures
        forall|i: int, k: int|
            0 <= i < lines(s).len() && 0 <= k < lines(s)[i].len() ==> #[trigger] lines(s)[i][k]
                != '\n',
    decreases s.len(),
{
    if s.len() > 0 {
        let n = index_of(s, '\n');
        lemma_index_of(s, '\n');
        if n < s.len() {
            let rest = s.skip(n + 1);
            lemma_lines_hold_no_line_feed(rest);
            assert forall|i: int, k: int|
                0 <= i < lines(s).len() && 0 <= k < lines(s)[i].len() implies #[trigger] lines(
                s,
            )[i][k] != '\n' by {
                if i == 0 {
                    assert(lines(s)[0][k] == s[k]);
                } else {
                    assert(lines(s)[i] == lines(rest)[i - 1]);
                }
            }
        }
    }
}

/// The lines of a text that continues after a line feed are the lines up to
/// that line feed, then the lines of what follows it.
pub proof fn lemma_lines_concat(head: Seq<char>, tail: Seq<char>)
    ensures
        lines(head + seq!['\n'] + tail) == lines(head + seq!['\n']) + lines(tail),
    decreases head.len(),
{
    let whole = head + seq!['\n'] + tail;
    let front = head + seq!['\n'];
    let i = index_of(head, '\n');
    lemma_index_of(head, '\n');
    assert forall|k: int| 0 <= k < i implies whole[k] != '\n' && front[k] != '\n' by {
        assert(whole[k] == head[k]);
        assert(front[k] == head[k]);
    }
    assert(whole[i] == '\n' && front[i] == '\n') by {
        if i < head.len() {
            assert(whole[i] == head[i]);
            assert(front[i] == head[i]);
        }
    }
    lemma_index_of_unique(whole, '\n', i);
    lemma_index_of_unique(front, '\n', i);
    assert(whole.take(i) =~= head.take(i));
    assert(front.take(i) =~= head.take(i));
    if i == head.len() {
        assert(whole.skip(i + 1) =~= tail);
        assert(front.skip(i + 1).len() == 0);
        assert(lines(front.skip(i + 1)).len() == 0);
        assert(lines(front) =~= seq![without_cr(head.take(i))]);
        assert(lines(whole) =~= lines(front) + lines(tail));
    } else {
        let rest = head.skip(i + 1);
        assert(whole.skip(i + 1) =~= rest + seq!['\n'] + tail);
        assert(front.skip(i + 1) =~= rest + seq!['\n']);
        lemma_lines_concat(rest, tail);
        assert(lines(whole) =~= lines(front) + lines(tail));
    }
}

/// The first of `lines` in which `needle` occurs.
pub open spec fn first_containing(lines: Seq<Seq<char>>, needle: Seq<char>) -> Option<Seq<char>>
    decreases lines.len(),
{
    if lines.len() == 0 {
        None
    } else if occurs_in(needle, lines[0]) {
        Some(lines[0])
    } else {
        first_containing(lines.skip(1), needle)
    }
}

/// Whether line `i` is the first of `lines` in which `needle` occurs.
pub open spec fn is_first_containing(lines: Seq<Seq<char>>, needle: Seq<char>, i: int) -> bool {
    &&& 0 <= i < lines.len()
    &&& occurs_in(needle, lines[i])
    &&& forall|k: int| 0 <= k < i ==> !occurs_in(needle, #[trigger] lines[k])
}

/// The first line in which `needle` occurs is the one that is found,
/// whatever lines follow it.
pub proof fn lemma_first_containing_found(lines: Seq<Seq<char>>, needle: Seq<char>, i: int)
    requires
        is_first_containing(lines, needle, i),
    ensures
        first_containing(lines, needle) == Some(lines[i]),
    decreases lines.len(),
{
    if i > 0 {
        let rest = lines.skip(1);
        assert(!occurs_in(needle, lines[0]));
        assert forall|k: int| 0 <= k < i - 1 implies !occurs_in(needle, #[trigger] rest[k]) by {
            assert(rest[k] == lines[k + 1]);
        }
        lemma_first_containing_found(rest, needle, i - 1);
    }
}

/// A line is found exactly when `needle` occurs in some line, and then it
/// is the first such line.
pub proof fn lemma_first_containing(lines: Seq<Seq<char>>, needle: Seq<char>)
    ensures
        first_containing(lines, needle) is Some <==> exists|i: int|
            0 <= i < lines.len() && occurs_in(needle, #[trigger] lines[i]),
        first_containing(lines, needle) is Some ==> exists|i: int| #[trigger]
            is_first_containing(lines, needle, i) && first_containing(lines, needle) == Some(
                lines[i],
            ),
    decreases lines.len(),
{
    if lines.len() > 0 {
        let rest = lines.skip(1);
        lemma_first_containing(rest, needle);
        if occurs_in(needle, lines[0]) {
            assert(is_first_containing(lines, needle, 0));
        } else {
            if first_containing(rest, needle) is Some {
                let j = choose|j: int| #[trigger]
                    is_first_containing(rest, needle, j) && first_containing(rest, needle) == Some(
                        rest[j],
                    );
                assert(rest[j] == lines[j + 1]);
                assert forall|k: int| 0 <= k < j + 1 implies !occurs_in(
                    needle,
                    #[trigger] lines[k],
                ) by {
                    if k > 0 {
                        assert(lines[k] == rest[k - 1]);
                    }
                }
                assert(is_first_containing(lines, needle, j + 1));
            }
            assert forall|i: int|
                0 <= i < lines.len() && occurs_in(needle, #[trigger] lines[i]) implies exists|
                j: int,
            |
                0 <= j < rest.len() && occurs_in(needle, #[trigger] rest[j]) by {
                assert(rest[i - 1] == lines[i]);
            }
        }
    }
}

/// In a list of lines that is made of two lists, the search finds what it
/// finds in the first list, and looks at the second only when the first
/// holds no such line.
pub proof fn lemma_first_containing_concat(
    front: Seq<Seq<char>>,
    back: Seq<Seq<char>>,
    needle: Seq<char>,
)
    ensures
        first_containing(front + back, needle) == if first_containing(front, needle) is Some {
            first_containing(front, needle)
        } else {
            first_containing(back, needle)
        },
    decreases front.len(),
{
    if front.len() == 0 {
        assert(front + back =~= back);
    } else {
        assert((front + back)[0] == front[0]);
        assert((front + back).skip(1) =~= front.skip(1) + back);
        lemma_first_containing_concat(front.skip(1), back, needle);
    }
}

/// `line` without one trailing carriage return, as a sub-slice of `line`.
pub fn strip_cr(line: &[char]) -> (stripped: &[char])
    ensures
        stripped@ == without_cr(line@),
{
    let len: usize = line.len();
    if len > 0 && line[len - 1] == '\r' {
        slice_subrange(line, 0, len - 1)
    } else {
        line
    }
}

/// The first line of `text` in which `needle` occurs, as a sub-slice of
/// `text`.
pub fn find_line<'a>(text: &'a [char], needle: &[char]) -> (found: Option<&'a [char]>)
    ensures
        match found {
            Some(line) => first_containing(lines(text@), needle@) == Some(line@),
            None => first_containing(lines(text@), needle@) is None,
        },
{
    let mut rest: &[char] = text;
    loop
        invariant
            first_containing(lines(text@), needle@) == first_containing(lines(rest@), needle@),
        decreases rest@.len(),
    {
        let len: usize = rest.len();
        if len == 0 {
            return None;
        }
        let i = position(rest, '\n');
        proof {
            lemma_index_of(rest@, '\n');
        }
        if i == len {
            assert(lines(rest@) =~= seq![rest@]);
            assert(first_containing(lines(rest@).skip(1), needle@) is None);
            if contains(rest, needle) {
                return Some(rest);
            } else {
                return None;
            }
        }
        let line = strip_cr(slice_subrange(rest, 0, i));
        let next = slice_subrange(rest, i + 1, len);
        proof {
            assert(rest@.subrange(0, i as int) == rest@.take(i as int));
            assert(next@ == rest@.skip(i + 1));
            assert(lines(rest@)[0] == line@);
            assert(lines(rest@).skip(1) =~= lines(next@));
        }
        if contains(line, needle) {
            return Some(line);
        }
        rest = next;
    }
}

} // verus!
