//! Splitting a text at a separator character.

use crate::text::search::{index_of, lemma_index_of, position};
use vstd::prelude::*;
use vstd::slice::slice_subrange;

verus! {

/// The pieces of `s` between occurrences of `sep`. A text without `sep` is
/// one piece; two separators in a row enclose an empty piece.
pub open spec fn fields(s: Seq<char>, sep: char) -> Seq<Seq<char>>
    decreases s.len(),
{
    let i = index_of(s, sep);
    if 0 <= i < s.len() {
        seq![s.take(i)] + fields(s.skip(i + 1), sep)
    } else {
        seq![s]
    }
}

/// The second piece of `s` split at `sep`: what stands between the first
/// separator and the next one, or the end of `s`. `None` when `s` holds no
/// separator.
pub open spec fn second_field(s: Seq<char>, sep: char) -> Option<Seq<char>> {
    let pieces = fields(s, sep);
    if pieces.len() > 1 {
        Some(pieces[1])
    } else {
        None
    }
}

/// Splitting yields at least one piece, and the first piece is what stands
/// before the first separator.
pub proof fn lemma_fields_first(s: Seq<char>, sep: char)
    ensures
        fields(s, sep).len() >= 1,
        fields(s, sep)[0] == s.take(index_of(s, sep)),
        fields(s, sep).len() > 1 <==> index_of(s, sep) < s.len(),
    decreases s.len(),
{
    lemma_index_of(s, sep);
    let i = index_of(s, sep);
    if i == s.len() {
        assert(s.take(i) =~= s);
    } else {
        lemma_fields_first(s.skip(i + 1), sep);
    }
}

/// The second piece of `s` split at `sep`, as a sub-slice of `s`.
pub fn split_second(s: &[char], sep: char) -> (piece: Option<&[char]>)
    ensures
        match piece {
            Some(p) => second_field(s@, sep) == Some(p@),
            None => second_field(s@, sep) is None,
        },
{
    let i = position(s, sep);
    proof {
        lemma_index_of(s@, sep);
        lemma_fields_first(s@, sep);
    }
    if i == s.len() {
        None
    } else {
        let rest = slice_subrange(s, i + 1, s.len());
        let j = position(rest, sep);
        proof {
            lemma_index_of(rest@, sep);
            lemma_fields_first(rest@, sep);
            assert(rest@ == s@.skip(i + 1));
            assert(rest@.subrange(0, j as int) == rest@.take(j as int));
        }
        Some(slice_subrange(rest, 0, j))
    }
}

} // verus!
