//! The number of imported records that the importer announces on its
//! standard output.

use crate::number::{parse_i32, parsed_i32};
use crate::text::{
    chars_of, find_line, first_containing, index_of, is_first_containing, lemma_fields_first,
    lemma_first_containing, lemma_first_containing_concat, lemma_first_containing_found,
    lemma_index_of, lemma_index_of_unique, lemma_lines_concat, lines, occurs_at, occurs_in,
    second_field, split_second, trim, trimmed,
};
use vstd::prelude::*;

verus! {

/// The text that announces the number of imported records. The number
/// follows on the same line.
pub const RECORD_COUNT_MARKER: &'static str = "インポートされたレコード数:";

/// The characters of the record-count marker.
pub open spec fn marker() -> Seq<char> {
    RECORD_COUNT_MARKER@
}

/// The number that a marker line announces: the line is split at its
/// colons, and the second piece, without the white space around it, is read
/// as an integer. `None` when that piece is not an integer.
pub open spec fn count_in_line(line: Seq<char>) -> Option<i32> {
    match second_field(line, ':') {
        Some(field) => parsed_i32(trimmed(field)),
        None => None,
    }
}

/// The number of imported records that `stdout` announces: the number in
/// the first line that holds the marker. `None` when no line holds the
/// marker or that first line announces no number; later marker lines are
/// not looked at.
pub open spec fn record_count(stdout: Seq<char>) -> Option<i32> {
    match first_containing(lines(stdout), marker()) {
        Some(line) => count_in_line(line),
        None => None,
    }
}

/// The marker is thirteen characters and a colon.
pub proof fn lemma_marker_shape()
    ensures
        marker().len() == 14,
        marker()[13] == ':',
        index_of(marker(), ':') == 13,
{
    reveal_strlit("インポートされたレコード数:");
    lemma_index_of_unique(marker(), ':', 13);
}

/// A line that holds the marker holds a colon, so it has a second piece.
pub proof fn lemma_marker_line_has_second_field(line: Seq<char>)
    requires
        occurs_in(marker(), line),
    ensures
        second_field(line, ':') is Some,
{
    lemma_marker_shape();
    let i = choose|i: int| occurs_at(marker(), line, i);
    assert(line.subrange(i, i + 14)[13] == ':');
    lemma_index_of(line, ':');
    lemma_fields_first(line, ':');
}

/// In a line that is the marker and then a text without a colon, with no
/// colon before the marker either, the number is that text, trimmed and
/// read as an integer.
pub proof fn lemma_count_follows_marker(before: Seq<char>, number: Seq<char>)
    requires
        forall|k: int| 0 <= k < before.len() ==> before[k] != ':',
        forall|k: int| 0 <= k < number.len() ==> number[k] != ':',
    ensures
        occurs_in(marker(), before + marker() + number),
        count_in_line(before + marker() + number) == parsed_i32(trimmed(number)),
{
    lemma_marker_shape();
    let line = before + marker() + number;
    let start = before.len() as int;
    assert(line.subrange(start, start + 14) =~= marker());
    assert(occurs_at(marker(), line, start));
    lemma_index_of(marker(), ':');
    assert forall|k: int| 0 <= k < start + 13 implies line[k] != ':' by {
        if k >= start {
            assert(line[k] == marker()[k - start]);
        } else {
            assert(line[k] == before[k]);
        }
    }
    assert(line[start + 13] == marker()[13]);
    lemma_index_of_unique(line, ':', start + 13);
    assert(line.skip(start + 14) =~= number);
    lemma_index_of_unique(number, ':', number.len() as int);
    lemma_fields_first(line, ':');
    lemma_fields_first(number, ':');
    assert(number.take(number.len() as int) =~= number);
}

/// The first line of standard output that holds the marker decides the
/// record count, whatever lines follow it: later marker lines are ignored.
pub proof fn lemma_first_marker_line_decides(stdout: Seq<char>, i: int)
    requires
        is_first_containing(lines(stdout), marker(), i),
    ensures
        record_count(stdout) == count_in_line(lines(stdout)[i]),
{
    lemma_first_containing_found(lines(stdout), marker(), i);
}

/// A text announces a record count exactly when the first of its lines that
/// holds the marker announces a number.
pub proof fn lemma_record_count_present(stdout: Seq<char>)
    ensures
        record_count(stdout) is Some <==> exists|i: int| #[trigger]
            is_first_containing(lines(stdout), marker(), i) && count_in_line(lines(stdout)[i])
                is Some,
{
    let all = lines(stdout);
    lemma_first_containing(all, marker());
    if first_containing(all, marker()) is Some {
        let i = choose|i: int| #[trigger]
            is_first_containing(all, marker(), i) && first_containing(all, marker()) == Some(
                all[i],
            );
        assert forall|j: int| #[trigger] is_first_containing(all, marker(), j) implies j == i by {
            if j < i {
                assert(!occurs_in(marker(), all[j]));
            } else if i < j {
                assert(!occurs_in(marker(), all[i]));
            }
        }
    }
}

/// Once a line of standard output holds the marker, nothing that the
/// importer prints after that line changes the record count.
pub proof fn lemma_later_output_ignored(head: Seq<char>, tail: Seq<char>)
    requires
        first_containing(lines(head + seq!['\n']), marker()) is Some,
    ensures
        record_count(head + seq!['\n'] + tail) == record_count(head + seq!['\n']),
{
    lemma_lines_concat(head, tail);
    lemma_first_containing_concat(lines(head + seq!['\n']), lines(tail), marker());
}

/// Without a marker line there is no record count.
pub proof fn lemma_no_marker_no_count(stdout: Seq<char>)
    requires
        forall|i: int|
            0 <= i < lines(stdout).len() ==> !occurs_in(marker(), #[trigger] lines(stdout)[i]),
    ensures
        record_count(stdout) is None,
{
    lemma_first_containing(lines(stdout), marker());
}

/// Reads the number that one marker line announces.
pub fn read_count(line: &[char]) -> (count: Option<i32>)
    ensures
        count == count_in_line(line@),
{
    match split_second(line, ':') {
        Some(field) => parse_i32(trim(field)),
        None => None,
    }
}

/// Looks for the number of imported records in the text of standard output.
pub fn extract_record_count(stdout: &str) -> (count: Option<i32>)
    ensures
        count == record_count(stdout@),
{
    let text = chars_of(stdout);
    let marker = chars_of(RECORD_COUNT_MARKER);
    match find_line(text.as_slice(), marker.as_slice()) {
        Some(line) => read_count(line),
        None => None,
    }
}

} // verus!
