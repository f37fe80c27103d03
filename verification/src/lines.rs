//! From a byte offset in a text to the number of its line.

use vstd::prelude::*;
use vstd::string::StringSliceAdditionalSpecFns;

verus! {

/// The byte that ends a line.
pub const NEWLINE: u8 = 10;

/// How many positions of `bytes` hold `byte`.
pub open spec fn occurrences(bytes: Seq<u8>, byte: u8) -> nat
    decreases bytes.len(),
{
    if bytes.len() == 0 {
        0
    } else {
        occurrences(bytes.drop_last(), byte) + if bytes.last() == byte {
            1nat
        } else {
            0nat
        }
    }
}

/// The 1-based line of the position `offset` in `bytes`: one more than the
/// number of newline bytes before it.
pub open spec fn line_of(bytes: Seq<u8>, offset: int) -> nat {
    1 + occurrences(bytes.take(offset), NEWLINE)
}

/// A byte occurs at most once per position.
pub proof fn lemma_occurrences_bounded(bytes: Seq<u8>, byte: u8)
    ensures
        occurrences(bytes, byte) <= bytes.len(),
    decreases bytes.len(),
{
    if bytes.len() > 0 {
        lemma_occurrences_bounded(bytes.drop_last(), byte);
    }
}

/// A position is on line 1 at the least, and each byte before it adds one
/// line at the most.
pub proof fn lemma_line_of_bounds(bytes: Seq<u8>, offset: int)
    requires
        0 <= offset <= bytes.len(),
    ensures
        1 <= line_of(bytes, offset) <= offset + 1,
{
    lemma_occurrences_bounded(bytes.take(offset), NEWLINE);
}

/// A longer prefix holds at least as many occurrences as a shorter one.
pub proof fn lemma_occurrences_prefix(bytes: Seq<u8>, byte: u8, shorter: int, longer: int)
    requires
        0 <= shorter <= longer <= bytes.len(),
    ensures
        occurrences(bytes.take(shorter), byte) <= occurrences(bytes.take(longer), byte),
    decreases longer - shorter,
{
    if shorter < longer {
        lemma_occurrences_prefix(bytes, byte, shorter, longer - 1);
        assert(bytes.take(longer).drop_last() =~= bytes.take(longer - 1));
    }
}

/// Line numbers never go down as the offset goes up, and the first position
/// is on line 1.
pub proof fn lemma_line_of_monotonic(bytes: Seq<u8>, first: int, second: int)
    requires
        0 <= first <= second <= bytes.len(),
    ensures
        line_of(bytes, first) <= line_of(bytes, second),
        line_of(bytes, 0) == 1,
{
    lemma_occurrences_prefix(bytes, NEWLINE, first, second);
    assert(bytes.take(0).len() == 0);
}

/// Counts with `memchr::Memchr::new(needle, haystack).count()`. The iterator
/// yields every position of `haystack` that holds `needle`, so its count is
/// the number of those positions.
#[verifier::external_body]
fn count_byte(needle: u8, haystack: &[u8]) -> (n: usize)
    ensures
        n == occurrences(haystack@, needle),
{
    memchr::Memchr::new(needle, haystack).count()
}

/// The 1-based number of the line that holds byte `offset` of `content`.
///
/// A line number that does not fit the machine word is reported as the
/// largest one that does; that can only be where `offset` is itself the
/// largest machine word.
pub fn line_number(content: &str, offset: usize) -> (line: usize)
    requires
        offset <= content.spec_bytes().len(),
    ensures
        line_of(content.spec_bytes(), offset as int) <= usize::MAX ==> line == line_of(
            content.spec_bytes(),
            offset as int,
        ),
        line_of(content.spec_bytes(), offset as int) > usize::MAX ==> line == usize::MAX,
        offset < usize::MAX ==> line == line_of(content.spec_bytes(), offset as int),
{
    let bytes = content.as_bytes();
    let before = &bytes[0..offset];
    assert(before@ == content.spec_bytes().take(offset as int));
    proof {
        lemma_line_of_bounds(content.spec_bytes(), offset as int);
    }
    let newlines: usize = count_byte(NEWLINE, before);
    if newlines < usize::MAX {
        newlines + 1
    } else {
        usize::MAX
    }
}

} // verus!
