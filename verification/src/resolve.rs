//! Resolves a reference into the book against its chapters.
//!
//! A reference is a path, optionally followed by `#` and a fragment. It
//! resolves when a chapter's source lies at the place that the path names
//! and, where the fragment is not empty, that chapter has a heading whose
//! anchor is the fragment. A chapter whose path names no file, such as a
//! draft without a source, is at no place and answers no reference.

use crate::anchors::{anchors, anchors_in, has_anchor};
use crate::book::{Book, Chapter};
use crate::links::Link;
use crate::paths::{
    locate, names, place_of, resolve_target, same_place, target_place, Place,
};
use crate::report::{FailureReason, ReasonView};
use vstd::prelude::*;
use vstd::string::StringSliceAdditionalSpecFns;
use vstd::utf8::encode_utf8;

verus! {

/// The byte `#`.
pub const HASH: u8 = 35;

/// The position of the first `#` in `reference`, or its length where it
/// holds none.
pub open spec fn path_end(reference: Seq<u8>) -> int
    decreases reference.len(),
{
    if reference.len() == 0 || reference[0] == HASH {
        0
    } else {
        1 + path_end(reference.drop_first())
    }
}

/// The end of the path lies within the reference.
pub proof fn lemma_path_end_bounds(reference: Seq<u8>)
    ensures
        0 <= path_end(reference) <= reference.len(),
    decreases reference.len(),
{
    if reference.len() > 0 && reference[0] != HASH {
        lemma_path_end_bounds(reference.drop_first());
    }
}

/// The path of a reference: what stands before the first `#`.
pub open spec fn path_part(reference: Seq<u8>) -> Seq<u8> {
    reference.take(path_end(reference))
}

/// The fragment of a reference: what stands after the first `#`; empty
/// where there is none.
pub open spec fn fragment_part(reference: Seq<u8>) -> Seq<u8> {
    if path_end(reference) < reference.len() {
        reference.skip(path_end(reference) + 1)
    } else {
        Seq::<u8>::empty()
    }
}

/// Whether `chapter` is what a reference to `place` and `fragment` points
/// at.
pub open spec fn answers(chapter: Chapter, place: Place, fragment: Seq<u8>) -> bool {
    place.len() > 0 && place_of(encode_utf8(chapter.path@)) == Some(place) && (fragment.len() == 0
        || anchors_in(chapter.content@).contains(fragment))
}

/// Whether one of `chapters` is what a reference to `place` and `fragment`
/// points at.
pub open spec fn some_answers(chapters: Seq<Chapter>, place: Place, fragment: Seq<u8>) -> bool {
    exists|i: int| 0 <= i < chapters.len() && #[trigger] answers(chapters[i], place, fragment)
}

/// Whether `reference`, written in the chapter `from`, points at one of
/// `chapters`.
pub open spec fn resolves(chapters: Seq<Chapter>, from: Chapter, reference: Seq<u8>) -> bool {
    match target_place(encode_utf8(from.path@), path_part(reference)) {
        Some(place) => some_answers(chapters, place, fragment_part(reference)),
        None => false,
    }
}

/// The position of the first `#` in `reference`, or its length.
pub fn find_path_end(reference: &[u8]) -> (end: usize)
    ensures
        end == path_end(reference@),
        end <= reference@.len(),
{
    let mut i: usize = 0;
    assert(reference@.skip(0) =~= reference@);
    while i < reference.len() && reference[i] != HASH
        invariant
            i <= reference.len(),
            path_end(reference@) == i + path_end(reference@.skip(i as int)),
        decreases reference.len() - i,
    {
        assert(reference@.skip(i as int).drop_first() =~= reference@.skip(i + 1));
        i = i + 1;
    }
    proof {
        lemma_path_end_bounds(reference@);
        if i < reference.len() {
            assert(reference@.skip(i as int)[0] == HASH);
        } else {
            assert(reference@.skip(i as int).len() == 0);
        }
    }
    i
}

/// Whether `chapter` lies at `place` and, where `fragment` is not empty,
/// has it as an anchor.
pub fn chapter_answers(chapter: &Chapter, place: &Vec<Vec<u8>>, fragment: &[u8]) -> (yes: bool)
    ensures
        yes == answers(*chapter, names(place@), fragment@),
{
    match locate(chapter.path.as_str().as_bytes()) {
        Some(own) => {
            if own.len() == 0 || !same_place(&own, place) {
                return false;
            }
            if fragment.len() == 0 {
                return true;
            }
            let found = anchors(chapter);
            has_anchor(&found, fragment)
        },
        None => false,
    }
}

/// Whether `reference`, written in the chapter `from`, points at a chapter
/// of `book`.
pub fn reference_resolves(book: &Book, from: &Chapter, reference: &[u8]) -> (yes: bool)
    ensures
        yes == resolves(book.chapters(), *from, reference@),
{
    let end: usize = find_path_end(reference);
    let path = &reference[0..end];
    assert(path@ =~= path_part(reference@));
    let fragment = if end < reference.len() {
        &reference[end + 1..reference.len()]
    } else {
        &reference[end..end]
    };
    assert(fragment@ =~= fragment_part(reference@));
    match resolve_target(from.path.as_str().as_bytes(), path) {
        Some(place) => {
            let chapters = book.iter();
            let ghost all = book.chapters();
            let ghost wanted = names(place@);
            let mut i: usize = 0;
            while i < chapters.len()
                invariant
                    i <= chapters.len(),
                    chapters@.map_values(|ch: &Chapter| *ch) == all,
                    wanted == names(place@),
                    all == book.chapters(),
                    fragment@ == fragment_part(reference@),
                    target_place(encode_utf8(from.path@), path_part(reference@)) == Some(wanted),
                    forall|j: int| 0 <= j < i ==> !answers(all[j], wanted, fragment@),
                decreases chapters.len() - i,
            {
                assert(all[i as int] == *chapters@[i as int]);
                if chapter_answers(chapters[i], &place, fragment) {
                    assert(0 <= i < all.len());
                    assert(answers(all[i as int], wanted, fragment_part(reference@)));
                    assert(some_answers(all, wanted, fragment_part(reference@)));
                    return true;
                }
                i = i + 1;
            }
            assert(all.len() == chapters@.len());
            false
        },
        None => false,
    }
}

/// Checks a reference into the book: it is valid where it resolves, and is
/// reported as not found where it does not.
pub fn check_link_in_book(link: &Link, book: &Book) -> (verdict: Result<(), FailureReason>)
    ensures
        verdict is Ok <==> resolves(book.chapters(), *link.chapter, encode_utf8(link.url@)),
        verdict matches Err(reason) ==> reason@ == ReasonView::NotFound,
{
    if reference_resolves(book, link.chapter, link.url.as_str().as_bytes()) {
        Ok(())
    } else {
        Err(FailureReason::NotFound)
    }
}

} // verus!
