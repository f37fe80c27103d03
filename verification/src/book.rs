//! The book: an ordered tree of chapters.

use vstd::prelude::*;

verus! {

/// One unit of marked-up text, with its place in the book.
#[derive(Debug, PartialEq, Eq)]
pub struct Chapter {
    /// The chapter's title.
    pub name: String,
    /// The marked-up text.
    pub content: String,
    /// Where the chapter's source lies, relative to the root of the book,
    /// with `/` between the directories.
    pub path: String,
    /// The chapters nested under this one, in order.
    pub sub_items: Vec<Chapter>,
}

/// The whole book.
#[derive(Debug, PartialEq, Eq)]
pub struct Book {
    /// The top-level chapters, in order.
    pub sections: Vec<Chapter>,
}

/// The chapters of a forest in document order: each chapter, then the
/// chapters nested under it, then its next sibling.
pub open spec fn document_order(items: Seq<Chapter>) -> Seq<Chapter>
    decreases items,
{
    if items.len() == 0 {
        Seq::<Chapter>::empty()
    } else {
        document_order(items.drop_last()).push(items.last()) + document_order(
            items.last().sub_items@,
        )
    }
}

impl Chapter {
    /// A chapter without nested chapters.
    pub fn new(name: &str, content: String, path: &str) -> (ch: Chapter)
        ensures
            ch.name@ == name@,
            ch.content@ == content@,
            ch.path@ == path@,
            ch.sub_items@.len() == 0,
    {
        Chapter {
            name: name.to_owned(),
            content,
            path: path.to_owned(),
            sub_items: Vec::new(),
        }
    }
}

impl Book {
    /// The chapters of the book in document order.
    pub open spec fn chapters(&self) -> Seq<Chapter> {
        document_order(self.sections@)
    }

    /// A book of the given top-level chapters.
    pub fn new(sections: Vec<Chapter>) -> (book: Book)
        ensures
            book.sections == sections,
    {
        Book { sections }
    }

    /// Every chapter of the book, in document order.
    pub fn iter<'a>(&'a self) -> (all: Vec<&'a Chapter>)
        ensures
            all@.map_values(|ch: &Chapter| *ch) == self.chapters(),
    {
        let mut all: Vec<&'a Chapter> = Vec::new();
        gather(&self.sections, &mut all);
        assert(all@.map_values(|ch: &Chapter| *ch) =~= self.chapters());
        all
    }
}

/// Appends the chapters of `items`, in document order, to `all`.
fn gather<'a>(items: &'a Vec<Chapter>, all: &mut Vec<&'a Chapter>)
    ensures
        final(all)@.map_values(|ch: &Chapter| *ch) == old(all)@.map_values(|ch: &Chapter| *ch)
            + document_order(items@),
    decreases items,
{
    let ghost before = all@.map_values(|ch: &Chapter| *ch);
    let mut i: usize = 0;
    while i < items.len()
        invariant
            i <= items.len(),
            all@.map_values(|ch: &Chapter| *ch) == before + document_order(items@.take(i as int)),
        decreases items.len() - i,
    {
        let ghost so_far = all@.map_values(|ch: &Chapter| *ch);
        all.push(&items[i]);
        assert(all@.map_values(|ch: &Chapter| *ch) =~= so_far.push(items@[i as int]));
        gather(&items[i].sub_items, all);
        proof {
            let next = items@.take(i + 1);
            assert(next.drop_last() =~= items@.take(i as int));
            assert(next.last() == items@[i as int]);
            assert(all@.map_values(|ch: &Chapter| *ch) =~= before + document_order(next));
        }
        i = i + 1;
    }
    assert(items@.take(items.len() as int) =~= items@);
}

} // verus!
