//! The paragraphs of a document, as a prompt sees them.

use vstd::prelude::*;

verus! {

/// A paragraph in the current document
#[derive(Clone, Debug, Default, PartialEq, Eq)]
pub struct Paragraph {
    /// The Markdown content of the paragraph
    pub content: String,
}

impl Paragraph {
    /// A paragraph of the content `content`.
    pub fn new(content: &str) -> (paragraph: Paragraph)
        ensures
            paragraph.content@ == content@,
    {
        Paragraph { content: String::from_str(content) }
    }

    /// A copy of the paragraph.
    pub fn copy(&self) -> (paragraph: Paragraph)
        ensures
            paragraph == *self,
    {
        Paragraph { content: self.content.clone() }
    }
}

/// The paragraphs in a document
#[derive(Clone, Debug, Default, PartialEq, Eq)]
pub struct Paragraphs {
    pub items: Vec<Paragraph>,
    pub cursor: Option<usize>,
}

impl Paragraphs {
    /// Create a new list of paragraphs
    pub fn new(items: Vec<Paragraph>) -> (paragraphs: Paragraphs)
        ensures
            paragraphs.items == items,
            paragraphs.cursor is None,
    {
        Paragraphs { items, cursor: None }
    }

    /// Push a paragraph onto the list
    pub fn push(&mut self, item: Paragraph)
        ensures
            final(self).items@ == old(self).items@.push(item),
            final(self).cursor == old(self).cursor,
    {
        self.items.push(item);
    }

    /// Move the paragraph cursor forward: onto the first paragraph where
    /// it stood before the list, else by one.
    pub fn forward(&mut self)
        requires
            old(self).cursor != Some(usize::MAX),
        ensures
            final(self).items == old(self).items,
            final(self).cursor == match old(self).cursor {
                Some(cursor) => Some((cursor + 1) as usize),
                None => Some(0usize),
            },
    {
        self.cursor = match self.cursor {
            Some(cursor) => Some(cursor + 1),
            None => Some(0),
        };
    }

    /// Get the count of all paragraphs
    pub fn count(&self) -> (count: usize)
        ensures
            count == self.items.len(),
    {
        self.items.len()
    }

    /// Get all paragraphs
    pub fn all(&self) -> (items: Vec<Paragraph>)
        ensures
            items@ == self.items@,
    {
        let mut items: Vec<Paragraph> = Vec::new();
        let mut i: usize = 0;
        while i < self.items.len()
            invariant
                i <= self.items.len(),
                items@ == self.items@.take(i as int),
            decreases self.items.len() - i,
        {
            items.push(self.items[i].copy());
            proof {
                assert(self.items@.take(i + 1) =~= self.items@.take(i as int).push(
                    self.items@[i as int],
                ));
            }
            i += 1;
        }
        proof {
            assert(self.items@.take(self.items.len() as int) =~= self.items@);
        }
        items
    }

    /// The paragraph at a place, if there is one.
    pub open spec fn at(self, place: int) -> Option<Paragraph> {
        if 0 <= place < self.items.len() {
            Some(self.items[place])
        } else {
            None
        }
    }

    /// Get the first paragraph (if any)
    pub fn first(&self) -> (paragraph: Option<Paragraph>)
        ensures
            paragraph == self.at(0),
    {
        if self.items.len() > 0 {
            Some(self.items[0].copy())
        } else {
            None
        }
    }

    /// Get the last paragraph (if any)
    pub fn last(&self) -> (paragraph: Option<Paragraph>)
        ensures
            paragraph == self.at(self.items.len() - 1),
    {
        if self.items.len() > 0 {
            Some(self.items[self.items.len() - 1].copy())
        } else {
            None
        }
    }

    /// Get the previous paragraph (if any): the one that the cursor stands
    /// on.
    pub fn previous(&self) -> (paragraph: Option<Paragraph>)
        ensures
            paragraph == match self.cursor {
                Some(cursor) => self.at(cursor as int),
                None => None,
            },
    {
        match self.cursor {
            Some(cursor) => if cursor < self.items.len() {
                Some(self.items[cursor].copy())
            } else {
                None
            },
            None => None,
        }
    }

    /// Get the next paragraph (if any): the one after the cursor, or the
    /// first where the cursor stands before the list.
    pub fn next(&self) -> (paragraph: Option<Paragraph>)
        ensures
            paragraph == match self.cursor {
                Some(cursor) => self.at(cursor + 1),
                None => self.at(0),
            },
    {
        match self.cursor {
            Some(cursor) => if cursor < usize::MAX && cursor + 1 < self.items.len() {
                Some(self.items[cursor + 1].copy())
            } else {
                None
            },
            None => self.first(),
        }
    }
}

} // verus!
