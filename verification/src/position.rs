//! Where in a source text the cursor stands: line, column and byte offset.
use crate::text::{byte_len, len_of, lemma_encode_concat};
use vstd::prelude::*;
use vstd::std_specs::iter::IteratorSpec;
use vstd::utf8::*;

verus! {

/// A place in a source text. Lines and columns count from one, the byte
/// offset from zero. A column is one character wide.
#[derive(Clone, Copy, Debug, PartialEq, Eq, Structural)]
pub struct Position {
    pub line: usize,
    pub column: usize,
    pub byte_offset: usize,
}

/// A place in a text of any length: what a [`Position`] stands for.
pub struct Place {
    pub line: int,
    pub column: int,
    pub byte_offset: int,
}

impl View for Position {
    type V = Place;

    open spec fn view(&self) -> Place {
        Place {
            line: self.line as int,
            column: self.column as int,
            byte_offset: self.byte_offset as int,
        }
    }
}

impl Place {
    /// The place where every text begins.
    pub open spec fn start() -> Place {
        Place { line: 1, column: 1, byte_offset: 0 }
    }

    /// The place behind the character `c`, seen from this place: a newline
    /// begins the next line at column one, any other character moves one
    /// column to the right.
    pub open spec fn step(self, c: char) -> Place {
        if c == '\n' {
            Place {
                line: self.line + 1,
                column: 1,
                byte_offset: self.byte_offset + byte_len(seq![c]),
            }
        } else {
            Place {
                line: self.line,
                column: self.column + 1,
                byte_offset: self.byte_offset + byte_len(seq![c]),
            }
        }
    }

    /// The place behind `text`, seen from this place.
    pub open spec fn advance(self, text: Seq<char>) -> Place
        decreases text.len(),
    {
        if text.len() == 0 {
            self
        } else {
            self.advance(text.drop_last()).step(text.last())
        }
    }

    /// Whether `self` is this place or one behind it in the same text.
    pub open spec fn reaches(self, later: Place) -> bool {
        &&& self.byte_offset <= later.byte_offset
        &&& self.line <= later.line
        &&& (self.line == later.line ==> self.column <= later.column)
    }
}

/// Reading a text in two parts leads to the same place as reading it whole.
pub proof fn lemma_advance_concat(from: Place, a: Seq<char>, b: Seq<char>)
    ensures
        from.advance(a + b) == from.advance(a).advance(b),
    decreases b.len(),
{
    if b.len() == 0 {
        assert(a + b =~= a);
    } else {
        assert((a + b).drop_last() =~= a + b.drop_last());
        lemma_advance_concat(from, a, b.drop_last());
    }
}

/// A position never moves backwards: reading text advances the byte offset
/// by the bytes read, never lowers the line, and leaves line and column
/// within what the characters read allow.
pub proof fn lemma_advance_bounds(from: Place, text: Seq<char>)
    ensures
        from.advance(text).byte_offset == from.byte_offset + byte_len(text),
        from.line <= from.advance(text).line <= from.line + text.len(),
        from.column >= 1 ==> 1 <= from.advance(text).column <= from.column + text.len(),
        from.column >= 1 ==> from.reaches(from.advance(text)),
    decreases text.len(),
{
    if text.len() > 0 {
        let head = text.drop_last();
        lemma_advance_bounds(from, head);
        assert(text =~= head + seq![text.last()]);
        lemma_encode_concat(head, seq![text.last()]);
    }
}

impl Position {
    /// The place where every text begins.
    pub fn start() -> (p: Position)
        ensures
            p@ == Place::start(),
    {
        Position { line: 1, column: 1, byte_offset: 0 }
    }

    /// The position behind `text`, seen from this position. The counters must
    /// have room for the characters and bytes of `text`.
    pub fn advance(self, text: &str) -> (p: Position)
        requires
            self.line + text@.len() <= usize::MAX,
            self.column + text@.len() <= usize::MAX,
            self.byte_offset + byte_len(text@) <= usize::MAX,
        ensures
            p@ == self@.advance(text@),
    {
        let mut line: usize = self.line;
        let mut column: usize = self.column;
        let mut chars = text.chars();
        let ghost mut seen: int = 0;
        loop
            invariant
                0 <= seen <= text@.len(),
                chars.remaining() == text@.skip(seen),
                line == self@.advance(text@.take(seen)).line,
                column == self@.advance(text@.take(seen)).column,
                line <= self.line + seen,
                column <= self.column + seen,
                self.line + text@.len() <= usize::MAX,
                self.column + text@.len() <= usize::MAX,
            ensures
                seen == text@.len(),
                line == self@.advance(text@.take(seen)).line,
                column == self@.advance(text@.take(seen)).column,
            decreases text@.len() - seen,
        {
            match chars.next() {
                Some(c) => {
                    proof {
                        assert(c == text@[seen]);
                        assert(text@.take(seen + 1).drop_last() =~= text@.take(seen));
                        assert(text@.skip(seen).drop_first() =~= text@.skip(seen + 1));
                        seen = seen + 1;
                    }
                    if c == '\n' {
                        line = line + 1;
                        column = 1;
                    } else {
                        column = column + 1;
                    }
                },
                None => {
                    break ;
                },
            }
        }
        proof {
            assert(text@.take(seen) =~= text@);
            lemma_advance_bounds(self@, text@);
        }
        Position { line, column, byte_offset: self.byte_offset + len_of(text) }
    }
}

} // verus!
