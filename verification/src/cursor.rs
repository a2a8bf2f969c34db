//! The character cursor that the lexer pulls from: a decoded character
//! sequence together with a read position. `current` peeks without
//! consuming; `read` consumes one character and advances.

use vstd::prelude::*;
use vstd::string::StrSliceExecFns;

verus! {

/// The encoding a raw input was decoded from. Decoding itself happens
/// outside this crate; the cursor receives characters that are already
/// decoded, so the encoding is informational only.
#[derive(Debug, PartialEq, Eq, Clone, Copy)]
pub enum Encoding {
    UTF8,
}

/// A peekable cursor over a sequence of characters.
pub struct CharIterator {
    pub chars: Vec<char>,
    pub pos: usize,
}

impl CharIterator {
    /// The full character sequence the cursor walks over.
    pub open spec fn text(&self) -> Seq<char> {
        self.chars@
    }

    /// The current read position.
    pub open spec fn position(&self) -> int {
        self.pos as int
    }

    /// The position never runs past the end of the text.
    pub open spec fn wf(&self) -> bool {
        self.pos <= self.chars.len()
    }

    /// An empty cursor, positioned at the start.
    pub fn new() -> (r: Self)
        ensures
            r.wf(),
            r.text() == Seq::<char>::empty(),
            r.position() == 0,
    {
        CharIterator { chars: Vec::new(), pos: 0 }
    }

    /// Loads the cursor with the characters of `s` and rewinds it.
    /// The `encoding` argument records where the characters came from;
    /// they are already decoded, so it does not affect the result.
    pub fn read_from_str(&mut self, s: &str, encoding: Option<Encoding>)
        ensures
            final(self).wf(),
            final(self).text() == s@,
            final(self).position() == 0,
    {
        let mut chars: Vec<char> = Vec::new();
        let n = s.unicode_len();
        let mut i: usize = 0;
        while i < n
            invariant
                n == s@.len(),
                i <= n,
                chars@ =~= s@.subrange(0, i as int),
            decreases n - i,
        {
            chars.push(s.get_char(i));
            i = i + 1;
        }
        proof {
            assert(chars@ =~= s@);
        }
        self.chars = chars;
        self.pos = 0;
    }

    /// Peeks at the current character without consuming it; `None` at
    /// end of input.
    pub fn current(&self) -> (r: Option<char>)
        requires
            self.wf(),
        ensures
            self.position() < self.text().len() ==> r == Some(self.text()[self.position()]),
            self.position() >= self.text().len() ==> r is None,
    {
        if self.pos < self.chars.len() {
            Some(self.chars[self.pos])
        } else {
            None
        }
    }

    /// Consumes and returns the current character, advancing the
    /// position by one; `None` at end of input (no advance).
    pub fn read(&mut self) -> (r: Option<char>)
        requires
            old(self).wf(),
        ensures
            final(self).wf(),
            final(self).text() == old(self).text(),
            old(self).position() < old(self).text().len() ==> {
                &&& r == Some(old(self).text()[old(self).position()])
                &&& final(self).position() == old(self).position() + 1
            },
            old(self).position() >= old(self).text().len() ==> {
                &&& r is None
                &&& final(self).position() == old(self).position()
            },
    {
        if self.pos < self.chars.len() {
            let c = self.chars[self.pos];
            self.pos = self.pos + 1;
            Some(c)
        } else {
            None
        }
    }
}

} // verus!
