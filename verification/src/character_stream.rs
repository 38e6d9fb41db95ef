//! The source text as a cursor that can be peeked and consumed.

use vstd::prelude::*;
use vstd::string::StringExecFns;
use crate::text::decode;

verus! {

/// The whole source text and a read position in it. The text never changes
/// and the position only moves forward.
pub struct CharStream {
    contents: String,
    chars: Vec<char>,
    cursor: usize,
}

impl CharStream {
    #[verifier::type_invariant]
    spec fn well_formed(self) -> bool {
        &&& self.chars@ == self.contents@
        &&& self.cursor <= self.chars.len()
    }

    /// The source text.
    pub closed spec fn text(&self) -> Seq<char> {
        self.contents@
    }

    /// How many characters have been consumed.
    pub closed spec fn position(&self) -> int {
        self.cursor as int
    }

    /// The character `k` places after the read position, if there is one.
    pub open spec fn peek(&self, k: int) -> Option<char> {
        if 0 <= k && self.position() + k < self.text().len() {
            Some(self.text()[self.position() + k])
        } else {
            None
        }
    }

    /// A stream over `text`, with nothing consumed yet.
    pub fn new(text: &str) -> (stream: CharStream)
        ensures
            stream.text() == text@,
            stream.position() == 0,
            text@.len() <= usize::MAX,
    {
        CharStream { contents: String::from_str(text), chars: decode(text), cursor: 0 }
    }

    /// The whole source text, consumed part included.
    pub fn get_contents(&self) -> (contents: &String)
        ensures
            contents@ == self.text(),
    {
        &self.contents
    }

    /// True if and only if characters remain to be consumed.
    pub fn more_available(&self) -> (more: bool)
        ensures
            more == (self.position() < self.text().len()),
            0 <= self.position() <= self.text().len(),
    {
        proof {
            use_type_invariant(self);
        }
        self.cursor < self.chars.len()
    }

    /// The next character, which stays unconsumed.
    pub fn peek_next_char(&self) -> (c: Option<char>)
        ensures
            c == self.peek(0),
    {
        self.peek_ahead_char(0)
    }

    /// The character `k` places ahead, which stays unconsumed; `None` past the
    /// end of the text and for a negative `k`.
    pub fn peek_ahead_char(&self, k: i32) -> (c: Option<char>)
        ensures
            c == self.peek(k as int),
    {
        proof {
            use_type_invariant(self);
        }
        if k < 0 {
            None
        } else if (k as usize) < self.chars.len() - self.cursor {
            Some(self.chars[self.cursor + (k as usize)])
        } else {
            None
        }
    }

    /// The next character, which is consumed; `None` at the end of the text.
    pub fn get_next_char(&mut self) -> (c: Option<char>)
        ensures
            final(self).text() == old(self).text(),
            c == old(self).peek(0),
            final(self).position() == old(self).position() + (if c is Some { 1int } else { 0 }),
            0 <= final(self).position() <= final(self).text().len(),
    {
        proof {
            use_type_invariant(&*self);
        }
        if self.cursor < self.chars.len() {
            let ch = self.chars[self.cursor];
            self.cursor = self.cursor + 1;
            Some(ch)
        } else {
            None
        }
    }
}

} // verus!
