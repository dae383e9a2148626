//! A character-addressable read-only view over source text. The parser
//! consumes it one character at a time; `peek` looks at the next character
//! without consuming it.

use vstd::prelude::*;
use vstd::string::StrSliceExecFns;

verus! {

/// A cursor over source text, as a sequence of characters and the index
/// of the next one to read.
#[derive(Debug)]
pub struct SourceCodeCursor {
    contents: Vec<char>,
    index: usize,
}

impl SourceCodeCursor {
    /// The cursor never reads past the end of its text.
    pub closed spec fn wf(self) -> bool {
        self.index <= self.contents@.len()
    }

    /// The whole text the cursor was built over.
    pub closed spec fn text(self) -> Seq<char> {
        self.contents@
    }

    /// The text not yet consumed.
    pub closed spec fn rest(self) -> Seq<char> {
        self.contents@.skip(self.index as int)
    }

    /// The next character, if any.
    pub open spec fn spec_peek(self) -> Option<char> {
        if self.rest().len() > 0 {
            Some(self.rest()[0])
        } else {
            None
        }
    }

    /// Builds a cursor over the given text, positioned at its start.
    pub fn new(contents: String) -> (r: SourceCodeCursor)
        ensures
            r.wf(),
            r.text() == contents@,
            r.rest() == contents@,
    {
        let n = contents.as_str().unicode_len();
        let mut chars: Vec<char> = Vec::new();
        for i in 0..n
            invariant
                n == contents@.len(),
                chars@ =~= contents@.take(i as int),
        {
            chars.push(contents.as_str().get_char(i));
            proof {
                assert(chars@ =~= contents@.take(i + 1));
            }
        }
        proof {
            assert(chars@ =~= contents@);
        }
        let r = SourceCodeCursor { contents: chars, index: 0 };
        proof {
            assert(r.rest() =~= contents@);
        }
        r
    }

    /// The next character, without consuming it.
    pub fn peek(&self) -> (r: Option<char>)
        requires
            self.wf(),
        ensures
            r == self.spec_peek(),
    {
        if self.index < self.contents.len() {
            Some(self.contents[self.index])
        } else {
            None
        }
    }

    /// Consumes and returns the next character.
    pub fn next(&mut self) -> (r: Option<char>)
        requires
            old(self).wf(),
        ensures
            final(self).wf(),
            r == old(self).spec_peek(),
            final(self).text() == old(self).text(),
            final(self).rest() == if r is Some {
                old(self).rest().drop_first()
            } else {
                old(self).rest()
            },
    {
        if self.index < self.contents.len() {
            let c = self.contents[self.index];
            self.index = self.index + 1;
            proof {
                assert(self.rest() =~= old(self).rest().drop_first());
            }
            Some(c)
        } else {
            None
        }
    }
}

} // verus!
