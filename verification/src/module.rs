use vstd::prelude::*;
use vstd::string::*;

use crate::peeker::Peeker;
use crate::span::Span;
use crate::token::Token;

verus! {

/// One source module: the text of a single source file. Offsets everywhere
/// in the front end are character offsets into this text.
#[derive(Debug)]
pub struct Module {
    pub src: String,
}

impl Module {
    /// The module's text as a sequence of characters.
    pub open spec fn text(&self) -> Seq<char> {
        self.src@
    }

    /// A module holding the source text `src`.
    pub fn new(src: String) -> (m: Module)
        ensures
            m.text() == src@,
    {
        Module { src }
    }

    /// A character cursor over the whole text, for the lexer.
    pub fn get_peeker(&self) -> (p: Peeker<char>)
        ensures
            p.wf(),
            p.items_spec() == self.text(),
            p.pos_spec() == 0,
    {
        let n = self.src.as_str().unicode_len();
        let mut chars: Vec<char> = Vec::new();
        let mut i: usize = 0;
        while i < n
            invariant
                i <= n,
                n == self.text().len(),
                chars@ == self.text().subrange(0, i as int),
            decreases n - i,
        {
            let c = self.src.as_str().get_char(i);
            chars.push(c);
            i = i + 1;
            proof {
                assert(chars@ =~= self.text().subrange(0, i as int));
            }
        }
        proof {
            assert(chars@ =~= self.text());
        }
        Peeker::new(chars)
    }

    /// The text a token was read from.
    pub fn token<'a>(&'a self, token: &Token) -> (r: &'a str)
        requires
            token.span.0 <= token.span.1 <= self.text().len(),
        ensures
            r@ == self.text().subrange(token.span.0 as int, token.span.1 as int),
    {
        self.slice(token.span.0, token.span.1)
    }

    /// The text between the character offsets `start` (inclusive) and `end`
    /// (exclusive).
    pub fn slice<'a>(&'a self, start: usize, end: usize) -> (r: &'a str)
        requires
            start <= end <= self.text().len(),
        ensures
            r@ == self.text().subrange(start as int, end as int),
    {
        self.src.as_str().substring_char(start, end)
    }

    /// The text a span covers.
    pub fn span_slice<'a>(&'a self, span: &Span) -> (r: &'a str)
        requires
            span.0 <= span.1 <= self.text().len(),
        ensures
            r@ == self.text().subrange(span.0 as int, span.1 as int),
    {
        self.slice(span.0, span.1)
    }

    /// The length of the text, in characters.
    pub fn ln(&self) -> (n: usize)
        ensures
            n == self.text().len(),
    {
        self.src.as_str().unicode_len()
    }
}

} // verus!
