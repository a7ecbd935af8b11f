use vstd::prelude::*;

use crate::module::Module;
use crate::peeker::Peeker;
use crate::text::is_digit;
use crate::token::{Token, TokenKind};

verus! {

/// The whitespace characters the lexer skips between tokens: exactly
/// space, tab, line feed and carriage return. Other Unicode whitespace
/// is not skipped and lexes as an illegal character.
pub open spec fn is_ws(c: char) -> bool {
    c == ' ' || c == '\t' || c == '\n' || c == '\r'
}

/// A character that may start an identifier.
pub open spec fn is_ident_start(c: char) -> bool {
    ('a' <= c && c <= 'z') || ('A' <= c && c <= 'Z') || c == '_'
}

/// A character that may continue an identifier.
pub open spec fn is_ident_char(c: char) -> bool {
    is_ident_start(c) || is_digit(c)
}

/// The first offset at or after `i` holding no whitespace.
pub open spec fn ws_end(s: Seq<char>, i: int) -> int
    decreases s.len() - i,
{
    if i < 0 || i >= s.len() {
        i
    } else if is_ws(s[i]) {
        ws_end(s, i + 1)
    } else {
        i
    }
}

/// The offset one past a comment that starts before `i`: everything up
/// to and including the next line break belongs to the comment.
pub open spec fn comment_end(s: Seq<char>, i: int) -> int
    decreases s.len() - i,
{
    if i < 0 || i >= s.len() {
        i
    } else if s[i] == '\n' {
        i + 1
    } else {
        comment_end(s, i + 1)
    }
}

/// The offset one past the identifier characters running from `i`.
pub open spec fn ident_end(s: Seq<char>, i: int) -> int
    decreases s.len() - i,
{
    if i < 0 || i >= s.len() {
        i
    } else if is_ident_char(s[i]) {
        ident_end(s, i + 1)
    } else {
        i
    }
}

/// The offset one past a number literal running from `i`: digits and
/// grouping separators, and one decimal point, taken only when a digit
/// follows it directly.
pub open spec fn number_end(s: Seq<char>, i: int, seen_dot: bool) -> int
    decreases s.len() - i,
{
    if i < 0 || i >= s.len() {
        i
    } else if is_digit(s[i]) || s[i] == '_' {
        number_end(s, i + 1, seen_dot)
    } else if s[i] == '.' && !seen_dot && i + 1 < s.len() && is_digit(s[i + 1]) {
        number_end(s, i + 1, true)
    } else {
        i
    }
}

/// Reading an identifier never moves backwards.
pub proof fn lemma_ident_end_ge(s: Seq<char>, i: int)
    ensures
        ident_end(s, i) >= i,
    decreases s.len() - i,
{
    if 0 <= i < s.len() && is_ident_char(s[i]) {
        lemma_ident_end_ge(s, i + 1);
    }
}

/// Reading a number literal never moves backwards.
pub proof fn lemma_number_end_ge(s: Seq<char>, i: int, seen_dot: bool)
    ensures
        number_end(s, i, seen_dot) >= i,
    decreases s.len() - i,
{
    if 0 <= i < s.len() {
        if is_digit(s[i]) || s[i] == '_' {
            lemma_number_end_ge(s, i + 1, seen_dot);
        } else if s[i] == '.' && !seen_dot && i + 1 < s.len() && is_digit(s[i + 1]) {
            lemma_number_end_ge(s, i + 1, true);
        }
    }
}

/// What the lexer reads at offset `i`: the next token and the offset
/// after it, or nothing when only whitespace is left.
pub open spec fn spec_next_token(s: Seq<char>, i: int) -> Option<(Token, int)> {
    let j = ws_end(s, i);
    if !(0 <= j < s.len()) {
        None
    } else {
        let c = s[j];
        if c == '#' {
            let end = comment_end(s, j + 1);
            Some((tok(TokenKind::Comment, j, end), end))
        } else if c == '+' {
            Some((tok(TokenKind::Plus, j, j + 1), j + 1))
        } else if c == '-' {
            Some((tok(TokenKind::Minus, j, j + 1), j + 1))
        } else if c == '*' {
            Some((tok(TokenKind::Asterisk, j, j + 1), j + 1))
        } else if c == '/' {
            Some((tok(TokenKind::Slash, j, j + 1), j + 1))
        } else if c == '^' {
            Some((tok(TokenKind::Caret, j, j + 1), j + 1))
        } else if c == '=' {
            if j + 1 < s.len() && s[j + 1] == '=' {
                Some((tok(TokenKind::DoubleEquals, j, j + 2), j + 2))
            } else {
                Some((tok(TokenKind::Equals, j, j + 1), j + 1))
            }
        } else if c == '<' {
            if j + 1 < s.len() && s[j + 1] == '=' {
                Some((tok(TokenKind::LessThanOrEqual, j, j + 2), j + 2))
            } else {
                Some((tok(TokenKind::LessThan, j, j + 1), j + 1))
            }
        } else if c == '>' {
            if j + 1 < s.len() && s[j + 1] == '=' {
                Some((tok(TokenKind::GreaterThanOrEqual, j, j + 2), j + 2))
            } else {
                Some((tok(TokenKind::GreaterThan, j, j + 1), j + 1))
            }
        } else if c == '!' {
            if j + 1 < s.len() && s[j + 1] == '=' {
                Some((tok(TokenKind::NotEquals, j, j + 2), j + 2))
            } else {
                Some((tok(TokenKind::Exclamation, j, j + 1), j + 1))
            }
        } else if c == '{' {
            Some((tok(TokenKind::LBrace, j, j + 1), j + 1))
        } else if c == '}' {
            Some((tok(TokenKind::RBrace, j, j + 1), j + 1))
        } else if c == '(' {
            Some((tok(TokenKind::LParen, j, j + 1), j + 1))
        } else if c == ')' {
            Some((tok(TokenKind::RParen, j, j + 1), j + 1))
        } else if c == ':' {
            Some((tok(TokenKind::Colon, j, j + 1), j + 1))
        } else if c == ',' {
            Some((tok(TokenKind::Comma, j, j + 1), j + 1))
        } else if is_ident_start(c) {
            let end = ident_end(s, j);
            let text = s.subrange(j, end);
            if text == "true"@ || text == "false"@ {
                Some((tok(TokenKind::Boolean, j, end), end))
            } else if text == "type"@ {
                Some((tok(TokenKind::Type, j, end), end))
            } else {
                Some((tok(TokenKind::Ident, j, end), end))
            }
        } else if is_digit(c) {
            let end = number_end(s, j, false);
            Some((tok(TokenKind::Number, j, end), end))
        } else if c == '.' {
            if j + 1 < s.len() && is_digit(s[j + 1]) {
                let end = number_end(s, j + 1, false);
                Some((tok(TokenKind::Number, j, end), end))
            } else {
                Some((tok(TokenKind::Dot, j, j + 1), j + 1))
            }
        } else {
            Some((tok(TokenKind::Illegal, j, j + 1), j + 1))
        }
    }
}

/// A token of `kind` spanning `[start, end)`.
pub open spec fn tok(kind: TokenKind, start: int, end: int) -> Token {
    Token { kind, span: crate::span::Span(start as usize, end as usize) }
}

/// The token sequence the lexer reads from offset `i` to the end.
pub open spec fn spec_tokens(s: Seq<char>, i: int) -> Seq<Token>
    decreases s.len() - i,
{
    if i < 0 {
        Seq::empty()
    } else {
        match spec_next_token(s, i) {
            None => Seq::empty(),
            Some((t, j)) => if i < j <= s.len() {
                seq![t] + spec_tokens(s, j)
            } else {
                seq![t]
            },
        }
    }
}

/// The lexer: it turns the module's text into the token sequence that
/// `spec_tokens` describes.
#[derive(Debug)]
pub struct Lexer {
    pub module: Module,
}

impl Lexer {
    /// A lexer over `module`.
    pub fn new(module: Module) -> (l: Lexer)
        ensures
            l.module.text() == module.text(),
    {
        Lexer { module }
    }

    /// Lex the whole module and return a token cursor over the result.
    /// Every token's span lies within the module's text.
    pub fn get_peeker(&self) -> (p: Peeker<Token>)
        ensures
            p.wf(),
            p.pos_spec() == 0,
            p.items_spec() == spec_tokens(self.module.text(), 0),
            forall|k: int|
                0 <= k < p.items_spec().len() ==> (#[trigger] p.items_spec()[k]).span.0
                    <= p.items_spec()[k].span.1 <= self.module.text().len(),
    {
        let ghost s = self.module.text();
        let mut tokens: Vec<Token> = Vec::new();
        let mut char_peeker = self.module.get_peeker();
        loop
            invariant
                char_peeker.wf(),
                char_peeker.items_spec() == s,
                s == self.module.text(),
                0 <= char_peeker.pos_spec() <= s.len(),
                spec_tokens(s, 0) == tokens@ + spec_tokens(s, char_peeker.pos_spec()),
                forall|k: int|
                    0 <= k < tokens@.len() ==> (#[trigger] tokens@[k]).span.0 <= tokens@[k].span.1
                        <= s.len(),
            ensures
                char_peeker.wf(),
                spec_tokens(s, char_peeker.pos_spec()) =~= Seq::<Token>::empty(),
                spec_tokens(s, 0) == tokens@ + spec_tokens(s, char_peeker.pos_spec()),
                forall|k: int|
                    0 <= k < tokens@.len() ==> (#[trigger] tokens@[k]).span.0 <= tokens@[k].span.1
                        <= s.len(),
            decreases s.len() - char_peeker.pos_spec(),
        {
            let ghost pos_before = char_peeker.pos_spec();
            match self.next_token(&mut char_peeker) {
                Some(token) => {
                    proof {
                        assert(tokens@.push(token) + spec_tokens(s, char_peeker.pos_spec())
                            =~= tokens@ + (seq![token] + spec_tokens(s, char_peeker.pos_spec())));
                    }
                    tokens.push(token);
                },
                None => {
                    break;
                },
            }
        }
        proof {
            assert(tokens@ + Seq::<Token>::empty() =~= tokens@);
        }
        Peeker::new(tokens)
    }

    /// Advance the cursor past any whitespace.
    fn skip_ws(&self, char_peeker: &mut Peeker<char>)
        requires
            old(char_peeker).wf(),
            old(char_peeker).items_spec() == self.module.text(),
        ensures
            final(char_peeker).wf(),
            final(char_peeker).items_spec() == old(char_peeker).items_spec(),
            old(char_peeker).pos_spec() <= final(char_peeker).pos_spec(),
            final(char_peeker).pos_spec() == ws_end(
                self.module.text(),
                old(char_peeker).pos_spec(),
            ),
    {
        let ghost s = self.module.text();
        let ghost pos0 = char_peeker.pos_spec();
        loop
            invariant
                char_peeker.wf(),
                char_peeker.items_spec() == s,
                pos0 <= char_peeker.pos_spec(),
                ws_end(s, pos0) == ws_end(s, char_peeker.pos_spec()),
            ensures
                char_peeker.wf(),
                char_peeker.items_spec() == s,
                pos0 <= char_peeker.pos_spec(),
                char_peeker.pos_spec() == ws_end(s, pos0),
            decreases s.len() - char_peeker.pos_spec(),
        {
            match char_peeker.peek() {
                Some((c, _)) => {
                    if c == ' ' || c == '\t' || c == '\n' || c == '\r' {
                        char_peeker.next();
                    } else {
                        break;
                    }
                },
                None => {
                    break;
                },
            }
        }
    }

    /// Advance the cursor to the end of a comment: past the next line
    /// break, or to the end of the text.
    fn skip_comment(&self, char_peeker: &mut Peeker<char>)
        requires
            old(char_peeker).wf(),
            old(char_peeker).items_spec() == self.module.text(),
        ensures
            final(char_peeker).wf(),
            final(char_peeker).items_spec() == old(char_peeker).items_spec(),
            old(char_peeker).pos_spec() <= final(char_peeker).pos_spec(),
            final(char_peeker).pos_spec() == comment_end(
                self.module.text(),
                old(char_peeker).pos_spec(),
            ),
    {
        let ghost s = self.module.text();
        let ghost pos0 = char_peeker.pos_spec();
        loop
            invariant_except_break
                comment_end(s, pos0) == comment_end(s, char_peeker.pos_spec()),
            invariant
                char_peeker.wf(),
                char_peeker.items_spec() == s,
                pos0 <= char_peeker.pos_spec(),
            ensures
                char_peeker.wf(),
                char_peeker.items_spec() == s,
                pos0 <= char_peeker.pos_spec(),
                char_peeker.pos_spec() == comment_end(s, pos0),
            decreases s.len() - char_peeker.pos_spec(),
        {
            match char_peeker.next() {
                Some((c, _)) => {
                    if c == '\n' {
                        break;
                    }
                },
                None => {
                    break;
                },
            }
        }
    }

    /// Advance the cursor past the identifier characters under it.
    fn read_ident(&self, char_peeker: &mut Peeker<char>)
        requires
            old(char_peeker).wf(),
            old(char_peeker).items_spec() == self.module.text(),
        ensures
            final(char_peeker).wf(),
            final(char_peeker).items_spec() == old(char_peeker).items_spec(),
            old(char_peeker).pos_spec() <= final(char_peeker).pos_spec(),
            final(char_peeker).pos_spec() == ident_end(
                self.module.text(),
                old(char_peeker).pos_spec(),
            ),
    {
        let ghost s = self.module.text();
        let ghost pos0 = char_peeker.pos_spec();
        loop
            invariant
                char_peeker.wf(),
                char_peeker.items_spec() == s,
                pos0 <= char_peeker.pos_spec(),
                ident_end(s, pos0) == ident_end(s, char_peeker.pos_spec()),
            ensures
                char_peeker.wf(),
                char_peeker.items_spec() == s,
                pos0 <= char_peeker.pos_spec(),
                char_peeker.pos_spec() == ident_end(s, pos0),
            decreases s.len() - char_peeker.pos_spec(),
        {
            match char_peeker.peek() {
                Some((c, _)) => {
                    if ('a' <= c && c <= 'z') || ('A' <= c && c <= 'Z') || c == '_' || ('0' <= c
                        && c <= '9') {
                        char_peeker.next();
                    } else {
                        break;
                    }
                },
                None => {
                    break;
                },
            }
        }
    }

    /// Read one token, advancing the character cursor past it; `None`
    /// when only whitespace is left, with the cursor at the end.
    fn next_token(&self, char_peeker: &mut Peeker<char>) -> (r: Option<Token>)
        requires
            old(char_peeker).wf(),
            old(char_peeker).items_spec() == self.module.text(),
        ensures
            final(char_peeker).wf(),
            final(char_peeker).items_spec() == old(char_peeker).items_spec(),
            match spec_next_token(self.module.text(), old(char_peeker).pos_spec()) {
                Some((t, j)) => {
                    &&& r == Some(t)
                    &&& final(char_peeker).pos_spec() == j
                    &&& old(char_peeker).pos_spec() < j <= self.module.text().len()
                    &&& t.span.0 <= t.span.1 <= self.module.text().len()
                },
                None => {
                    &&& r is None
                    &&& final(char_peeker).pos_spec() == self.module.text().len()
                },
            },
    {
        let ghost s = self.module.text();
        self.skip_ws(char_peeker);
        let (cur_char, cur_idx) = match char_peeker.peek() {
            Some(pair) => pair,
            None => {
                return None;
            },
        };
        let token = match cur_char {
            '#' => {
                char_peeker.next();
                self.skip_comment(char_peeker);
                let end = char_peeker.pos();
                Token::new(TokenKind::Comment, cur_idx, end - cur_idx)
            },
            '+' => {
                char_peeker.next();
                Token::new(TokenKind::Plus, cur_idx, 1)
            },
            '-' => {
                char_peeker.next();
                Token::new(TokenKind::Minus, cur_idx, 1)
            },
            '*' => {
                char_peeker.next();
                Token::new(TokenKind::Asterisk, cur_idx, 1)
            },
            '/' => {
                char_peeker.next();
                Token::new(TokenKind::Slash, cur_idx, 1)
            },
            '^' => {
                char_peeker.next();
                Token::new(TokenKind::Caret, cur_idx, 1)
            },
            '=' => {
                char_peeker.next();
                let two = match char_peeker.peek() {
                    Some((c, _)) => c == '=',
                    None => false,
                };
                if two {
                    char_peeker.next();
                    Token::new(TokenKind::DoubleEquals, cur_idx, 2)
                } else {
                    Token::new(TokenKind::Equals, cur_idx, 1)
                }
            },
            '<' => {
                char_peeker.next();
                let two = match char_peeker.peek() {
                    Some((c, _)) => c == '=',
                    None => false,
                };
                if two {
                    char_peeker.next();
                    Token::new(TokenKind::LessThanOrEqual, cur_idx, 2)
                } else {
                    Token::new(TokenKind::LessThan, cur_idx, 1)
                }
            },
            '>' => {
                char_peeker.next();
                let two = match char_peeker.peek() {
                    Some((c, _)) => c == '=',
                    None => false,
                };
                if two {
                    char_peeker.next();
                    Token::new(TokenKind::GreaterThanOrEqual, cur_idx, 2)
                } else {
                    Token::new(TokenKind::GreaterThan, cur_idx, 1)
                }
            },
            '!' => {
                char_peeker.next();
                let two = match char_peeker.peek() {
                    Some((c, _)) => c == '=',
                    None => false,
                };
                if two {
                    char_peeker.next();
                    Token::new(TokenKind::NotEquals, cur_idx, 2)
                } else {
                    Token::new(TokenKind::Exclamation, cur_idx, 1)
                }
            },
            '{' => {
                char_peeker.next();
                Token::new(TokenKind::LBrace, cur_idx, 1)
            },
            '}' => {
                char_peeker.next();
                Token::new(TokenKind::RBrace, cur_idx, 1)
            },
            '(' => {
                char_peeker.next();
                Token::new(TokenKind::LParen, cur_idx, 1)
            },
            ')' => {
                char_peeker.next();
                Token::new(TokenKind::RParen, cur_idx, 1)
            },
            ':' => {
                char_peeker.next();
                Token::new(TokenKind::Colon, cur_idx, 1)
            },
            ',' => {
                char_peeker.next();
                Token::new(TokenKind::Comma, cur_idx, 1)
            },
            _ => {
                if ('a' <= cur_char && cur_char <= 'z') || ('A' <= cur_char && cur_char <= 'Z')
                    || cur_char == '_' {
                    self.read_ident(char_peeker);
                    let end = char_peeker.pos();
                    proof {
                        lemma_ident_end_ge(s, cur_idx + 1);
                        assert(is_ident_char(s[cur_idx as int]));
                    }
                    let text = self.module.slice(cur_idx, end);
                    let kind = if crate::text::str_eq(text, "true") || crate::text::str_eq(
                        text,
                        "false",
                    ) {
                        TokenKind::Boolean
                    } else if crate::text::str_eq(text, "type") {
                        TokenKind::Type
                    } else {
                        TokenKind::Ident
                    };
                    Token::new(kind, cur_idx, end - cur_idx)
                } else if '0' <= cur_char && cur_char <= '9' {
                    proof {
                        lemma_number_end_ge(s, cur_idx + 1, false);
                    }
                    let last = self.read_number(char_peeker, cur_idx);
                    Token::new(TokenKind::Number, cur_idx, last + 1 - cur_idx)
                } else if cur_char == '.' {
                    char_peeker.next();
                    let follows_digit = match char_peeker.peek() {
                        Some((c, _)) => '0' <= c && c <= '9',
                        None => false,
                    };
                    if follows_digit {
                        proof {
                            lemma_number_end_ge(s, cur_idx + 2, false);
                        }
                        let last = self.read_number(char_peeker, cur_idx);
                        Token::new(TokenKind::Number, cur_idx, last + 1 - cur_idx)
                    } else {
                        Token::new(TokenKind::Dot, cur_idx, 1)
                    }
                } else {
                    char_peeker.next();
                    Token::new(TokenKind::Illegal, cur_idx, 1)
                }
            },
        };
        Some(token)
    }

    /// Read the rest of a number literal: digits and grouping
    /// separators, and one decimal point taken only when a digit follows
    /// it directly. Returns the offset of the last character read, or
    /// `start` when nothing was read.
    fn read_number(&self, char_peeker: &mut Peeker<char>, start: usize) -> (last: usize)
        requires
            old(char_peeker).wf(),
            old(char_peeker).items_spec() == self.module.text(),
            start <= old(char_peeker).pos_spec(),
        ensures
            final(char_peeker).wf(),
            final(char_peeker).items_spec() == old(char_peeker).items_spec(),
            final(char_peeker).pos_spec() == number_end(
                self.module.text(),
                old(char_peeker).pos_spec(),
                false,
            ),
            old(char_peeker).pos_spec() < final(char_peeker).pos_spec() ==> last + 1
                == final(char_peeker).pos_spec(),
            old(char_peeker).pos_spec() == final(char_peeker).pos_spec() ==> last == start,
    {
        let ghost s = self.module.text();
        let mut last = start;
        let mut seen_dot = false;
        let mut moved = false;
        loop
            invariant
                char_peeker.wf(),
                char_peeker.items_spec() == s,
                old(char_peeker).pos_spec() <= char_peeker.pos_spec(),
                number_end(s, old(char_peeker).pos_spec(), false) == number_end(
                    s,
                    char_peeker.pos_spec(),
                    seen_dot,
                ),
                moved ==> old(char_peeker).pos_spec() < char_peeker.pos_spec() && last + 1
                    == char_peeker.pos_spec(),
                !moved ==> old(char_peeker).pos_spec() == char_peeker.pos_spec() && last == start,
            ensures
                char_peeker.wf(),
                char_peeker.items_spec() == s,
                old(char_peeker).pos_spec() <= char_peeker.pos_spec(),
                char_peeker.pos_spec() == number_end(s, old(char_peeker).pos_spec(), false),
                moved ==> old(char_peeker).pos_spec() < char_peeker.pos_spec() && last + 1
                    == char_peeker.pos_spec(),
                !moved ==> old(char_peeker).pos_spec() == char_peeker.pos_spec() && last == start,
            decreases s.len() - char_peeker.pos_spec(),
        {
            match char_peeker.peek() {
                Some((c, _)) => {
                    if ('0' <= c && c <= '9') || c == '_' {
                        match char_peeker.next() {
                            Some((_, l)) => {
                                last = l;
                                moved = true;
                            },
                            None => {
                                break;
                            },
                        }
                    } else if c == '.' && !seen_dot {
                        let ahead_digit = match char_peeker.peek_ahead(1) {
                            Some((c2, _)) => '0' <= c2 && c2 <= '9',
                            None => false,
                        };
                        if ahead_digit {
                            match char_peeker.next() {
                                Some((_, l)) => {
                                    last = l;
                                    moved = true;
                                    seen_dot = true;
                                },
                                None => {
                                    break;
                                },
                            }
                        } else {
                            break;
                        }
                    } else {
                        break;
                    }
                },
                None => {
                    break;
                },
            }
        }
        last
    }
}

} // verus!
