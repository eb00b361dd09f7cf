use vstd::prelude::*;
use vstd::string::*;

use crate::error::ErrorView;
use crate::error::ParseError;

verus! {

/// The kind of a lexical token.
#[derive(Debug, Clone, Copy, PartialEq, Eq, Structural)]
pub enum TokenKind {
    /// an identifier, like `A` or `B`
    Identifier,
    /// A left curly brace, `{`
    LeftBrace,
    /// A right curly brace, `}`
    RightBrace,
    /// A left bracket, `[`
    LeftBracket,
    /// A right bracket, `]`
    RightBracket,
    /// A left parenthesis, `(`
    LeftParen,
    /// A right parenthesis, `)`
    RightParen,
    /// whitespace, can contain multiple whitespace characters
    WhiteSpace,
    /// A wedge, `\wedge`
    Wedge,
    /// A dot, `\cdot`
    Dot,
    /// A plus, `+`
    Plus,
    /// A minus, `-`
    Minus,
    /// A multiplication, `*`
    Multiply,
    /// A division, `/`
    Divide,
    /// A fraction, `\frac`
    Frac,
    /// the hat operator `\hat`
    Hat,
    /// an underscore, `_` - used for subscript
    Underscore,
    /// a carrot `^` - used for superscript
    Carrot,
    /// an integer
    Int,
    /// a float
    Float,
    /// any other type of number
    Numeric,
    /// End of file
    EOF,
}

impl TokenKind {
    /// Holds exactly of the numeric-literal kinds.
    pub open spec fn spec_is_numeric(self) -> bool {
        self == TokenKind::Int || self == TokenKind::Float || self == TokenKind::Numeric
    }

    pub fn is_numeric(self) -> (r: bool)
        ensures
            r == self.spec_is_numeric(),
    {
        matches!(self, TokenKind::Int | TokenKind::Float | TokenKind::Numeric)
    }
}

/// A token: a kind together with the inclusive span of character offsets
/// it covers in the source text.
#[derive(Debug, Clone, Copy, PartialEq, Eq, Structural)]
pub struct Token {
    pub kind: TokenKind,
    pub start: usize,
    pub end: usize,
}

impl Token {
    pub fn new(kind: TokenKind, start: usize, end: usize) -> (r: Token)
        ensures
            r == (Token { kind, start, end }),
    {
        Token { kind, start, end }
    }

    pub fn single(kind: TokenKind, pos: usize) -> (r: Token)
        ensures
            r == (Token { kind, start: pos, end: pos }),
    {
        Token { kind, start: pos, end: pos }
    }

    pub fn end(pos: usize) -> (r: Token)
        ensures
            r == (Token { kind: TokenKind::EOF, start: pos, end: pos }),
    {
        Token { kind: TokenKind::EOF, start: pos, end: pos }
    }
}

/// Whether `char::is_whitespace` holds of `c`; the Unicode property tables
/// are not restated here.
pub uninterp spec fn whitespace_char(c: char) -> bool;

/// Whether `char::is_alphabetic` holds of `c`; the Unicode property tables
/// are not restated here.
pub uninterp spec fn alphabetic_char(c: char) -> bool;

/// Relies on char::is_whitespace: whether a character has the Unicode
/// whitespace property depends on the character alone.
#[verifier::external_body]
fn char_is_whitespace(c: char) -> (r: bool)
    ensures
        r == whitespace_char(c),
{
    c.is_whitespace()
}

/// Relies on char::is_alphabetic: whether a character is Unicode alphabetic
/// depends on the character alone.
#[verifier::external_body]
fn char_is_alphabetic(c: char) -> (r: bool)
    ensures
        r == alphabetic_char(c),
{
    c.is_alphabetic()
}

/// An ASCII decimal digit.
pub open spec fn digit_char(c: char) -> bool {
    '0' as u32 <= c as u32 && c as u32 <= '9' as u32
}

pub(crate) fn is_ascii_digit_char(c: char) -> (r: bool)
    ensures
        r == digit_char(c),
{
    let u = c as u32;
    48 <= u && u <= 57
}

/// A character that ends a backslash command name.
pub open spec fn command_separator_char(c: char) -> bool {
    c == ' ' || c == '{'
}

fn is_separator(c: char) -> (r: bool)
    ensures
        r == command_separator_char(c),
{
    c == ' ' || c == '{'
}

/// The first position at or after `pos` whose character is not whitespace,
/// or the end of the input.
pub open spec fn scan_whitespace_end(input: Seq<char>, pos: int) -> int
    decreases input.len() - pos,
{
    if pos < 0 || pos >= input.len() {
        input.len() as int
    } else if whitespace_char(input[pos]) {
        scan_whitespace_end(input, pos + 1)
    } else {
        pos
    }
}

/// The first position at or after `pos` whose character is not alphabetic,
/// or the end of the input.
pub open spec fn scan_alphabetic_end(input: Seq<char>, pos: int) -> int
    decreases input.len() - pos,
{
    if pos < 0 || pos >= input.len() {
        input.len() as int
    } else if alphabetic_char(input[pos]) {
        scan_alphabetic_end(input, pos + 1)
    } else {
        pos
    }
}

/// The first position at or after `pos` whose character is not a digit,
/// or the end of the input.
pub open spec fn scan_digits_end(input: Seq<char>, pos: int) -> int
    decreases input.len() - pos,
{
    if pos < 0 || pos >= input.len() {
        input.len() as int
    } else if digit_char(input[pos]) {
        scan_digits_end(input, pos + 1)
    } else {
        pos
    }
}

/// The first position at or after `pos` holding a command separator,
/// or the end of the input.
pub open spec fn scan_command_end(input: Seq<char>, pos: int) -> int
    decreases input.len() - pos,
{
    if pos < 0 || pos >= input.len() {
        input.len() as int
    } else if !command_separator_char(input[pos]) {
        scan_command_end(input, pos + 1)
    } else {
        pos
    }
}

proof fn lemma_scan_whitespace_end_bounds(input: Seq<char>, pos: int)
    requires
        0 <= pos <= input.len(),
    ensures
        pos <= scan_whitespace_end(input, pos) <= input.len(),
    decreases input.len() - pos,
{
    if pos < input.len() && whitespace_char(input[pos]) {
        lemma_scan_whitespace_end_bounds(input, pos + 1);
    }
}

proof fn lemma_scan_alphabetic_end_bounds(input: Seq<char>, pos: int)
    requires
        0 <= pos <= input.len(),
    ensures
        pos <= scan_alphabetic_end(input, pos) <= input.len(),
    decreases input.len() - pos,
{
    if pos < input.len() && alphabetic_char(input[pos]) {
        lemma_scan_alphabetic_end_bounds(input, pos + 1);
    }
}

proof fn lemma_scan_digits_end_bounds(input: Seq<char>, pos: int)
    requires
        0 <= pos <= input.len(),
    ensures
        pos <= scan_digits_end(input, pos) <= input.len(),
    decreases input.len() - pos,
{
    if pos < input.len() && digit_char(input[pos]) {
        lemma_scan_digits_end_bounds(input, pos + 1);
    }
}

proof fn lemma_scan_command_end_bounds(input: Seq<char>, pos: int)
    requires
        0 <= pos <= input.len(),
    ensures
        pos <= scan_command_end(input, pos) <= input.len(),
    decreases input.len() - pos,
{
    if pos < input.len() && !command_separator_char(input[pos]) {
        lemma_scan_command_end_bounds(input, pos + 1);
    }
}

/// The fixed command table: the kind a backslash command name maps to.
pub open spec fn spec_command_kind(name: Seq<char>) -> Option<TokenKind> {
    if name == "wedge"@ {
        Some(TokenKind::Wedge)
    } else if name == "cdot"@ {
        Some(TokenKind::Dot)
    } else if name == "frac"@ {
        Some(TokenKind::Frac)
    } else if name == "hat"@ {
        Some(TokenKind::Hat)
    } else {
        None
    }
}

/// Character-by-character string comparison, proved equivalent to view
/// equality.
fn str_equal(a: &str, b: &str) -> (r: bool)
    ensures
        r == (a@ == b@),
{
    let la = a.unicode_len();
    let lb = b.unicode_len();
    if la != lb {
        return false;
    }
    let mut i: usize = 0;
    while i < la
        invariant
            i <= la,
            la as nat == a@.len(),
            la as nat == b@.len(),
            forall|j: int| 0 <= j < i ==> a@[j] == b@[j],
        decreases la - i,
    {
        if a.get_char(i) != b.get_char(i) {
            return false;
        }
        i = i + 1;
    }
    proof {
        assert(a@ =~= b@);
    }
    true
}

fn command_kind(name: &str) -> (r: Option<TokenKind>)
    ensures
        r == spec_command_kind(name@),
{
    if str_equal(name, "wedge") {
        Some(TokenKind::Wedge)
    } else if str_equal(name, "cdot") {
        Some(TokenKind::Dot)
    } else if str_equal(name, "frac") {
        Some(TokenKind::Frac)
    } else if str_equal(name, "hat") {
        Some(TokenKind::Hat)
    } else {
        None
    }
}

/// What one step of the lexer yields at position `pos`: the token and the
/// position right after it, or the lexical error. At or past the end it
/// yields the end marker without advancing.
pub open spec fn spec_next_token(input: Seq<char>, pos: int) -> Result<(Token, int), ErrorView> {
    if pos < 0 || pos >= input.len() {
        Ok((Token { kind: TokenKind::EOF, start: pos as usize, end: pos as usize }, pos))
    } else {
        let c = input[pos];
        if whitespace_char(c) {
            let e = scan_whitespace_end(input, pos + 1);
            Ok(
                (
                    Token {
                        kind: TokenKind::WhiteSpace,
                        start: pos as usize,
                        end: (e - 1) as usize,
                    },
                    e,
                ),
            )
        } else if c == '\\' {
            let e = scan_command_end(input, pos + 1);
            let name = input.subrange(pos + 1, e);
            match spec_command_kind(name) {
                Some(k) => Ok(
                    (Token { kind: k, start: pos as usize, end: (e - 1) as usize }, e),
                ),
                None => Err(ErrorView::UnsupportedCommand { name }),
            }
        } else if digit_char(c) {
            let e = scan_digits_end(input, pos + 1);
            Ok((Token { kind: TokenKind::Int, start: pos as usize, end: (e - 1) as usize }, e))
        } else if c == '+' {
            spec_single_token(TokenKind::Plus, pos)
        } else if c == '-' {
            spec_single_token(TokenKind::Minus, pos)
        } else if c == '*' {
            spec_single_token(TokenKind::Multiply, pos)
        } else if c == '/' {
            spec_single_token(TokenKind::Divide, pos)
        } else if c == '{' {
            spec_single_token(TokenKind::LeftBrace, pos)
        } else if c == '}' {
            spec_single_token(TokenKind::RightBrace, pos)
        } else if c == '[' {
            spec_single_token(TokenKind::LeftBracket, pos)
        } else if c == ']' {
            spec_single_token(TokenKind::RightBracket, pos)
        } else if c == '(' {
            spec_single_token(TokenKind::LeftParen, pos)
        } else if c == ')' {
            spec_single_token(TokenKind::RightParen, pos)
        } else if c == '_' {
            spec_single_token(TokenKind::Underscore, pos)
        } else if c == '^' {
            spec_single_token(TokenKind::Carrot, pos)
        } else if alphabetic_char(c) {
            let e = scan_alphabetic_end(input, pos + 1);
            Ok(
                (
                    Token {
                        kind: TokenKind::Identifier,
                        start: pos as usize,
                        end: (e - 1) as usize,
                    },
                    e,
                ),
            )
        } else {
            Err(ErrorView::UnsupportedCharacter { ch: c })
        }
    }
}

pub open spec fn spec_single_token(kind: TokenKind, pos: int) -> Result<(Token, int), ErrorView> {
    Ok((Token { kind, start: pos as usize, end: pos as usize }, pos + 1))
}

/// A successful non-end token always moves the scan strictly forward,
/// never past the end of the input.
pub proof fn lemma_next_token_advance(input: Seq<char>, pos: int)
    requires
        0 <= pos,
    ensures
        match spec_next_token(input, pos) {
            Ok(te) => te.0.kind != TokenKind::EOF ==> pos < te.1 <= input.len(),
            Err(_) => true,
        },
{
    if pos < input.len() {
        lemma_scan_whitespace_end_bounds(input, pos + 1);
        lemma_scan_alphabetic_end_bounds(input, pos + 1);
        lemma_scan_digits_end_bounds(input, pos + 1);
        lemma_scan_command_end_bounds(input, pos + 1);
    }
}

/// For inputs short enough to index with a machine word, a successful
/// non-end token starts at `pos` and covers exactly the consumed span.
pub proof fn lemma_next_token_bounds(input: Seq<char>, pos: int)
    requires
        0 <= pos,
        input.len() <= usize::MAX,
    ensures
        match spec_next_token(input, pos) {
            Ok(te) => te.0.kind != TokenKind::EOF ==> {
                &&& pos < te.1 <= input.len()
                &&& te.0.start == pos
                &&& te.0.start <= te.0.end
                &&& te.0.end + 1 == te.1
            },
            Err(_) => true,
        },
{
    lemma_next_token_advance(input, pos);
}

/// The whitespace-free token sequence of the input from `pos` on, or the
/// first lexical error.
pub open spec fn spec_tokens(input: Seq<char>, pos: int) -> Result<Seq<Token>, ErrorView>
    decreases input.len() - pos,
        via spec_tokens_decreases
{
    if pos < 0 {
        Ok(Seq::empty())
    } else {
        match spec_next_token(input, pos) {
            Err(e) => Err(e),
            Ok(te) => {
                if te.0.kind == TokenKind::EOF {
                    Ok(Seq::empty())
                } else {
                    match spec_tokens(input, te.1) {
                        Err(e) => Err(e),
                        Ok(rest) => {
                            if te.0.kind == TokenKind::WhiteSpace {
                                Ok(rest)
                            } else {
                                Ok(seq![te.0] + rest)
                            }
                        },
                    }
                }
            },
        }
    }
}

#[via_fn]
proof fn spec_tokens_decreases(input: Seq<char>, pos: int) {
    if pos >= 0 {
        lemma_next_token_advance(input, pos);
    }
}

/// The lexer: a scan cursor over the input text. The cursor only ever
/// moves forward.
pub struct Lexer {
    pub input: String,
    pub pos: usize,
    pub len: usize,
}

impl Lexer {
    pub open spec fn wf(self) -> bool {
        self.len as nat == self.input@.len() && self.pos <= self.len
    }

    pub fn new(input: &str) -> (r: Lexer)
        ensures
            r.wf(),
            r.input@ == input@,
            r.pos == 0,
    {
        let owned = input.to_owned();
        let len = owned.as_str().unicode_len();
        Lexer { input: owned, pos: 0, len }
    }

    fn whitespace(&mut self, start: usize) -> (t: Token)
        requires
            old(self).wf(),
            1 <= old(self).pos,
        ensures
            final(self).wf(),
            final(self).input@ == old(self).input@,
            final(self).len == old(self).len,
            final(self).pos as int == scan_whitespace_end(old(self).input@, old(self).pos as int),
            old(self).pos <= final(self).pos,
            t == (Token { kind: TokenKind::WhiteSpace, start, end: (final(self).pos - 1) as usize }),
    {
        while self.pos < self.len && char_is_whitespace(self.input.as_str().get_char(self.pos))
            invariant
                self.wf(),
                self.input@ == old(self).input@,
                self.len == old(self).len,
                old(self).pos <= self.pos,
                scan_whitespace_end(self.input@, old(self).pos as int) == scan_whitespace_end(
                    self.input@,
                    self.pos as int,
                ),
            decreases self.len - self.pos,
        {
            self.pos = self.pos + 1;
        }
        Token::new(TokenKind::WhiteSpace, start, self.pos - 1)
    }

    fn latex_command(&mut self, start: usize) -> (r: Result<Token, ParseError>)
        requires
            old(self).wf(),
            old(self).pos == start + 1,
            start < old(self).len,
        ensures
            final(self).wf(),
            final(self).input@ == old(self).input@,
            final(self).len == old(self).len,
            ({
                let e = scan_command_end(old(self).input@, start + 1);
                let name = old(self).input@.subrange(start + 1, e);
                match spec_command_kind(name) {
                    Some(k) => r matches Ok(t) && t == (Token {
                        kind: k,
                        start,
                        end: (e - 1) as usize,
                    }) && final(self).pos as int == e,
                    None => r matches Err(pe) && pe@ == (ErrorView::UnsupportedCommand { name }),
                }
            }),
    {
        proof {
            lemma_scan_command_end_bounds(self.input@, start + 1);
        }
        while self.pos < self.len && !is_separator(self.input.as_str().get_char(self.pos))
            invariant
                self.wf(),
                self.input@ == old(self).input@,
                self.len == old(self).len,
                old(self).pos <= self.pos,
                scan_command_end(self.input@, old(self).pos as int) == scan_command_end(
                    self.input@,
                    self.pos as int,
                ),
            decreases self.len - self.pos,
        {
            self.pos = self.pos + 1;
        }
        let name = self.input.as_str().substring_char(start + 1, self.pos);
        match command_kind(name) {
            Some(k) => Ok(Token::new(k, start, self.pos - 1)),
            None => Err(ParseError::UnsupportedCommand { name: name.to_owned() }),
        }
    }

    fn number(&mut self, start: usize) -> (t: Token)
        requires
            old(self).wf(),
            1 <= old(self).pos,
        ensures
            final(self).wf(),
            final(self).input@ == old(self).input@,
            final(self).len == old(self).len,
            final(self).pos as int == scan_digits_end(old(self).input@, old(self).pos as int),
            old(self).pos <= final(self).pos,
            t == (Token { kind: TokenKind::Int, start, end: (final(self).pos - 1) as usize }),
    {
        while self.pos < self.len && is_ascii_digit_char(self.input.as_str().get_char(self.pos))
            invariant
                self.wf(),
                self.input@ == old(self).input@,
                self.len == old(self).len,
                old(self).pos <= self.pos,
                scan_digits_end(self.input@, old(self).pos as int) == scan_digits_end(
                    self.input@,
                    self.pos as int,
                ),
            decreases self.len - self.pos,
        {
            self.pos = self.pos + 1;
        }
        Token::new(TokenKind::Int, start, self.pos - 1)
    }

    fn identifier(&mut self, start: usize) -> (t: Token)
        requires
            old(self).wf(),
            1 <= old(self).pos,
        ensures
            final(self).wf(),
            final(self).input@ == old(self).input@,
            final(self).len == old(self).len,
            final(self).pos as int == scan_alphabetic_end(old(self).input@, old(self).pos as int),
            old(self).pos <= final(self).pos,
            t == (Token { kind: TokenKind::Identifier, start, end: (final(self).pos - 1) as usize }),
    {
        while self.pos < self.len && char_is_alphabetic(self.input.as_str().get_char(self.pos))
            invariant
                self.wf(),
                self.input@ == old(self).input@,
                self.len == old(self).len,
                old(self).pos <= self.pos,
                scan_alphabetic_end(self.input@, old(self).pos as int) == scan_alphabetic_end(
                    self.input@,
                    self.pos as int,
                ),
            decreases self.len - self.pos,
        {
            self.pos = self.pos + 1;
        }
        Token::new(TokenKind::Identifier, start, self.pos - 1)
    }

    fn latex(&mut self, c: char, start: usize) -> (r: Result<Token, ParseError>)
        requires
            old(self).wf(),
            old(self).pos == start + 1,
            start < old(self).len,
            c == old(self).input@[start as int],
            !whitespace_char(c),
        ensures
            final(self).wf(),
            final(self).input@ == old(self).input@,
            final(self).len == old(self).len,
            match spec_next_token(old(self).input@, start as int) {
                Ok(te) => r matches Ok(t) && t == te.0 && final(self).pos as int == te.1,
                Err(e) => r matches Err(pe) && pe@ == e,
            },
    {
        if c == '\\' {
            self.latex_command(start)
        } else if is_ascii_digit_char(c) {
            Ok(self.number(start))
        } else if c == '+' {
            Ok(Token::single(TokenKind::Plus, start))
        } else if c == '-' {
            Ok(Token::single(TokenKind::Minus, start))
        } else if c == '*' {
            Ok(Token::single(TokenKind::Multiply, start))
        } else if c == '/' {
            Ok(Token::single(TokenKind::Divide, start))
        } else if c == '{' {
            Ok(Token::single(TokenKind::LeftBrace, start))
        } else if c == '}' {
            Ok(Token::single(TokenKind::RightBrace, start))
        } else if c == '[' {
            Ok(Token::single(TokenKind::LeftBracket, start))
        } else if c == ']' {
            Ok(Token::single(TokenKind::RightBracket, start))
        } else if c == '(' {
            Ok(Token::single(TokenKind::LeftParen, start))
        } else if c == ')' {
            Ok(Token::single(TokenKind::RightParen, start))
        } else if c == '_' {
            Ok(Token::single(TokenKind::Underscore, start))
        } else if c == '^' {
            Ok(Token::single(TokenKind::Carrot, start))
        } else if char_is_alphabetic(c) {
            Ok(self.identifier(start))
        } else {
            Err(ParseError::UnsupportedCharacter { ch: c })
        }
    }

    /// One lexing step: the next token, or the end marker once the cursor
    /// has reached the end of the input.
    pub fn next(&mut self) -> (r: Result<Token, ParseError>)
        requires
            old(self).wf(),
        ensures
            final(self).wf(),
            final(self).input@ == old(self).input@,
            final(self).len == old(self).len,
            match spec_next_token(old(self).input@, old(self).pos as int) {
                Ok(te) => r matches Ok(t) && t == te.0 && final(self).pos as int == te.1,
                Err(e) => r matches Err(pe) && pe@ == e,
            },
    {
        let start = self.pos;
        if start >= self.len {
            return Ok(Token::end(start));
        }
        let c = self.input.as_str().get_char(start);
        self.pos = start + 1;
        if char_is_whitespace(c) {
            Ok(self.whitespace(start))
        } else {
            self.latex(c, start)
        }
    }
}

} // verus!
