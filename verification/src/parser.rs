use vstd::prelude::*;
use vstd::string::*;

use crate::error::ErrorView;
use crate::error::ParseError;
use crate::lexer::digit_char;
use crate::lexer::is_ascii_digit_char;
use crate::lexer::spec_tokens;
use crate::lexer::lemma_next_token_bounds;
use crate::lexer::Lexer;
use crate::lexer::Token;
use crate::lexer::TokenKind;
use crate::token_set::is_operator;
use crate::token_set::is_prefix_binary_operator;
use crate::token_set::is_prefix_unary_command;
use crate::token_set::is_prefix_unary_operator;
use crate::token_set::is_sub_sup_operator;
use crate::token_set::operators;
use crate::token_set::prefix_binary_operators;
use crate::token_set::prefix_uniary_commands_operators;
use crate::token_set::prefix_uniary_operators;
use crate::token_set::sub_sup_operators;
use crate::token_set::TokenKindSet;

verus! {

/// The abstract syntax tree produced by the parser. Subtrees are owned
/// exclusively; the tree is acyclic with no parent links.
#[derive(Debug, PartialEq)]
pub enum ASTNode {
    Identifier { name: String },
    Int { value: i64 },
    BinaryOpNode { op: TokenKind, left: Box<ASTNode>, right: Box<ASTNode> },
    UnaryOpNode { op: TokenKind, operand: Box<ASTNode> },
}

/// The mathematical value of an `ASTNode`: identifier names are read as
/// character sequences.
pub enum AstView {
    Identifier { name: Seq<char> },
    Int { value: i64 },
    BinaryOpNode { op: TokenKind, left: Box<AstView>, right: Box<AstView> },
    UnaryOpNode { op: TokenKind, operand: Box<AstView> },
}

pub open spec fn ast_view(n: ASTNode) -> AstView
    decreases n,
{
    match n {
        ASTNode::Identifier { name } => AstView::Identifier { name: name@ },
        ASTNode::Int { value } => AstView::Int { value },
        ASTNode::BinaryOpNode { op, left, right } => AstView::BinaryOpNode {
            op,
            left: Box::new(ast_view(*left)),
            right: Box::new(ast_view(*right)),
        },
        ASTNode::UnaryOpNode { op, operand } => AstView::UnaryOpNode {
            op,
            operand: Box::new(ast_view(*operand)),
        },
    }
}

impl View for ASTNode {
    type V = AstView;

    open spec fn view(&self) -> AstView {
        ast_view(*self)
    }
}

pub open spec fn binary_view(op: TokenKind, left: AstView, right: AstView) -> AstView {
    AstView::BinaryOpNode { op, left: Box::new(left), right: Box::new(right) }
}

pub open spec fn unary_view(op: TokenKind, operand: AstView) -> AstView {
    AstView::UnaryOpNode { op, operand: Box::new(operand) }
}

/// The identifier leaf for the source text covered by `t`.
pub open spec fn ident_view(input: Seq<char>, t: Token) -> AstView {
    AstView::Identifier { name: input.subrange(t.start as int, t.end as int + 1) }
}

impl ASTNode {
    pub fn binary(op: TokenKind, lhs: ASTNode, rhs: ASTNode) -> (r: ASTNode)
        ensures
            r@ == binary_view(op, lhs@, rhs@),
    {
        ASTNode::BinaryOpNode { op, left: Box::new(lhs), right: Box::new(rhs) }
    }
}

/// A token kind that can stand on its own as an atom.
pub open spec fn ident_or_numeric_kind(k: TokenKind) -> bool {
    k == TokenKind::Identifier || k.spec_is_numeric()
}

impl TokenKind {
    pub fn is_identifier(self) -> (r: bool)
        ensures
            r == (self == TokenKind::Identifier),
    {
        matches!(self, TokenKind::Identifier)
    }

    pub fn ident_or_numeric(self) -> (r: bool)
        ensures
            r == ident_or_numeric_kind(self),
    {
        matches!(self, TokenKind::Identifier | TokenKind::Int | TokenKind::Float | TokenKind::Numeric)
    }
}

/// The numeric value of a digit sequence, most significant digit first.
pub open spec fn digits_val(s: Seq<char>) -> int
    decreases s.len(),
{
    if s.len() == 0 {
        0
    } else {
        digits_val(s.drop_last()) * 10 + (s.last() as u32 - 48)
    }
}

pub open spec fn all_digits(s: Seq<char>) -> bool {
    forall|i: int| 0 <= i < s.len() ==> digit_char(#[trigger] s[i])
}

/// The 64-bit value of a digit run, or `None` when the run is empty,
/// holds a non-digit, or overflows.
pub open spec fn spec_atoi(s: Seq<char>) -> Option<i64> {
    if s.len() == 0 || !all_digits(s) {
        None
    } else if digits_val(s) > i64::MAX {
        None
    } else {
        Some(digits_val(s) as i64)
    }
}

proof fn lemma_digits_val_nonneg(s: Seq<char>)
    requires
        all_digits(s),
    ensures
        digits_val(s) >= 0,
    decreases s.len(),
{
    if s.len() > 0 {
        assert(all_digits(s.drop_last()));
        lemma_digits_val_nonneg(s.drop_last());
        assert(s.last() as u32 >= 48);
    }
}

proof fn lemma_digits_val_prefix_le(s: Seq<char>, i: int)
    requires
        all_digits(s),
        0 <= i <= s.len(),
    ensures
        digits_val(s.take(i)) <= digits_val(s),
    decreases s.len() - i,
{
    if i == s.len() {
        assert(s.take(i) =~= s);
    } else {
        lemma_digits_val_prefix_le(s, i + 1);
        assert(s.take(i + 1).drop_last() =~= s.take(i));
        assert(s.take(i + 1).last() == s[i]);
        assert(all_digits(s.take(i))) by {
            assert(forall|j: int| 0 <= j < i ==> s.take(i)[j] == s[j]);
        }
        lemma_digits_val_nonneg(s.take(i));
        assert(digits_val(s.take(i + 1)) == digits_val(s.take(i)) * 10 + (s[i] as u32 - 48));
        assert(digits_val(s.take(i)) * 10 >= digits_val(s.take(i)));
        assert(s[i] as u32 >= 48);
    }
}

/// Reads a digit run as a 64-bit signed integer, reporting overflow and
/// stray non-digits as `None`.
fn atoi(s: &str) -> (r: Option<i64>)
    ensures
        r == spec_atoi(s@),
{
    let n = s.unicode_len();
    if n == 0 {
        return None;
    }
    let mut value: i64 = 0;
    let mut i: usize = 0;
    while i < n
        invariant
            0 <= i <= n,
            n as nat == s@.len(),
            all_digits(s@.take(i as int)),
            0 <= value,
            value as int == digits_val(s@.take(i as int)),
        decreases n - i,
    {
        let c = s.get_char(i);
        if !is_ascii_digit_char(c) {
            proof {
                assert(!digit_char(s@[i as int]));
                assert(!all_digits(s@));
            }
            return None;
        }
        let d = (c as u32 - 48) as i64;
        proof {
            assert(s@.take(i + 1).drop_last() =~= s@.take(i as int));
            assert(s@.take(i + 1).last() == s@[i as int]);
            assert(all_digits(s@.take(i + 1)));
            assert(digits_val(s@.take(i + 1)) == value * 10 + d);
        }
        if value > (9223372036854775807i64 - d) / 10 {
            proof {
                assert(value * 10 + d > i64::MAX) by (nonlinear_arith)
                    requires
                        0 <= d <= 9,
                        value > (9223372036854775807i64 - d) / 10,
                        value >= 0,
                ;
                if all_digits(s@) {
                    lemma_digits_val_prefix_le(s@, i + 1);
                    assert(digits_val(s@) > i64::MAX);
                }
            }
            return None;
        }
        proof {
            assert(value * 10 + d <= i64::MAX) by (nonlinear_arith)
                requires
                    0 <= d <= 9,
                    value <= (9223372036854775807i64 - d) / 10,
                    value >= 0,
            ;
        }
        value = value * 10 + d;
        i = i + 1;
    }
    proof {
        assert(s@.take(n as int) =~= s@);
    }
    Some(value)
}

/// The token the parser sees at `pos`: the stored token, or the end
/// marker at or past the end of the stream.
pub open spec fn tok_at(t: Seq<Token>, pos: int) -> Token {
    if 0 <= pos < t.len() {
        t[pos]
    } else {
        Token { kind: TokenKind::EOF, start: 0, end: 0 }
    }
}

/// A sub-parse moved the cursor strictly forward and stayed inside the
/// stream; every successful sub-parse does, and the recursion below is
/// well founded because of it.
pub open spec fn advanced(t: Seq<Token>, pos: int, p2: int) -> bool {
    pos < p2 <= t.len()
}

/// A stored token is a real span of the input: never the end marker, and
/// its inclusive character span lies inside the text.
pub open spec fn token_wf(t: Token, input: Seq<char>) -> bool {
    t.kind != TokenKind::EOF && t.start <= t.end && t.end < input.len()
}

pub open spec fn tokens_wf(tokens: Seq<Token>, input: Seq<char>) -> bool {
    forall|i: int| 0 <= i < tokens.len() ==> token_wf(#[trigger] tokens[i], input)
}

/// Binding power of `+`/`-` used as a prefix sign.
pub fn prefix_binding_power(op: &Token) -> (r: u8)
    requires
        is_prefix_unary_operator(op.kind),
    ensures
        r == 7u8,
{
    7
}

/// The binding power pair of each infix operator class. The ordering is
/// the domain convention: sub/sup over wedge/dot over multiplication over
/// the additive operators.
pub open spec fn spec_infix_binding_power(k: TokenKind) -> Option<(u8, u8)> {
    match k {
        TokenKind::Plus | TokenKind::Minus => Some((3u8, 4u8)),
        TokenKind::Multiply | TokenKind::Divide => Some((5u8, 6u8)),
        TokenKind::Wedge | TokenKind::Dot => Some((6u8, 7u8)),
        TokenKind::Carrot | TokenKind::Underscore => Some((7u8, 8u8)),
        _ => None,
    }
}

pub fn infix_binding_power(op: &TokenKind) -> (r: Option<(u8, u8)>)
    ensures
        r == spec_infix_binding_power(*op),
{
    match op {
        TokenKind::Plus | TokenKind::Minus => Some((3, 4)),
        TokenKind::Multiply | TokenKind::Divide => Some((5, 6)),
        TokenKind::Wedge | TokenKind::Dot => Some((6, 7)),
        TokenKind::Carrot | TokenKind::Underscore => Some((7, 8)),
        _ => None,
    }
}

/// What the leading token at `pos` denotes: an atom, a parenthesized
/// group, a sign, or a command with its mandatory braced arguments.
pub open spec fn spec_parse_leading(input: Seq<char>, t: Seq<Token>, pos: int) -> Result<
    (AstView, int),
    ErrorView,
>
    decreases t.len() - pos, 1int,
{
    let tok = tok_at(t, pos);
    if tok.kind == TokenKind::Identifier {
        Ok((ident_view(input, tok), pos + 1))
    } else if tok.kind.spec_is_numeric() {
        match spec_atoi(input.subrange(tok.start as int, tok.end as int + 1)) {
            Some(v) => Ok((AstView::Int { value: v }, pos + 1)),
            None => Err(ErrorView::MalformedNumericLiteral { token: tok }),
        }
    } else if tok.kind == TokenKind::LeftParen {
        match spec_parse_expr(input, t, pos + 1, 0) {
            Err(e) => Err(e),
            Ok(ap) => if tok_at(t, ap.1).kind == TokenKind::RightParen {
                Ok((ap.0, ap.1 + 1))
            } else {
                Err(ErrorView::UnbalancedGrouping { token: tok_at(t, ap.1) })
            },
        }
    } else if is_prefix_unary_operator(tok.kind) {
        match spec_parse_expr(input, t, pos + 1, 7) {
            Err(e) => Err(e),
            Ok(ap) => Ok((unary_view(tok.kind, ap.0), ap.1)),
        }
    } else if is_prefix_unary_command(tok.kind) {
        match spec_parse_in_braces(input, t, pos + 1, 0) {
            Err(e) => Err(e),
            Ok(ap) => Ok((unary_view(tok.kind, ap.0), ap.1)),
        }
    } else if is_prefix_binary_operator(tok.kind) {
        match spec_parse_in_braces(input, t, pos + 1, 0) {
            Err(e) => Err(e),
            Ok(ap) => if advanced(t, pos, ap.1) {
                match spec_parse_in_braces(input, t, ap.1, 0) {
                    Err(e) => Err(e),
                    Ok(bp) => Ok((binary_view(tok.kind, ap.0, bp.0), bp.1)),
                }
            } else {
                Err(ErrorView::UnexpectedToken { token: tok_at(t, ap.1) })
            },
        }
    } else {
        Err(ErrorView::UnexpectedToken { token: tok })
    }
}

/// Precedence climbing from `pos`: parse a leading denotation, then fold
/// in operators whose left binding power reaches `min_bp`.
pub open spec fn spec_parse_expr(input: Seq<char>, t: Seq<Token>, pos: int, min_bp: u8) -> Result<
    (AstView, int),
    ErrorView,
>
    decreases t.len() - pos, 2int,
{
    match spec_parse_leading(input, t, pos) {
        Err(e) => Err(e),
        Ok(ap) => if advanced(t, pos, ap.1) {
            spec_parse_loop(input, t, ap.0, ap.1, min_bp)
        } else {
            Err(ErrorView::UnexpectedToken { token: tok_at(t, pos) })
        },
    }
}

/// The continuation loop: starting from `lhs` at `pos`, keep folding in
/// sub/sup bindings, implicit multiplications, and infix operators with
/// enough binding power; stop at the end marker, a closing bracket, or an
/// operator belonging to an outer context.
pub open spec fn spec_parse_loop(
    input: Seq<char>,
    t: Seq<Token>,
    lhs: AstView,
    pos: int,
    min_bp: u8,
) -> Result<(AstView, int), ErrorView>
    decreases t.len() - pos, 3int,
{
    let tok = tok_at(t, pos);
    if tok.kind == TokenKind::EOF {
        Ok((lhs, pos))
    } else if !(is_operator(tok.kind) || ident_or_numeric_kind(tok.kind)) {
        Err(ErrorView::UnexpectedToken { token: tok })
    } else if is_sub_sup_operator(tok.kind) {
        match spec_parse_sub_sup(input, t, pos + 1) {
            Err(e) => Err(e),
            Ok(ap) => if advanced(t, pos, ap.1) {
                spec_parse_loop(input, t, binary_view(tok.kind, lhs, ap.0), ap.1, min_bp)
            } else {
                Err(ErrorView::UnexpectedToken { token: tok })
            },
        }
    } else if tok.kind == TokenKind::LeftParen || ident_or_numeric_kind(tok.kind) {
        if 5u8 < min_bp {
            Ok((lhs, pos))
        } else {
            match spec_parse_expr(input, t, pos, 6) {
                Err(e) => Err(e),
                Ok(ap) => if advanced(t, pos, ap.1) {
                    spec_parse_loop(
                        input,
                        t,
                        binary_view(TokenKind::Multiply, lhs, ap.0),
                        ap.1,
                        min_bp,
                    )
                } else {
                    Err(ErrorView::UnexpectedToken { token: tok })
                },
            }
        }
    } else {
        match spec_infix_binding_power(tok.kind) {
            Some(bp) => if bp.0 < min_bp {
                Ok((lhs, pos))
            } else {
                match spec_parse_expr(input, t, pos + 1, bp.1) {
                    Err(e) => Err(e),
                    Ok(ap) => if advanced(t, pos, ap.1) {
                        spec_parse_loop(input, t, binary_view(tok.kind, lhs, ap.0), ap.1, min_bp)
                    } else {
                        Err(ErrorView::UnexpectedToken { token: tok })
                    },
                }
            },
            None => Ok((lhs, pos)),
        }
    }
}

/// A mandatory braced group: `{`, a full expression, `}`.
pub open spec fn spec_parse_in_braces(input: Seq<char>, t: Seq<Token>, pos: int, min_bp: u8) -> Result<
    (AstView, int),
    ErrorView,
>
    decreases t.len() - pos, 0int,
{
    let tok = tok_at(t, pos);
    if tok.kind != TokenKind::LeftBrace {
        Err(ErrorView::UnexpectedToken { token: tok })
    } else {
        match spec_parse_expr(input, t, pos + 1, min_bp) {
            Err(e) => Err(e),
            Ok(ap) => if tok_at(t, ap.1).kind == TokenKind::RightBrace {
                Ok((ap.0, ap.1 + 1))
            } else {
                Err(ErrorView::UnbalancedGrouping { token: tok_at(t, ap.1) })
            },
        }
    }
}

/// The restricted right-hand side of `_` and `^`: a braced expression, or
/// one single identifier-or-numeric atom, never a bare infix expression.
pub open spec fn spec_parse_sub_sup(input: Seq<char>, t: Seq<Token>, pos: int) -> Result<
    (AstView, int),
    ErrorView,
>
    decreases t.len() - pos, 1int,
{
    let tok = tok_at(t, pos);
    if tok.kind == TokenKind::LeftBrace {
        spec_parse_in_braces(input, t, pos, 0)
    } else if tok.kind.spec_is_numeric() {
        Ok((ident_view(input, tok), pos + 1))
    } else if tok.kind == TokenKind::Identifier {
        Ok((ident_view(input, tok), pos + 1))
    } else {
        Err(ErrorView::UnexpectedToken { token: tok })
    }
}

/// A whole expression from `pos`, with nothing allowed to follow it.
pub open spec fn spec_parse_at(input: Seq<char>, t: Seq<Token>, pos: int) -> Result<
    AstView,
    ErrorView,
> {
    match spec_parse_expr(input, t, pos, 0) {
        Err(e) => Err(e),
        Ok(ap) => if ap.1 < t.len() {
            Err(ErrorView::UnexpectedToken { token: tok_at(t, ap.1) })
        } else {
            Ok(ap.0)
        },
    }
}

/// What parsing a source text yields: the token sequence's single
/// expression tree, or the first lexical or syntactic error.
pub open spec fn spec_parse(input: Seq<char>) -> Result<AstView, ErrorView> {
    match spec_tokens(input, 0) {
        Err(e) => Err(e),
        Ok(ts) => spec_parse_at(input, ts, 0),
    }
}

/// The parser's working stream: the whitespace-free tokens in source
/// order, consumed front to back.
pub struct TokenStream {
    pub tokens: Vec<Token>,
    pub cursor: usize,
}

impl TokenStream {
    /// Lexes the whole input, discarding whitespace tokens.
    pub fn new(input: &str) -> (r: Result<TokenStream, ParseError>)
        ensures
            input@.len() <= usize::MAX,
            match spec_tokens(input@, 0) {
                Ok(ts) => r matches Ok(st) && st.tokens@ == ts && st.cursor == 0 && tokens_wf(
                    ts,
                    input@,
                ),
                Err(e) => r matches Err(pe) && pe@ == e,
            },
    {
        let mut lexer = Lexer::new(input);
        let mut tokens: Vec<Token> = Vec::new();
        loop
            invariant
                lexer.wf(),
                lexer.input@ == input@,
                input@.len() <= usize::MAX,
                tokens_wf(tokens@, input@),
                match spec_tokens(input@, lexer.pos as int) {
                    Ok(rest) => spec_tokens(input@, 0) == Ok::<Seq<Token>, ErrorView>(
                        tokens@ + rest,
                    ),
                    Err(e) => spec_tokens(input@, 0) == Err::<Seq<Token>, ErrorView>(e),
                },
            decreases lexer.len - lexer.pos,
        {
            let ghost prev = lexer.pos as int;
            let tr = lexer.next();
            match tr {
                Err(e) => {
                    return Err(e);
                },
                Ok(token) => {
                    if token.kind == TokenKind::EOF {
                        proof {
                            assert(tokens@ + Seq::<Token>::empty() =~= tokens@);
                        }
                        return Ok(TokenStream { tokens, cursor: 0 });
                    }
                    proof {
                        lemma_next_token_bounds(input@, prev);
                        match spec_tokens(input@, lexer.pos as int) {
                            Ok(rest) => {
                                if token.kind == TokenKind::WhiteSpace {
                                } else {
                                    assert(tokens@ + (seq![token] + rest) =~= tokens@.push(token)
                                        + rest);
                                }
                            },
                            Err(_) => {},
                        }
                    }
                    if token.kind != TokenKind::WhiteSpace {
                        tokens.push(token);
                    }
                },
            }
        }
    }

    /// Pops the next token, or the end marker once the stream is spent.
    pub fn next(&mut self) -> (t: Token)
        requires
            old(self).cursor <= old(self).tokens@.len(),
        ensures
            final(self).tokens@ == old(self).tokens@,
            t == tok_at(old(self).tokens@, old(self).cursor as int),
            final(self).cursor as int == if old(self).cursor < old(self).tokens@.len() {
                old(self).cursor + 1
            } else {
                old(self).cursor as int
            },
    {
        if self.cursor < self.tokens.len() {
            let t = self.tokens[self.cursor];
            self.cursor = self.cursor + 1;
            t
        } else {
            Token::end(0)
        }
    }

    /// The next token without consuming it.
    pub fn peek(&self) -> (t: Token)
        ensures
            t == tok_at(self.tokens@, self.cursor as int),
    {
        if self.cursor < self.tokens.len() {
            self.tokens[self.cursor]
        } else {
            Token::end(0)
        }
    }
}

/// Extracts the source text covered by an inclusive character span.
fn text_of(input: &String, start: usize, end: usize) -> (s: String)
    requires
        start <= end < input@.len(),
        input@.len() <= usize::MAX,
    ensures
        s@ == input@.subrange(start as int, end as int + 1),
{
    input.as_str().substring_char(start, end + 1).to_owned()
}

/// The Pratt parser over a token stream, holding the classification sets
/// its dispatch queries.
pub struct Parser {
    pub input: String,
    pub stream: TokenStream,
    pub prefix_uniary_operators: TokenKindSet,
    pub prefix_uniary_commands_operators: TokenKindSet,
    pub prefix_binary_operators: TokenKindSet,
    pub sub_sup_operators: TokenKindSet,
    pub operators: TokenKindSet,
}

impl Parser {
    pub open spec fn wf(self) -> bool {
        &&& self.input@.len() <= usize::MAX
        &&& self.stream.cursor <= self.stream.tokens@.len()
        &&& tokens_wf(self.stream.tokens@, self.input@)
        &&& forall|k: TokenKind| #[trigger]
            self.operators.spec_contains(k) == is_operator(k)
        &&& forall|k: TokenKind| #[trigger]
            self.prefix_uniary_operators.spec_contains(k) == is_prefix_unary_operator(k)
        &&& forall|k: TokenKind| #[trigger]
            self.prefix_uniary_commands_operators.spec_contains(k) == is_prefix_unary_command(k)
        &&& forall|k: TokenKind| #[trigger]
            self.prefix_binary_operators.spec_contains(k) == is_prefix_binary_operator(k)
        &&& forall|k: TokenKind| #[trigger]
            self.sub_sup_operators.spec_contains(k) == is_sub_sup_operator(k)
    }

    /// Lexes the input and readies the stream; the first lexical error is
    /// reported here.
    pub fn new(input: &str) -> (r: Result<Parser, ParseError>)
        ensures
            match spec_tokens(input@, 0) {
                Ok(ts) => r matches Ok(p) && p.wf() && p.input@ == input@ && p.stream.tokens@ == ts
                    && p.stream.cursor == 0,
                Err(e) => r matches Err(pe) && pe@ == e,
            },
    {
        match TokenStream::new(input) {
            Err(e) => Err(e),
            Ok(stream) => Ok(
                Parser {
                    input: input.to_owned(),
                    stream,
                    prefix_uniary_operators: prefix_uniary_operators(),
                    prefix_uniary_commands_operators: prefix_uniary_commands_operators(),
                    prefix_binary_operators: prefix_binary_operators(),
                    sub_sup_operators: sub_sup_operators(),
                    operators: operators(),
                },
            ),
        }
    }

    /// Parses one whole expression; trailing tokens are an error.
    pub fn parse(&mut self) -> (r: Result<ASTNode, ParseError>)
        requires
            old(self).wf(),
        ensures
            final(self).wf(),
            final(self).input@ == old(self).input@,
            final(self).stream.tokens@ == old(self).stream.tokens@,
            match spec_parse_at(
                old(self).input@,
                old(self).stream.tokens@,
                old(self).stream.cursor as int,
            ) {
                Ok(a) => r matches Ok(node) && node@ == a,
                Err(e) => r matches Err(pe) && pe@ == e,
            },
    {
        match self.parse_expr(0) {
            Err(e) => Err(e),
            Ok(ast) => {
                let t = self.stream.peek();
                if t.kind == TokenKind::EOF {
                    Ok(ast)
                } else {
                    Err(ParseError::UnexpectedToken { token: t })
                }
            },
        }
    }

    /// A mandatory braced group: `{`, a full expression, `}`.
    pub fn parse_in_braces(&mut self, min_bp: u8) -> (r: Result<ASTNode, ParseError>)
        requires
            old(self).wf(),
        ensures
            final(self).wf(),
            final(self).input@ == old(self).input@,
            final(self).stream.tokens@ == old(self).stream.tokens@,
            match spec_parse_in_braces(
                old(self).input@,
                old(self).stream.tokens@,
                old(self).stream.cursor as int,
                min_bp,
            ) {
                Ok(ap) => r matches Ok(node) && node@ == ap.0 && final(self).stream.cursor as int
                    == ap.1,
                Err(e) => r matches Err(pe) && pe@ == e,
            },
            r is Ok ==> old(self).stream.cursor < final(self).stream.cursor,
        decreases old(self).stream.tokens@.len() - old(self).stream.cursor, 0int,
    {
        let next_token = self.stream.next();
        if next_token.kind != TokenKind::LeftBrace {
            return Err(ParseError::UnexpectedToken { token: next_token });
        }
        let expr = match self.parse_expr(min_bp) {
            Ok(v) => v,
            Err(e) => return Err(e),
        };
        let close = self.stream.next();
        if close.kind != TokenKind::RightBrace {
            return Err(ParseError::UnbalancedGrouping { token: close });
        }
        Ok(expr)
    }

    /// The restricted right-hand side of `_` and `^`: a braced expression
    /// or one single atom.
    pub fn parse_sub_sup(&mut self) -> (r: Result<ASTNode, ParseError>)
        requires
            old(self).wf(),
        ensures
            final(self).wf(),
            final(self).input@ == old(self).input@,
            final(self).stream.tokens@ == old(self).stream.tokens@,
            match spec_parse_sub_sup(
                old(self).input@,
                old(self).stream.tokens@,
                old(self).stream.cursor as int,
            ) {
                Ok(ap) => r matches Ok(node) && node@ == ap.0 && final(self).stream.cursor as int
                    == ap.1,
                Err(e) => r matches Err(pe) && pe@ == e,
            },
            r is Ok ==> old(self).stream.cursor < final(self).stream.cursor,
        decreases old(self).stream.tokens@.len() - old(self).stream.cursor, 1int,
    {
        let t = self.stream.peek();
        if t.kind == TokenKind::LeftBrace {
            self.parse_in_braces(0)
        } else if t.kind.is_numeric() {
            let _ = self.stream.next();
            let name = text_of(&self.input, t.start, t.end);
            Ok(ASTNode::Identifier { name })
        } else if t.kind.is_identifier() {
            let _ = self.stream.next();
            let name = text_of(&self.input, t.start, t.end);
            Ok(ASTNode::Identifier { name })
        } else {
            Err(ParseError::UnexpectedToken { token: t })
        }
    }

    /// Precedence climbing: a leading denotation, then the continuation
    /// loop folding in operators with enough binding power.
    #[verifier::loop_isolation(false)]
    fn parse_expr(&mut self, min_bp: u8) -> (r: Result<ASTNode, ParseError>)
        requires
            old(self).wf(),
        ensures
            final(self).wf(),
            final(self).input@ == old(self).input@,
            final(self).stream.tokens@ == old(self).stream.tokens@,
            match spec_parse_expr(
                old(self).input@,
                old(self).stream.tokens@,
                old(self).stream.cursor as int,
                min_bp,
            ) {
                Ok(ap) => r matches Ok(node) && node@ == ap.0 && final(self).stream.cursor as int
                    == ap.1,
                Err(e) => r matches Err(pe) && pe@ == e,
            },
            r is Ok ==> old(self).stream.cursor < final(self).stream.cursor,
        decreases old(self).stream.tokens@.len() - old(self).stream.cursor, 2int,
    {
        let ghost inp = self.input@;
        let ghost t_seq = self.stream.tokens@;
        let ghost pos0 = self.stream.cursor as int;
        let token = self.stream.next();
        let mut lhs: ASTNode;
        if token.kind.is_identifier() {
            let name = text_of(&self.input, token.start, token.end);
            lhs = ASTNode::Identifier { name };
        } else if token.kind.is_numeric() {
            let text = text_of(&self.input, token.start, token.end);
            match atoi(text.as_str()) {
                Some(value) => {
                    lhs = ASTNode::Int { value };
                },
                None => {
                    return Err(ParseError::MalformedNumericLiteral { token });
                },
            }
        } else if token.kind == TokenKind::LeftParen {
            let inner = match self.parse_expr(0) {
                Ok(v) => v,
                Err(e) => return Err(e),
            };
            let next_token = self.stream.next();
            if next_token.kind != TokenKind::RightParen {
                return Err(ParseError::UnbalancedGrouping { token: next_token });
            }
            lhs = inner;
        } else if self.prefix_uniary_operators.contains(token.kind) {
            let r_bp = prefix_binding_power(&token);
            let rhs = match self.parse_expr(r_bp) {
                Ok(v) => v,
                Err(e) => return Err(e),
            };
            lhs = ASTNode::UnaryOpNode { op: token.kind, operand: Box::new(rhs) };
        } else if self.prefix_uniary_commands_operators.contains(token.kind) {
            let rhs = match self.parse_in_braces(0) {
                Ok(v) => v,
                Err(e) => return Err(e),
            };
            lhs = ASTNode::UnaryOpNode { op: token.kind, operand: Box::new(rhs) };
        } else if self.prefix_binary_operators.contains(token.kind) {
            let first = match self.parse_in_braces(0) {
                Ok(v) => v,
                Err(e) => return Err(e),
            };
            let second = match self.parse_in_braces(0) {
                Ok(v) => v,
                Err(e) => return Err(e),
            };
            lhs = ASTNode::binary(token.kind, first, second);
        } else {
            return Err(ParseError::UnexpectedToken { token });
        }
        proof {
            assert(spec_parse_leading(inp, t_seq, pos0) == Ok::<(AstView, int), ErrorView>(
                (lhs@, self.stream.cursor as int),
            ));
        }
        let ghost target = spec_parse_expr(inp, t_seq, pos0, min_bp);
        loop
            invariant
                self.wf(),
                self.input@ == inp,
                self.stream.tokens@ == t_seq,
                pos0 < self.stream.cursor as int <= t_seq.len(),
                spec_parse_loop(inp, t_seq, lhs@, self.stream.cursor as int, min_bp) == target,
                target == spec_parse_expr(inp, t_seq, pos0, min_bp),
            decreases t_seq.len() - self.stream.cursor,
        {
            let op = self.stream.peek();
            if op.kind == TokenKind::EOF {
                return Ok(lhs);
            }
            if !(self.operators.contains(op.kind) || op.kind.ident_or_numeric()) {
                return Err(ParseError::UnexpectedToken { token: op });
            }
            if self.sub_sup_operators.contains(op.kind) {
                let _ = self.stream.next();
                let rhs = match self.parse_sub_sup() {
                    Ok(v) => v,
                    Err(e) => return Err(e),
                };
                lhs = ASTNode::binary(op.kind, lhs, rhs);
            } else if op.kind == TokenKind::LeftParen || op.kind.ident_or_numeric() {
                let bp = infix_binding_power(&TokenKind::Multiply).unwrap();
                if bp.0 < min_bp {
                    return Ok(lhs);
                }
                let rhs = match self.parse_expr(bp.1) {
                    Ok(v) => v,
                    Err(e) => return Err(e),
                };
                lhs = ASTNode::binary(TokenKind::Multiply, lhs, rhs);
            } else {
                match infix_binding_power(&op.kind) {
                    Some(bp) => {
                        if bp.0 < min_bp {
                            return Ok(lhs);
                        }
                        let _ = self.stream.next();
                        let rhs = match self.parse_expr(bp.1) {
                            Ok(v) => v,
                            Err(e) => return Err(e),
                        };
                        lhs = ASTNode::binary(op.kind, lhs, rhs);
                    },
                    None => {
                        return Ok(lhs);
                    },
                }
            }
        }
    }
}

/// A token stream of identifiers separated by additive operators:
/// `ident (op ident)*` with every `op` a `+` or `-`.
pub open spec fn is_additive_chain(t: Seq<Token>) -> bool {
    &&& t.len() % 2 == 1
    &&& forall|i: int|
        0 <= i < t.len() && i % 2 == 0 ==> (#[trigger] t[i]).kind == TokenKind::Identifier
    &&& forall|i: int|
        0 <= i < t.len() && i % 2 == 1 ==> ((#[trigger] t[i]).kind == TokenKind::Plus
            || t[i].kind == TokenKind::Minus)
}

/// The left-nested fold over an additive chain: each step wraps the
/// accumulator as the left child of the next operator.
pub open spec fn additive_chain_fold(input: Seq<char>, t: Seq<Token>, lhs: AstView, pos: int) -> AstView
    decreases t.len() - pos,
{
    if pos < 0 || pos + 2 > t.len() {
        lhs
    } else {
        additive_chain_fold(
            input,
            t,
            binary_view(t[pos].kind, lhs, ident_view(input, t[pos + 1])),
            pos + 2,
        )
    }
}

proof fn lemma_additive_chain_loop(input: Seq<char>, t: Seq<Token>, lhs: AstView, pos: int)
    requires
        is_additive_chain(t),
        1 <= pos <= t.len(),
        pos % 2 == 1,
    ensures
        spec_parse_loop(input, t, lhs, pos, 0) == Ok::<(AstView, int), ErrorView>(
            (additive_chain_fold(input, t, lhs, pos), t.len() as int),
        ),
    decreases t.len() - pos,
{
    if pos >= t.len() {
        assert(tok_at(t, pos).kind == TokenKind::EOF);
    } else {
        assert(t[pos].kind == TokenKind::Plus || t[pos].kind == TokenKind::Minus);
        assert(pos + 2 <= t.len()) by {
            assert(pos != t.len() - 1);
        }
        assert(t[pos + 1].kind == TokenKind::Identifier);
        let opk = t[pos].kind;
        let rhs = ident_view(input, t[pos + 1]);
        assert(spec_parse_leading(input, t, pos + 1) == Ok::<(AstView, int), ErrorView>(
            (rhs, pos + 2),
        ));
        if pos + 2 < t.len() {
            assert(t[pos + 2].kind == TokenKind::Plus || t[pos + 2].kind == TokenKind::Minus);
        }
        assert(spec_parse_loop(input, t, rhs, pos + 2, 4) == Ok::<(AstView, int), ErrorView>(
            (rhs, pos + 2),
        ));
        assert(spec_parse_expr(input, t, pos + 1, 4) == Ok::<(AstView, int), ErrorView>(
            (rhs, pos + 2),
        ));
        lemma_additive_chain_loop(input, t, binary_view(opk, lhs, rhs), pos + 2);
    }
}

/// Over every token stream of identifiers joined by `+` and `-` -- what
/// any input of whitespace-separated identifiers and additive operators
/// lexes to -- the parser associates left-to-right: the tree it returns
/// is exactly the left-nested fold of the chain.
pub proof fn lemma_additive_chain_left_assoc(input: Seq<char>, t: Seq<Token>)
    requires
        is_additive_chain(t),
    ensures
        spec_parse_at(input, t, 0) == Ok::<AstView, ErrorView>(
            additive_chain_fold(input, t, ident_view(input, t[0]), 1),
        ),
{
    assert(t.len() >= 1);
    assert(t[0].kind == TokenKind::Identifier);
    assert(spec_parse_leading(input, t, 0) == Ok::<(AstView, int), ErrorView>(
        (ident_view(input, t[0]), 1),
    ));
    lemma_additive_chain_loop(input, t, ident_view(input, t[0]), 1);
}

/// The same law lifted to source text: any input that lexes to an
/// additive chain -- whitespace-separated identifiers joined by `+` and
/// `-` -- parses to the left-nested fold of that chain.
pub proof fn lemma_parse_left_assoc(input: Seq<char>, t: Seq<Token>)
    requires
        spec_tokens(input, 0) == Ok::<Seq<Token>, ErrorView>(t),
        is_additive_chain(t),
    ensures
        spec_parse(input) == Ok::<AstView, ErrorView>(
            additive_chain_fold(input, t, ident_view(input, t[0]), 1),
        ),
{
    lemma_additive_chain_left_assoc(input, t);
}

/// The sole entry point: the expression tree of a well-formed input, or
/// the typed error a malformed one produces.
pub fn parse(input: &str) -> (r: Result<ASTNode, ParseError>)
    ensures
        match spec_parse(input@) {
            Ok(a) => r matches Ok(node) && node@ == a,
            Err(e) => r matches Err(pe) && pe@ == e,
        },
{
    match Parser::new(input) {
        Err(e) => Err(e),
        Ok(mut parser) => parser.parse(),
    }
}

} // verus!
