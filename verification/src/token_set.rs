use vstd::prelude::*;

use crate::lexer::TokenKind;

verus! {

/// The position of a token kind in the fixed-width bitset.
/// Every kind gets a distinct index below 128, so a `u128` can
/// carry any set of kinds.
pub open spec fn spec_kind_index(k: TokenKind) -> u32 {
    match k {
        TokenKind::Identifier => 0,
        TokenKind::LeftBrace => 1,
        TokenKind::RightBrace => 2,
        TokenKind::LeftBracket => 3,
        TokenKind::RightBracket => 4,
        TokenKind::LeftParen => 5,
        TokenKind::RightParen => 6,
        TokenKind::WhiteSpace => 7,
        TokenKind::Wedge => 8,
        TokenKind::Dot => 9,
        TokenKind::Plus => 10,
        TokenKind::Minus => 11,
        TokenKind::Multiply => 12,
        TokenKind::Divide => 13,
        TokenKind::Frac => 14,
        TokenKind::Hat => 15,
        TokenKind::Underscore => 16,
        TokenKind::Carrot => 17,
        TokenKind::Int => 18,
        TokenKind::Float => 19,
        TokenKind::Numeric => 20,
        TokenKind::EOF => 21,
    }
}

pub fn kind_index(k: TokenKind) -> (r: u32)
    ensures
        r == spec_kind_index(k),
        r < 22,
{
    match k {
        TokenKind::Identifier => 0,
        TokenKind::LeftBrace => 1,
        TokenKind::RightBrace => 2,
        TokenKind::LeftBracket => 3,
        TokenKind::RightBracket => 4,
        TokenKind::LeftParen => 5,
        TokenKind::RightParen => 6,
        TokenKind::WhiteSpace => 7,
        TokenKind::Wedge => 8,
        TokenKind::Dot => 9,
        TokenKind::Plus => 10,
        TokenKind::Minus => 11,
        TokenKind::Multiply => 12,
        TokenKind::Divide => 13,
        TokenKind::Frac => 14,
        TokenKind::Hat => 15,
        TokenKind::Underscore => 16,
        TokenKind::Carrot => 17,
        TokenKind::Int => 18,
        TokenKind::Float => 19,
        TokenKind::Numeric => 20,
        TokenKind::EOF => 21,
    }
}

/// Two distinct kinds never share a bitset index.
proof fn lemma_kind_index_injective(k1: TokenKind, k2: TokenKind)
    ensures
        spec_kind_index(k1) == spec_kind_index(k2) ==> k1 == k2,
{
}

pub fn bit(kind: TokenKind) -> (r: u128)
    ensures
        r == (1u128 << spec_kind_index(kind)),
{
    1u128 << kind_index(kind)
}

proof fn lemma_zero_mask(m: u128)
    ensures
        0u128 & m == 0,
{
    assert(0u128 & m == 0) by (bit_vector);
}

proof fn lemma_or_mask(a: u128, b: u128, m: u128)
    ensures
        ((a | b) & m != 0) == (a & m != 0 || b & m != 0),
{
    assert(((a | b) & m != 0) == (a & m != 0 || b & m != 0)) by (bit_vector);
}

proof fn lemma_single_bit_test(i: u32, j: u32)
    requires
        i < 128,
        j < 128,
    ensures
        ((1u128 << i) & (1u128 << j) != 0) == (i == j),
{
    assert(((1u128 << i) & (1u128 << j) != 0) == (i == j)) by (bit_vector)
        requires
            i < 128,
            j < 128,
    ;
}

/// An immutable set of token kinds, packed into one `u128`.
#[derive(Debug, Clone, Copy, PartialEq, Eq, Structural)]
pub struct TokenKindSet(pub u128);

impl TokenKindSet {
    /// Membership, as the contracts speak of it: the kind's bit is set.
    pub open spec fn spec_contains(self, kind: TokenKind) -> bool {
        self.0 & (1u128 << spec_kind_index(kind)) != 0
    }

    /// The set holding exactly the kinds listed in `kinds`.
    pub fn new(kinds: &[TokenKind]) -> (r: TokenKindSet)
        ensures
            forall|k: TokenKind| r.spec_contains(k) <==> kinds@.contains(k),
    {
        let mut set: u128 = 0;
        let mut i: usize = 0;
        proof {
            assert forall|k: TokenKind| set & (1u128 << spec_kind_index(k)) == 0 by {
                lemma_zero_mask(1u128 << spec_kind_index(k));
            }
        }
        while i < kinds.len()
            invariant
                i <= kinds@.len(),
                forall|k: TokenKind|
                    (set & (1u128 << spec_kind_index(k)) != 0) <==> (exists|j: int|
                        0 <= j < i && kinds@[j] == k),
            decreases kinds@.len() - i,
        {
            let kind = kinds[i];
            let b = bit(kind);
            proof {
                assert forall|k: TokenKind|
                    ((set | b) & (1u128 << spec_kind_index(k)) != 0) <==> (exists|j: int|
                        0 <= j < i + 1 && kinds@[j] == k) by {
                    lemma_or_mask(set, b, 1u128 << spec_kind_index(k));
                    lemma_single_bit_test(spec_kind_index(kind), spec_kind_index(k));
                    lemma_kind_index_injective(kind, k);
                    if exists|j: int| 0 <= j < i + 1 && kinds@[j] == k {
                        let j = choose|j: int| 0 <= j < i + 1 && kinds@[j] == k;
                        if j == i {
                            assert(k == kind);
                        } else {
                            assert(exists|j2: int| 0 <= j2 < i && kinds@[j2] == k);
                        }
                    }
                }
            }
            set = set | b;
            i = i + 1;
        }
        assert(forall|k: TokenKind|
            (exists|j: int| 0 <= j < kinds@.len() && kinds@[j] == k) <==> kinds@.contains(k));
        TokenKindSet(set)
    }

    /// A kind is in the union exactly when it is in at least one operand.
    pub fn union(self, other: TokenKindSet) -> (r: TokenKindSet)
        ensures
            forall|k: TokenKind|
                r.spec_contains(k) <==> (self.spec_contains(k) || other.spec_contains(k)),
    {
        proof {
            assert forall|k: TokenKind|
                ((self.0 | other.0) & (1u128 << spec_kind_index(k)) != 0) <==> (self.spec_contains(
                    k,
                ) || other.spec_contains(k)) by {
                lemma_or_mask(self.0, other.0, 1u128 << spec_kind_index(k));
            }
        }
        TokenKindSet(self.0 | other.0)
    }

    pub fn contains(self, kind: TokenKind) -> (r: bool)
        ensures
            r == self.spec_contains(kind),
    {
        self.0 & bit(kind) != 0
    }
}

/// The explicit infix binary operators.
pub open spec fn is_infix_operator(k: TokenKind) -> bool {
    k == TokenKind::Plus || k == TokenKind::Minus || k == TokenKind::Wedge || k == TokenKind::Dot
        || k == TokenKind::Multiply || k == TokenKind::Divide
}

/// The commands that take exactly two mandatory braced arguments.
pub open spec fn is_prefix_binary_operator(k: TokenKind) -> bool {
    k == TokenKind::Frac
}

/// The operators usable as a prefix sign.
pub open spec fn is_prefix_unary_operator(k: TokenKind) -> bool {
    k == TokenKind::Plus || k == TokenKind::Minus
}

/// The commands that take exactly one mandatory braced argument.
pub open spec fn is_prefix_unary_command(k: TokenKind) -> bool {
    k == TokenKind::Hat
}

/// The bracketing tokens counted among the operators.
pub open spec fn is_parenthesis(k: TokenKind) -> bool {
    k == TokenKind::LeftParen || k == TokenKind::RightParen || k == TokenKind::LeftBrace
        || k == TokenKind::RightBrace
}

/// The subscript and superscript markers.
pub open spec fn is_sub_sup_operator(k: TokenKind) -> bool {
    k == TokenKind::Underscore || k == TokenKind::Carrot
}

/// Everything the parser's continuation loop may see and keep going on.
pub open spec fn is_operator(k: TokenKind) -> bool {
    is_infix_operator(k) || is_parenthesis(k) || is_sub_sup_operator(k)
}

pub fn infix_operators() -> (r: TokenKindSet)
    ensures
        forall|k: TokenKind| r.spec_contains(k) <==> is_infix_operator(k),
{
    let mut kinds: Vec<TokenKind> = Vec::new();
    kinds.push(TokenKind::Plus);
    kinds.push(TokenKind::Minus);
    kinds.push(TokenKind::Wedge);
    kinds.push(TokenKind::Dot);
    kinds.push(TokenKind::Multiply);
    kinds.push(TokenKind::Divide);
    let r = TokenKindSet::new(kinds.as_slice());
    proof {
        assert(kinds@.contains(TokenKind::Plus)) by { assert(kinds@[0] == TokenKind::Plus); }
        assert(kinds@.contains(TokenKind::Minus)) by { assert(kinds@[1] == TokenKind::Minus); }
        assert(kinds@.contains(TokenKind::Wedge)) by { assert(kinds@[2] == TokenKind::Wedge); }
        assert(kinds@.contains(TokenKind::Dot)) by { assert(kinds@[3] == TokenKind::Dot); }
        assert(kinds@.contains(TokenKind::Multiply)) by {
            assert(kinds@[4] == TokenKind::Multiply);
        }
        assert(kinds@.contains(TokenKind::Divide)) by { assert(kinds@[5] == TokenKind::Divide); }
        assert forall|k: TokenKind| kinds@.contains(k) implies is_infix_operator(k) by {
            let j = choose|j: int| 0 <= j < kinds@.len() && kinds@[j] == k;
            assert(j == 0 || j == 1 || j == 2 || j == 3 || j == 4 || j == 5);
        }
    }
    r
}

pub fn prefix_binary_operators() -> (r: TokenKindSet)
    ensures
        forall|k: TokenKind| r.spec_contains(k) <==> is_prefix_binary_operator(k),
{
    let mut kinds: Vec<TokenKind> = Vec::new();
    kinds.push(TokenKind::Frac);
    let r = TokenKindSet::new(kinds.as_slice());
    proof {
        assert(kinds@.contains(TokenKind::Frac)) by { assert(kinds@[0] == TokenKind::Frac); }
        assert forall|k: TokenKind| kinds@.contains(k) implies is_prefix_binary_operator(k) by {
            let j = choose|j: int| 0 <= j < kinds@.len() && kinds@[j] == k;
            assert(j == 0);
        }
    }
    r
}

pub fn prefix_uniary_operators() -> (r: TokenKindSet)
    ensures
        forall|k: TokenKind| r.spec_contains(k) <==> is_prefix_unary_operator(k),
{
    let mut kinds: Vec<TokenKind> = Vec::new();
    kinds.push(TokenKind::Plus);
    kinds.push(TokenKind::Minus);
    let r = TokenKindSet::new(kinds.as_slice());
    proof {
        assert(kinds@.contains(TokenKind::Plus)) by { assert(kinds@[0] == TokenKind::Plus); }
        assert(kinds@.contains(TokenKind::Minus)) by { assert(kinds@[1] == TokenKind::Minus); }
        assert forall|k: TokenKind| kinds@.contains(k) implies is_prefix_unary_operator(k) by {
            let j = choose|j: int| 0 <= j < kinds@.len() && kinds@[j] == k;
            assert(j == 0 || j == 1);
        }
    }
    r
}

pub fn prefix_uniary_commands_operators() -> (r: TokenKindSet)
    ensures
        forall|k: TokenKind| r.spec_contains(k) <==> is_prefix_unary_command(k),
{
    let mut kinds: Vec<TokenKind> = Vec::new();
    kinds.push(TokenKind::Hat);
    let r = TokenKindSet::new(kinds.as_slice());
    proof {
        assert(kinds@.contains(TokenKind::Hat)) by { assert(kinds@[0] == TokenKind::Hat); }
        assert forall|k: TokenKind| kinds@.contains(k) implies is_prefix_unary_command(k) by {
            let j = choose|j: int| 0 <= j < kinds@.len() && kinds@[j] == k;
            assert(j == 0);
        }
    }
    r
}

pub fn parenthesis() -> (r: TokenKindSet)
    ensures
        forall|k: TokenKind| r.spec_contains(k) <==> is_parenthesis(k),
{
    let mut kinds: Vec<TokenKind> = Vec::new();
    kinds.push(TokenKind::LeftParen);
    kinds.push(TokenKind::RightParen);
    kinds.push(TokenKind::LeftBrace);
    kinds.push(TokenKind::RightBrace);
    let r = TokenKindSet::new(kinds.as_slice());
    proof {
        assert(kinds@.contains(TokenKind::LeftParen)) by {
            assert(kinds@[0] == TokenKind::LeftParen);
        }
        assert(kinds@.contains(TokenKind::RightParen)) by {
            assert(kinds@[1] == TokenKind::RightParen);
        }
        assert(kinds@.contains(TokenKind::LeftBrace)) by {
            assert(kinds@[2] == TokenKind::LeftBrace);
        }
        assert(kinds@.contains(TokenKind::RightBrace)) by {
            assert(kinds@[3] == TokenKind::RightBrace);
        }
        assert forall|k: TokenKind| kinds@.contains(k) implies is_parenthesis(k) by {
            let j = choose|j: int| 0 <= j < kinds@.len() && kinds@[j] == k;
            assert(j == 0 || j == 1 || j == 2 || j == 3);
        }
    }
    r
}

pub fn sub_sup_operators() -> (r: TokenKindSet)
    ensures
        forall|k: TokenKind| r.spec_contains(k) <==> is_sub_sup_operator(k),
{
    let mut kinds: Vec<TokenKind> = Vec::new();
    kinds.push(TokenKind::Underscore);
    kinds.push(TokenKind::Carrot);
    let r = TokenKindSet::new(kinds.as_slice());
    proof {
        assert(kinds@.contains(TokenKind::Underscore)) by {
            assert(kinds@[0] == TokenKind::Underscore);
        }
        assert(kinds@.contains(TokenKind::Carrot)) by { assert(kinds@[1] == TokenKind::Carrot); }
        assert forall|k: TokenKind| kinds@.contains(k) implies is_sub_sup_operator(k) by {
            let j = choose|j: int| 0 <= j < kinds@.len() && kinds@[j] == k;
            assert(j == 0 || j == 1);
        }
    }
    r
}

pub fn operators() -> (r: TokenKindSet)
    ensures
        forall|k: TokenKind| r.spec_contains(k) <==> is_operator(k),
{
    infix_operators().union(parenthesis()).union(sub_sup_operators())
}

} // verus!
