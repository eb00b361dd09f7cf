use latex_parser::infix_operators;
use latex_parser::operators;
use latex_parser::parenthesis;
use latex_parser::prefix_binary_operators;
use latex_parser::prefix_uniary_commands_operators;
use latex_parser::prefix_uniary_operators;
use latex_parser::sub_sup_operators;
use latex_parser::TokenKind;
use latex_parser::TokenKindSet;

fn all_kinds() -> Vec<TokenKind> {
    vec![
        TokenKind::Identifier,
        TokenKind::LeftBrace,
        TokenKind::RightBrace,
        TokenKind::LeftBracket,
        TokenKind::RightBracket,
        TokenKind::LeftParen,
        TokenKind::RightParen,
        TokenKind::WhiteSpace,
        TokenKind::Wedge,
        TokenKind::Dot,
        TokenKind::Plus,
        TokenKind::Minus,
        TokenKind::Multiply,
        TokenKind::Divide,
        TokenKind::Frac,
        TokenKind::Hat,
        TokenKind::Underscore,
        TokenKind::Carrot,
        TokenKind::Int,
        TokenKind::Float,
        TokenKind::Numeric,
        TokenKind::EOF,
    ]
}

#[test]
fn infix_set_matches_the_design_table() {
    let expected = [
        TokenKind::Plus,
        TokenKind::Minus,
        TokenKind::Wedge,
        TokenKind::Dot,
        TokenKind::Multiply,
        TokenKind::Divide,
    ];
    let set = infix_operators();
    for k in all_kinds() {
        assert_eq!(set.contains(k), expected.contains(&k), "kind {:?}", k);
    }
}

#[test]
fn prefix_unary_set_matches_the_design_table() {
    let expected = [TokenKind::Plus, TokenKind::Minus];
    let set = prefix_uniary_operators();
    for k in all_kinds() {
        assert_eq!(set.contains(k), expected.contains(&k), "kind {:?}", k);
    }
}

#[test]
fn prefix_unary_command_set_matches_the_design_table() {
    let set = prefix_uniary_commands_operators();
    for k in all_kinds() {
        assert_eq!(set.contains(k), k == TokenKind::Hat, "kind {:?}", k);
    }
}

#[test]
fn prefix_binary_set_matches_the_design_table() {
    let set = prefix_binary_operators();
    for k in all_kinds() {
        assert_eq!(set.contains(k), k == TokenKind::Frac, "kind {:?}", k);
    }
}

#[test]
fn sub_sup_set_matches_the_design_table() {
    let expected = [TokenKind::Underscore, TokenKind::Carrot];
    let set = sub_sup_operators();
    for k in all_kinds() {
        assert_eq!(set.contains(k), expected.contains(&k), "kind {:?}", k);
    }
}

#[test]
fn parenthesis_set_matches_the_design_table() {
    let expected = [
        TokenKind::LeftParen,
        TokenKind::RightParen,
        TokenKind::LeftBrace,
        TokenKind::RightBrace,
    ];
    let set = parenthesis();
    for k in all_kinds() {
        assert_eq!(set.contains(k), expected.contains(&k), "kind {:?}", k);
    }
}

#[test]
fn combined_operators_set_is_the_union_of_its_parts() {
    let set = operators();
    for k in all_kinds() {
        let expected = infix_operators().contains(k) || parenthesis().contains(k)
            || sub_sup_operators().contains(k);
        assert_eq!(set.contains(k), expected, "kind {:?}", k);
    }
}

#[test]
fn union_contains_a_kind_iff_either_operand_does() {
    let sets = [
        infix_operators(),
        prefix_uniary_operators(),
        prefix_uniary_commands_operators(),
        prefix_binary_operators(),
        sub_sup_operators(),
        parenthesis(),
        TokenKindSet::new(&[]),
    ];
    for a in sets.iter() {
        for b in sets.iter() {
            let u = a.union(*b);
            for k in all_kinds() {
                assert_eq!(u.contains(k), a.contains(k) || b.contains(k), "kind {:?}", k);
            }
        }
    }
}

#[test]
fn new_builds_exactly_the_listed_membership() {
    let set = TokenKindSet::new(&[TokenKind::Plus, TokenKind::EOF, TokenKind::Plus]);
    for k in all_kinds() {
        assert_eq!(set.contains(k), k == TokenKind::Plus || k == TokenKind::EOF, "kind {:?}", k);
    }
    let empty = TokenKindSet::new(&[]);
    for k in all_kinds() {
        assert!(!empty.contains(k));
    }
}
