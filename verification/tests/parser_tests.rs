use latex_parser::parse;
use latex_parser::ASTNode;
use latex_parser::ParseError;
use latex_parser::Parser;
use latex_parser::Token;
use latex_parser::TokenKind;

fn ident(name: &str) -> ASTNode {
    ASTNode::Identifier { name: name.to_string() }
}

fn intlit(value: i64) -> ASTNode {
    ASTNode::Int { value }
}

fn binary(op: TokenKind, left: ASTNode, right: ASTNode) -> ASTNode {
    ASTNode::BinaryOpNode { op, left: Box::new(left), right: Box::new(right) }
}

fn unary(op: TokenKind, operand: ASTNode) -> ASTNode {
    ASTNode::UnaryOpNode { op, operand: Box::new(operand) }
}

#[test]
fn single_identifier() {
    assert_eq!(parse("a").unwrap(), ident("a"));
}

#[test]
fn single_integer() {
    assert_eq!(parse("123").unwrap(), intlit(123));
}

#[test]
fn addition_associates_left_to_right() {
    assert_eq!(
        parse("a + b + c").unwrap(),
        binary(TokenKind::Plus, binary(TokenKind::Plus, ident("a"), ident("b")), ident("c"))
    );
}

#[test]
fn mixed_additive_chain_associates_left_to_right() {
    assert_eq!(
        parse("a - b + c - d").unwrap(),
        binary(
            TokenKind::Minus,
            binary(TokenKind::Plus, binary(TokenKind::Minus, ident("a"), ident("b")), ident("c")),
            ident("d")
        )
    );
}

#[test]
fn parenthesized_group_is_the_left_child() {
    assert_eq!(
        parse("(a + b) + c").unwrap(),
        binary(TokenKind::Plus, binary(TokenKind::Plus, ident("a"), ident("b")), ident("c"))
    );
}

#[test]
fn parentheses_override_precedence() {
    assert_eq!(
        parse("a * (b + c)").unwrap(),
        binary(TokenKind::Multiply, ident("a"), binary(TokenKind::Plus, ident("b"), ident("c")))
    );
}

#[test]
fn sub_sup_nest_on_the_same_base() {
    assert_eq!(
        parse("a_1^2").unwrap(),
        binary(
            TokenKind::Carrot,
            binary(TokenKind::Underscore, ident("a"), ident("1")),
            ident("2")
        )
    );
}

#[test]
fn subscript_binds_tighter_than_multiplication() {
    assert_eq!(
        parse("a * b_1").unwrap(),
        binary(
            TokenKind::Multiply,
            ident("a"),
            binary(TokenKind::Underscore, ident("b"), ident("1"))
        )
    );
}

#[test]
fn superscript_binds_tighter_than_wedge() {
    assert_eq!(
        parse("a \\wedge b^2").unwrap(),
        binary(
            TokenKind::Wedge,
            ident("a"),
            binary(TokenKind::Carrot, ident("b"), ident("2"))
        )
    );
}

#[test]
fn subscript_takes_a_single_following_identifier_atom() {
    assert_eq!(
        parse("a_sb").unwrap(),
        binary(TokenKind::Underscore, ident("a"), ident("sb"))
    );
}

#[test]
fn frac_keeps_numerator_and_denominator_in_order() {
    assert_eq!(
        parse("\\frac{a_1 + b}{k_{s} \\wedge H}").unwrap(),
        binary(
            TokenKind::Frac,
            binary(
                TokenKind::Plus,
                binary(TokenKind::Underscore, ident("a"), ident("1")),
                ident("b")
            ),
            binary(
                TokenKind::Wedge,
                binary(TokenKind::Underscore, ident("k"), ident("s")),
                ident("H")
            )
        )
    );
}

#[test]
fn frac_with_one_group_fails() {
    assert!(matches!(parse("\\frac{a}"), Err(ParseError::UnexpectedToken { .. })));
}

#[test]
fn frac_with_no_group_fails() {
    assert!(matches!(parse("\\frac"), Err(ParseError::UnexpectedToken { .. })));
}

#[test]
fn hat_takes_one_braced_argument() {
    assert_eq!(parse("\\hat{a}").unwrap(), unary(TokenKind::Hat, ident("a")));
}

#[test]
fn hat_without_braces_fails() {
    assert!(matches!(parse("\\hat a"), Err(ParseError::UnexpectedToken { .. })));
}

#[test]
fn implicit_multiplication_before_parenthesis() {
    assert_eq!(
        parse("2(a+b)").unwrap(),
        binary(TokenKind::Multiply, intlit(2), binary(TokenKind::Plus, ident("a"), ident("b")))
    );
}

#[test]
fn implicit_multiplication_both_ways_round() {
    assert_eq!(
        parse("2a + a2").unwrap(),
        binary(
            TokenKind::Plus,
            binary(TokenKind::Multiply, intlit(2), ident("a")),
            binary(TokenKind::Multiply, ident("a"), intlit(2))
        )
    );
}

#[test]
fn implicit_multiplication_inside_a_sum() {
    assert_eq!(
        parse("c + 2(a+b)").unwrap(),
        binary(
            TokenKind::Plus,
            ident("c"),
            binary(TokenKind::Multiply, intlit(2), binary(TokenKind::Plus, ident("a"), ident("b")))
        )
    );
}

#[test]
fn implicit_multiplication_of_two_groups() {
    assert_eq!(
        parse("(1 + 2)(a + b)").unwrap(),
        binary(
            TokenKind::Multiply,
            binary(TokenKind::Plus, intlit(1), intlit(2)),
            binary(TokenKind::Plus, ident("a"), ident("b"))
        )
    );
}

#[test]
fn superscript_on_a_parenthesized_product() {
    assert_eq!(
        parse("2(a \\wedge b)^3").unwrap(),
        binary(
            TokenKind::Multiply,
            intlit(2),
            binary(
                TokenKind::Carrot,
                binary(TokenKind::Wedge, ident("a"), ident("b")),
                ident("3")
            )
        )
    );
}

#[test]
fn prefix_minus_binds_tighter_than_wedge() {
    assert_eq!(
        parse("-ia \\wedge b").unwrap(),
        binary(TokenKind::Wedge, unary(TokenKind::Minus, ident("ia")), ident("b"))
    );
}

#[test]
fn big_mixed_expression() {
    let inner = binary(
        TokenKind::Plus,
        unary(TokenKind::Minus, ident("ca")),
        binary(TokenKind::Dot, ident("a"), ident("c")),
    );
    assert_eq!(
        parse("-b * (-ca + a \\cdot c) + a \\wedge b").unwrap(),
        binary(
            TokenKind::Plus,
            binary(TokenKind::Multiply, unary(TokenKind::Minus, ident("b")), inner),
            binary(TokenKind::Wedge, ident("a"), ident("b"))
        )
    );
}

#[test]
fn unknown_command_reports_unsupported_command() {
    assert_eq!(
        parse("\\foo"),
        Err(ParseError::UnsupportedCommand { name: "foo".to_string() })
    );
}

#[test]
fn unterminated_parenthesis_reports_unbalanced_grouping() {
    assert!(matches!(parse("(a + b"), Err(ParseError::UnbalancedGrouping { .. })));
}

#[test]
fn unterminated_brace_reports_unbalanced_grouping() {
    assert!(matches!(parse("\\hat{a"), Err(ParseError::UnbalancedGrouping { .. })));
}

#[test]
fn unsupported_character_reports_its_code_point() {
    assert_eq!(parse("a ~ b"), Err(ParseError::UnsupportedCharacter { ch: '~' }));
}

#[test]
fn trailing_token_is_an_error() {
    assert!(matches!(parse("a ) b"), Err(ParseError::UnexpectedToken { .. })));
}

#[test]
fn empty_input_is_an_error() {
    assert_eq!(
        parse(""),
        Err(ParseError::UnexpectedToken {
            token: Token { kind: TokenKind::EOF, start: 0, end: 0 }
        })
    );
}

#[test]
fn integer_overflow_reports_malformed_numeric_literal() {
    assert!(matches!(
        parse("99999999999999999999"),
        Err(ParseError::MalformedNumericLiteral { .. })
    ));
}

#[test]
fn largest_integer_parses() {
    assert_eq!(parse("9223372036854775807").unwrap(), intlit(9223372036854775807));
}

#[test]
fn one_past_the_largest_integer_fails() {
    assert!(matches!(
        parse("9223372036854775808"),
        Err(ParseError::MalformedNumericLiteral { .. })
    ));
}

#[test]
fn bad_sub_sup_operand_is_an_error() {
    assert!(matches!(parse("a_)"), Err(ParseError::UnexpectedToken { .. })));
}

#[test]
fn brackets_cannot_start_an_expression() {
    assert!(matches!(parse("[a]"), Err(ParseError::UnexpectedToken { .. })));
}

#[test]
fn parser_methods_are_callable_directly() {
    let mut parser = Parser::new("{a + b}").unwrap();
    assert_eq!(
        parser.parse_in_braces(0).unwrap(),
        binary(TokenKind::Plus, ident("a"), ident("b"))
    );

    let mut parser = Parser::new("{a}").unwrap();
    assert_eq!(parser.parse_sub_sup().unwrap(), ident("a"));

    let mut parser = Parser::new("7").unwrap();
    assert_eq!(parser.parse_sub_sup().unwrap(), ident("7"));

    let mut parser = Parser::new("a + b").unwrap();
    assert_eq!(parser.parse().unwrap(), binary(TokenKind::Plus, ident("a"), ident("b")));
}

#[test]
fn lexical_error_surfaces_at_parser_construction() {
    assert!(matches!(Parser::new("\\nope"), Err(ParseError::UnsupportedCommand { .. })));
}

#[test]
fn whitespace_separated_product() {
    assert_eq!(
        parse("a b").unwrap(),
        binary(TokenKind::Multiply, ident("a"), ident("b"))
    );
}

#[test]
fn multi_letter_identifier_is_one_leaf() {
    assert_eq!(parse("abc").unwrap(), ident("abc"));
}

#[test]
fn division_and_multiplication_share_precedence() {
    assert_eq!(
        parse("a / b * c").unwrap(),
        binary(
            TokenKind::Multiply,
            binary(TokenKind::Divide, ident("a"), ident("b")),
            ident("c")
        )
    );
}

#[test]
fn wedge_binds_tighter_than_multiplication() {
    assert_eq!(
        parse("a * b \\wedge c").unwrap(),
        binary(
            TokenKind::Multiply,
            ident("a"),
            binary(TokenKind::Wedge, ident("b"), ident("c"))
        )
    );
}

#[test]
fn binding_power_table() {
    assert_eq!(latex_parser::infix_binding_power(&TokenKind::Plus), Some((3, 4)));
    assert_eq!(latex_parser::infix_binding_power(&TokenKind::Minus), Some((3, 4)));
    assert_eq!(latex_parser::infix_binding_power(&TokenKind::Multiply), Some((5, 6)));
    assert_eq!(latex_parser::infix_binding_power(&TokenKind::Divide), Some((5, 6)));
    assert_eq!(latex_parser::infix_binding_power(&TokenKind::Wedge), Some((6, 7)));
    assert_eq!(latex_parser::infix_binding_power(&TokenKind::Dot), Some((6, 7)));
    assert_eq!(latex_parser::infix_binding_power(&TokenKind::Carrot), Some((7, 8)));
    assert_eq!(latex_parser::infix_binding_power(&TokenKind::Underscore), Some((7, 8)));
    assert_eq!(latex_parser::infix_binding_power(&TokenKind::Identifier), None);
    assert_eq!(latex_parser::infix_binding_power(&TokenKind::LeftParen), None);
    let plus = Token { kind: TokenKind::Plus, start: 0, end: 0 };
    assert_eq!(latex_parser::prefix_binding_power(&plus), 7);
}
