use cparse::ast::{Ctype, Node, NodeType, Scope, Type, UnaryKind};
use cparse::decl::{array_init_rval, ctype, decl, param, read_array, read_type, struct_members};
use cparse::env::Env;
use cparse::error::{ErrorKind, ParseError};
use cparse::expr::{
    assign, bit_and, bit_or, bit_xor, call_args, conditional, equality, expr, expr_stmt, logand,
    logor, postfix, primary, relational, shift, unary,
};
use cparse::parse::{consume, expect, ident, is_typename, params, parse, toplevel};
use cparse::stmt::{compound_stmt, stmt};
use cparse::token::{Token, TokenType};

/// Tokens of a source text in which every token stands between blanks.
fn lex(src: &str) -> Vec<Token> {
    src.split_whitespace()
        .map(|w| {
            let ty = match w {
                "int" => TokenType::Int,
                "char" => TokenType::Char,
                "void" => TokenType::Void,
                "struct" => TokenType::Struct,
                "typedef" => TokenType::Typedef,
                "extern" => TokenType::Extern,
                "if" => TokenType::If,
                "else" => TokenType::Else,
                "for" => TokenType::For,
                "while" => TokenType::While,
                "do" => TokenType::Do,
                "return" => TokenType::Return,
                "sizeof" => TokenType::Sizeof,
                "_Alignof" => TokenType::Alignof,
                "{" => TokenType::LeftBrace,
                "}" => TokenType::RightBrace,
                "(" => TokenType::LeftParen,
                ")" => TokenType::RightParen,
                "[" => TokenType::LeftBracket,
                "]" => TokenType::RightBracket,
                "." => TokenType::Dot,
                "->" => TokenType::Arrow,
                "-" => TokenType::Minus,
                "*" => TokenType::Mul,
                "&" => TokenType::And,
                "!" => TokenType::Exclamation,
                "/" => TokenType::Div,
                "%" => TokenType::Mod,
                "+" => TokenType::Plus,
                "<<" => TokenType::SHL,
                ">>" => TokenType::SHR,
                "<" => TokenType::LeftAngleBracket,
                ">" => TokenType::RightAngleBracket,
                "<=" => TokenType::LE,
                ">=" => TokenType::GE,
                "==" => TokenType::EQ,
                "!=" => TokenType::NE,
                "^" => TokenType::Hat,
                "|" => TokenType::VerticalBar,
                "&&" => TokenType::Logand,
                "||" => TokenType::Logor,
                "?" => TokenType::Question,
                ":" => TokenType::Colon,
                "=" => TokenType::Equal,
                "," => TokenType::Comma,
                ";" => TokenType::Semicolon,
                _ => {
                    if let Ok(n) = w.parse::<i32>() {
                        TokenType::Num(n)
                    } else if w.starts_with('"') {
                        let text = w.trim_matches('"').to_string();
                        let len = text.len() + 1;
                        TokenType::Str(text, len)
                    } else {
                        TokenType::Ident(w.to_string())
                    }
                },
            };
            Token::new(ty)
        })
        .collect()
}

fn id(name: &str) -> Node {
    Node::ident(name.to_string())
}

fn bin(op: TokenType, lhs: Node, rhs: Node) -> Node {
    Node::new_binop(op, lhs, rhs)
}

fn local(name: &str, init: Option<Node>, ty: Type) -> Node {
    Node::vardef(name.to_string(), init, Scope::Local(0), ty)
}

fn es(e: Node) -> Node {
    Node::new_expr(UnaryKind::ExprStmt, e)
}

fn err<T>(kind: ErrorKind, pos: usize) -> Result<T, ParseError> {
    Err(ParseError { kind, pos })
}

fn parse_expr(src: &str) -> Result<Node, ParseError> {
    let tokens = lex(src);
    let mut pos = 0;
    let mut env = Env::new(None);
    expr(&tokens, &mut pos, &mut env)
}

fn parse_stmt(src: &str) -> Result<Node, ParseError> {
    let tokens = lex(src);
    let mut pos = 0;
    let mut env = Env::new(None);
    let r = stmt(&tokens, &mut pos, &mut env);
    if r.is_ok() {
        assert_eq!(pos, tokens.len());
    }
    r
}

fn int_array(len: usize) -> Type {
    Type::ary_of(Box::new(Type::int_ty()), len)
}

// Helpers of the parser.

#[test]
fn consume_steps_over_a_matching_token_only() {
    let tokens = lex("+ -");
    let mut pos = 0;
    assert!(!consume(TokenType::Minus, &tokens, &mut pos));
    assert_eq!(pos, 0);
    assert!(consume(TokenType::Plus, &tokens, &mut pos));
    assert_eq!(pos, 1);
    assert!(consume(TokenType::Minus, &tokens, &mut pos));
    assert_eq!(pos, 2);
    assert!(!consume(TokenType::Minus, &tokens, &mut pos));
    assert_eq!(pos, 2);
}

#[test]
fn expect_reports_the_kind_it_wanted() {
    let tokens = lex("+ -");
    let mut pos = 0;
    assert_eq!(expect(TokenType::Plus, &tokens, &mut pos), Ok(()));
    assert_eq!(pos, 1);
    assert_eq!(
        expect(TokenType::Semicolon, &tokens, &mut pos),
        err(ErrorKind::Expected(TokenType::Semicolon), 1)
    );
    pos = 2;
    assert_eq!(
        expect(TokenType::Semicolon, &tokens, &mut pos),
        err(ErrorKind::Expected(TokenType::Semicolon), 2)
    );
}

#[test]
fn ident_hands_out_the_name() {
    let tokens = lex("abc 1");
    let mut pos = 0;
    assert_eq!(ident(&tokens, &mut pos), Ok("abc".to_string()));
    assert_eq!(pos, 1);
    assert_eq!(ident(&tokens, &mut pos), err(ErrorKind::VariableNameExpected, 1));
    pos = 2;
    assert_eq!(ident(&tokens, &mut pos), err(ErrorKind::VariableNameExpected, 2));
}

#[test]
fn is_typename_knows_keywords_and_typedefs() {
    let tokens = lex("int char void struct t x 1");
    let mut env = Env::new(None);
    env.define_typedef("t".to_string(), Type::int_ty());
    assert!(is_typename(&tokens, 0, &env));
    assert!(is_typename(&tokens, 1, &env));
    assert!(is_typename(&tokens, 2, &env));
    assert!(is_typename(&tokens, 3, &env));
    assert!(is_typename(&tokens, 4, &env));
    assert!(!is_typename(&tokens, 5, &env));
    assert!(!is_typename(&tokens, 6, &env));
    assert!(!is_typename(&tokens, 7, &env));
}

// Expressions.

#[test]
fn number_literal_is_typed_int() {
    assert_eq!(parse_expr("42"), Ok(Node::num(42)));
}

#[test]
fn string_literal_is_an_array_of_char() {
    let expected = Node::string("abc".to_string(), 4, Type::ary_of(Box::new(Type::char_ty()), 3));
    assert_eq!(parse_expr("\"abc\""), Ok(expected));
}

#[test]
fn string_literal_length_counts_bytes() {
    let tokens = vec![Token::new(TokenType::Str("é".to_string(), 3))];
    let mut pos = 0;
    let mut env = Env::new(None);
    let n = primary(&tokens, &mut pos, &mut env).unwrap();
    assert_eq!(n.ty.size, 2);
    assert_eq!(n.ty.ty, Ctype::Ary(Box::new(Type::char_ty()), 2));
}

#[test]
fn identifier_is_a_bare_reference() {
    assert_eq!(parse_expr("x"), Ok(id("x")));
}

#[test]
fn call_without_arguments() {
    assert_eq!(parse_expr("f ( )"), Ok(Node::call("f".to_string(), vec![])));
}

#[test]
fn call_with_arguments() {
    let expected = Node::call(
        "f".to_string(),
        vec![Node::num(1), bin(TokenType::Plus, id("a"), Node::num(2)), id("b")],
    );
    assert_eq!(parse_expr("f ( 1 , a + 2 , b )"), Ok(expected));
}

#[test]
fn call_arguments_are_assignments_not_commas() {
    let expected = Node::call(
        "f".to_string(),
        vec![bin(TokenType::Equal, id("a"), Node::num(1)), id("b")],
    );
    assert_eq!(parse_expr("f ( a = 1 , b )"), Ok(expected));
}

#[test]
fn call_args_reads_up_to_the_closing_parenthesis() {
    let tokens = lex("1 , 2 ) ;");
    let mut pos = 0;
    let mut env = Env::new(None);
    assert_eq!(call_args(&tokens, &mut pos, &mut env), Ok(vec![Node::num(1), Node::num(2)]));
    assert_eq!(pos, 4);
}

#[test]
fn unclosed_call_is_an_error() {
    assert_eq!(parse_expr("f ( 1 ;"), err(ErrorKind::Expected(TokenType::RightParen), 3));
    assert_eq!(parse_expr("f ( 1 ,"), err(ErrorKind::NumberExpected, 4));
}

#[test]
fn parentheses_group() {
    let expected = bin(TokenType::Mul, bin(TokenType::Plus, Node::num(1), Node::num(2)), Node::num(3));
    assert_eq!(parse_expr("( 1 + 2 ) * 3"), Ok(expected));
}

#[test]
fn unclosed_parenthesis_is_an_error() {
    assert_eq!(parse_expr("( 1 + 2"), err(ErrorKind::Expected(TokenType::RightParen), 4));
}

#[test]
fn statement_expression() {
    let body = Node::comp_stmt(vec![es(Node::num(1)), es(id("x"))]);
    assert_eq!(parse_expr("( { 1 ; x ; } )"), Ok(Node::new_expr(UnaryKind::StmtExpr, body)));
}

#[test]
fn statement_expression_must_be_closed() {
    assert_eq!(parse_expr("( { 1 ; } ;"), err(ErrorKind::Expected(TokenType::RightParen), 5));
}

#[test]
fn no_expression_starts_with_an_operator() {
    assert_eq!(parse_expr(";"), err(ErrorKind::NumberExpected, 0));
    assert_eq!(parse_expr(""), err(ErrorKind::NumberExpected, 0));
    assert_eq!(parse_expr("1 +"), err(ErrorKind::NumberExpected, 2));
    assert_eq!(parse_expr("1 + )"), err(ErrorKind::NumberExpected, 2));
}

#[test]
fn member_access() {
    assert_eq!(parse_expr("a . b"), Ok(Node::dot(id("a"), "b".to_string())));
    assert_eq!(
        parse_expr("a . b . c"),
        Ok(Node::dot(Node::dot(id("a"), "b".to_string()), "c".to_string()))
    );
}

#[test]
fn arrow_is_dereference_then_member() {
    let expected = Node::dot(Node::new_expr(UnaryKind::Deref, id("p")), "m".to_string());
    assert_eq!(parse_expr("p -> m"), Ok(expected));
}

#[test]
fn index_is_dereference_of_sum() {
    let expected = Node::new_expr(UnaryKind::Deref, bin(TokenType::Plus, id("a"), Node::num(2)));
    assert_eq!(parse_expr("a [ 2 ]"), Ok(expected));
}

#[test]
fn index_of_index() {
    let first = Node::new_expr(UnaryKind::Deref, bin(TokenType::Plus, id("a"), Node::num(1)));
    let expected = Node::new_expr(UnaryKind::Deref, bin(TokenType::Plus, first, id("i")));
    assert_eq!(parse_expr("a [ 1 ] [ i ]"), Ok(expected));
}

#[test]
fn member_needs_a_name() {
    assert_eq!(parse_expr("a . 1"), err(ErrorKind::VariableNameExpected, 2));
    assert_eq!(parse_expr("a -> ;"), err(ErrorKind::VariableNameExpected, 2));
    assert_eq!(parse_expr("a [ 1 ;"), err(ErrorKind::Expected(TokenType::RightBracket), 3));
}

#[test]
fn postfix_stops_before_other_tokens() {
    let tokens = lex("a . b + 1");
    let mut pos = 0;
    let mut env = Env::new(None);
    assert_eq!(postfix(&tokens, &mut pos, &mut env), Ok(Node::dot(id("a"), "b".to_string())));
    assert_eq!(pos, 3);
}

#[test]
fn prefix_operators() {
    assert_eq!(parse_expr("- x"), Ok(Node::new_expr(UnaryKind::Neg, id("x"))));
    assert_eq!(parse_expr("* x"), Ok(Node::new_expr(UnaryKind::Deref, id("x"))));
    assert_eq!(parse_expr("& x"), Ok(Node::new_expr(UnaryKind::Addr, id("x"))));
    assert_eq!(parse_expr("! x"), Ok(Node::new_expr(UnaryKind::Exclamation, id("x"))));
    assert_eq!(parse_expr("sizeof x"), Ok(Node::new_expr(UnaryKind::Sizeof, id("x"))));
    assert_eq!(parse_expr("_Alignof x"), Ok(Node::new_expr(UnaryKind::Alignof, id("x"))));
}

#[test]
fn prefix_operators_nest() {
    let expected =
        Node::new_expr(UnaryKind::Neg, Node::new_expr(UnaryKind::Deref, Node::new_expr(UnaryKind::Addr, id("x"))));
    assert_eq!(parse_expr("- * & x"), Ok(expected));
}

#[test]
fn prefix_binds_looser_than_postfix() {
    let expected = Node::new_expr(UnaryKind::Deref, Node::dot(id("a"), "b".to_string()));
    assert_eq!(parse_expr("* a . b"), Ok(expected));
    let tokens = lex("- a [ 0 ]");
    let mut pos = 0;
    let mut env = Env::new(None);
    let indexed = Node::new_expr(UnaryKind::Deref, bin(TokenType::Plus, id("a"), Node::num(0)));
    assert_eq!(unary(&tokens, &mut pos, &mut env), Ok(Node::new_expr(UnaryKind::Neg, indexed)));
}

#[test]
fn multiplication_binds_tighter_than_addition() {
    let expected = bin(TokenType::Plus, Node::num(1), bin(TokenType::Mul, Node::num(2), Node::num(3)));
    assert_eq!(parse_expr("1 + 2 * 3"), Ok(expected));
}

#[test]
fn multiplicative_operators_are_left_associative() {
    let expected = bin(
        TokenType::Mod,
        bin(TokenType::Div, bin(TokenType::Mul, id("a"), id("b")), id("c")),
        id("d"),
    );
    assert_eq!(parse_expr("a * b / c % d"), Ok(expected));
}

#[test]
fn additive_operators_are_left_associative() {
    let expected = bin(TokenType::Plus, bin(TokenType::Minus, id("a"), id("b")), id("c"));
    assert_eq!(parse_expr("a - b + c"), Ok(expected));
}

#[test]
fn shift_operators() {
    let expected = bin(
        TokenType::SHR,
        bin(TokenType::SHL, id("a"), bin(TokenType::Plus, id("b"), Node::num(1))),
        id("c"),
    );
    assert_eq!(parse_expr("a << b + 1 >> c"), Ok(expected));
    let tokens = lex("a << 1 < 2");
    let mut pos = 0;
    let mut env = Env::new(None);
    assert_eq!(shift(&tokens, &mut pos, &mut env), Ok(bin(TokenType::SHL, id("a"), Node::num(1))));
    assert_eq!(pos, 3);
}

#[test]
fn greater_is_swapped_less() {
    assert_eq!(parse_expr("a > b"), parse_expr("b < a"));
    assert_eq!(parse_expr("a > b"), Ok(bin(TokenType::LeftAngleBracket, id("b"), id("a"))));
    assert_eq!(parse_expr("a < b"), Ok(bin(TokenType::LeftAngleBracket, id("a"), id("b"))));
}

#[test]
fn greater_or_equal_is_swapped_less_or_equal() {
    assert_eq!(parse_expr("a >= b"), parse_expr("b <= a"));
    assert_eq!(parse_expr("a >= b"), Ok(bin(TokenType::LE, id("b"), id("a"))));
    assert_eq!(parse_expr("a <= b"), Ok(bin(TokenType::LE, id("a"), id("b"))));
}

#[test]
fn swapped_comparison_with_larger_operands() {
    assert_eq!(parse_expr("a + 1 > f ( b ) << 2"), parse_expr("f ( b ) << 2 < a + 1"));
    assert_eq!(parse_expr("x . y >= * p"), parse_expr("* p <= x . y"));
}

#[test]
fn relational_chain_folds_from_the_left() {
    let first = bin(TokenType::LeftAngleBracket, id("a"), id("b"));
    let expected = bin(TokenType::LeftAngleBracket, id("c"), first);
    assert_eq!(parse_expr("a < b > c"), Ok(expected));
    let tokens = lex("a < b == c");
    let mut pos = 0;
    let mut env = Env::new(None);
    assert_eq!(
        relational(&tokens, &mut pos, &mut env),
        Ok(bin(TokenType::LeftAngleBracket, id("a"), id("b")))
    );
    assert_eq!(pos, 3);
}

#[test]
fn equality_operators() {
    let expected = bin(
        TokenType::NE,
        bin(TokenType::EQ, id("a"), bin(TokenType::LeftAngleBracket, id("b"), id("c"))),
        id("d"),
    );
    assert_eq!(parse_expr("a == b < c != d"), Ok(expected));
    let tokens = lex("a == b & c");
    let mut pos = 0;
    let mut env = Env::new(None);
    assert_eq!(equality(&tokens, &mut pos, &mut env), Ok(bin(TokenType::EQ, id("a"), id("b"))));
}

#[test]
fn bitwise_operators_by_precedence() {
    let expected = bin(
        TokenType::VerticalBar,
        id("a"),
        bin(TokenType::Hat, id("b"), bin(TokenType::And, id("c"), id("d"))),
    );
    assert_eq!(parse_expr("a | b ^ c & d"), Ok(expected));
    let tokens = lex("a & b ^ c | d && e");
    let mut env = Env::new(None);
    let mut pos = 0;
    assert_eq!(bit_and(&tokens, &mut pos, &mut env), Ok(bin(TokenType::And, id("a"), id("b"))));
    assert_eq!(pos, 3);
    pos = 0;
    let xor = bin(TokenType::Hat, bin(TokenType::And, id("a"), id("b")), id("c"));
    assert_eq!(bit_xor(&tokens, &mut pos, &mut env), Ok(xor.clone()));
    assert_eq!(pos, 5);
    pos = 0;
    assert_eq!(bit_or(&tokens, &mut pos, &mut env), Ok(bin(TokenType::VerticalBar, xor, id("d"))));
    assert_eq!(pos, 7);
}

#[test]
fn bitwise_operators_are_left_associative() {
    assert_eq!(
        parse_expr("a & b & c"),
        Ok(bin(TokenType::And, bin(TokenType::And, id("a"), id("b")), id("c")))
    );
    assert_eq!(
        parse_expr("a ^ b ^ c"),
        Ok(bin(TokenType::Hat, bin(TokenType::Hat, id("a"), id("b")), id("c")))
    );
    assert_eq!(
        parse_expr("a | b | c"),
        Ok(bin(TokenType::VerticalBar, bin(TokenType::VerticalBar, id("a"), id("b")), id("c")))
    );
}

#[test]
fn logical_operators_are_left_associative() {
    assert_eq!(
        parse_expr("a && b && c"),
        Ok(bin(TokenType::Logand, bin(TokenType::Logand, id("a"), id("b")), id("c")))
    );
    assert_eq!(
        parse_expr("a || b || c"),
        Ok(bin(TokenType::Logor, bin(TokenType::Logor, id("a"), id("b")), id("c")))
    );
}

#[test]
fn logical_and_binds_tighter_than_logical_or() {
    let expected = bin(TokenType::Logor, id("a"), bin(TokenType::Logand, id("b"), id("c")));
    assert_eq!(parse_expr("a || b && c"), Ok(expected));
    let tokens = lex("a && b || c ? 1 : 2");
    let mut env = Env::new(None);
    let mut pos = 0;
    assert_eq!(logand(&tokens, &mut pos, &mut env), Ok(bin(TokenType::Logand, id("a"), id("b"))));
    assert_eq!(pos, 3);
    pos = 0;
    assert_eq!(
        logor(&tokens, &mut pos, &mut env),
        Ok(bin(TokenType::Logor, bin(TokenType::Logand, id("a"), id("b")), id("c")))
    );
    assert_eq!(pos, 5);
}

#[test]
fn conditional_expression() {
    let expected = Node::ternary(id("a"), Node::num(1), Node::num(2));
    assert_eq!(parse_expr("a ? 1 : 2"), Ok(expected));
}

#[test]
fn conditional_is_right_associative() {
    let inner = Node::ternary(id("b"), Node::num(2), Node::num(3));
    assert_eq!(parse_expr("a ? 1 : b ? 2 : 3"), Ok(Node::ternary(id("a"), Node::num(1), inner)));
}

#[test]
fn conditional_middle_is_a_full_expression() {
    let middle = bin(TokenType::Comma, Node::num(1), Node::num(2));
    assert_eq!(parse_expr("a ? 1 , 2 : 3"), Ok(Node::ternary(id("a"), middle, Node::num(3))));
}

#[test]
fn conditional_needs_its_colon() {
    let tokens = lex("a ? 1 ;");
    let mut pos = 0;
    let mut env = Env::new(None);
    assert_eq!(
        conditional(&tokens, &mut pos, &mut env),
        err(ErrorKind::Expected(TokenType::Colon), 3)
    );
}

#[test]
fn assignment_is_right_associative() {
    let expected = bin(TokenType::Equal, id("a"), bin(TokenType::Equal, id("b"), Node::num(1)));
    assert_eq!(parse_expr("a = b = 1"), Ok(expected));
}

#[test]
fn assignment_accepts_any_left_side() {
    let expected = bin(TokenType::Equal, bin(TokenType::Plus, Node::num(1), Node::num(2)), Node::num(3));
    assert_eq!(parse_expr("1 + 2 = 3"), Ok(expected));
}

#[test]
fn assign_stops_before_a_comma() {
    let tokens = lex("a = 1 , b");
    let mut pos = 0;
    let mut env = Env::new(None);
    assert_eq!(assign(&tokens, &mut pos, &mut env), Ok(bin(TokenType::Equal, id("a"), Node::num(1))));
    assert_eq!(pos, 3);
}

#[test]
fn comma_is_left_associative() {
    let expected = bin(TokenType::Comma, bin(TokenType::Comma, id("a"), id("b")), id("c"));
    assert_eq!(parse_expr("a , b , c"), Ok(expected));
}

#[test]
fn expression_statement() {
    assert_eq!(parse_stmt("a = 1 ;"), Ok(es(bin(TokenType::Equal, id("a"), Node::num(1)))));
    let tokens = lex("a");
    let mut pos = 0;
    let mut env = Env::new(None);
    assert_eq!(
        expr_stmt(&tokens, &mut pos, &mut env),
        err(ErrorKind::Expected(TokenType::Semicolon), 1)
    );
}

// Types and declarations.

#[test]
fn read_type_reads_keywords() {
    let tokens = lex("int char void x");
    let mut env = Env::new(None);
    let mut pos = 0;
    assert_eq!(read_type(&tokens, &mut pos, &mut env), Ok(Some(Type::int_ty())));
    assert_eq!(read_type(&tokens, &mut pos, &mut env), Ok(Some(Type::char_ty())));
    assert_eq!(read_type(&tokens, &mut pos, &mut env), Ok(Some(Type::void_ty())));
    assert_eq!(pos, 3);
    assert_eq!(read_type(&tokens, &mut pos, &mut env), Ok(None));
    assert_eq!(pos, 3);
    pos = 4;
    assert_eq!(read_type(&tokens, &mut pos, &mut env), Ok(None));
    assert_eq!(pos, 4);
}

#[test]
fn read_type_resolves_typedefs() {
    let tokens = lex("t");
    let mut env = Env::new(None);
    env.define_typedef("t".to_string(), Type::ptr_to(Box::new(Type::char_ty())));
    let mut pos = 0;
    assert_eq!(
        read_type(&tokens, &mut pos, &mut env),
        Ok(Some(Type::ptr_to(Box::new(Type::char_ty()))))
    );
    assert_eq!(pos, 1);
}

#[test]
fn ctype_reads_stars() {
    let tokens = lex("int * * x");
    let mut env = Env::new(None);
    let mut pos = 0;
    let expected = Type::ptr_to(Box::new(Type::ptr_to(Box::new(Type::int_ty()))));
    assert_eq!(ctype(&tokens, &mut pos, &mut env), Ok(expected));
    assert_eq!(pos, 3);
}

#[test]
fn ctype_needs_a_type() {
    let tokens = lex("x");
    let mut env = Env::new(None);
    let mut pos = 0;
    assert_eq!(ctype(&tokens, &mut pos, &mut env), err(ErrorKind::TypenameExpected, 0));
    let none: Vec<Token> = vec![];
    assert_eq!(ctype(&none, &mut pos, &mut env), err(ErrorKind::TypenameExpected, 0));
}

#[test]
fn read_array_wraps_first_length_innermost() {
    let tokens = lex("[ 2 ] [ 3 ] ;");
    let mut env = Env::new(None);
    let mut pos = 0;
    let t = read_array(Box::new(Type::int_ty()), &tokens, &mut pos, &mut env).unwrap();
    assert_eq!(pos, 6);
    assert_eq!(*t, Type::ary_of(Box::new(int_array(2)), 3));
    assert_eq!(t.size, 24);
}

#[test]
fn read_array_without_brackets_keeps_the_type() {
    let tokens = lex("; [");
    let mut env = Env::new(None);
    let mut pos = 0;
    let t = read_array(Box::new(Type::char_ty()), &tokens, &mut pos, &mut env).unwrap();
    assert_eq!(*t, Type::char_ty());
    assert_eq!(pos, 0);
}

#[test]
fn array_length_must_be_a_number_literal() {
    assert_eq!(parse_stmt("int a [ n ] ;"), err(ErrorKind::ArrayLengthNotConstant, 3));
    assert_eq!(parse_stmt("int a [ 1 + 2 ] ;"), err(ErrorKind::ArrayLengthNotConstant, 3));
    assert_eq!(parse_stmt("int a [ 3 ;"), err(ErrorKind::Expected(TokenType::RightBracket), 4));
    assert_eq!(parse_stmt("int a [ ] ;"), err(ErrorKind::NumberExpected, 3));
}

#[test]
fn parenthesized_array_length_is_a_number() {
    assert_eq!(parse_stmt("int a [ ( 3 ) ] ;"), Ok(local("a", None, int_array(3))));
}

#[test]
fn array_too_large_is_rejected() {
    assert_eq!(
        parse_stmt("int a [ 2147483647 ] [ 2147483647 ] [ 2147483647 ] ;"),
        err(ErrorKind::TypeTooLarge, 2)
    );
}

#[test]
fn negative_array_length_is_too_large() {
    let tokens = vec![
        Token::new(TokenType::Int),
        Token::new(TokenType::Ident("a".to_string())),
        Token::new(TokenType::LeftBracket),
        Token::new(TokenType::Num(-1)),
        Token::new(TokenType::RightBracket),
        Token::new(TokenType::Semicolon),
    ];
    let mut pos = 0;
    let mut env = Env::new(None);
    assert_eq!(stmt(&tokens, &mut pos, &mut env), err(ErrorKind::TypeTooLarge, 2));
}

#[test]
fn plain_declaration() {
    assert_eq!(parse_stmt("int x ;"), Ok(local("x", None, Type::int_ty())));
    assert_eq!(parse_stmt("char c ;"), Ok(local("c", None, Type::char_ty())));
}

#[test]
fn pointer_declaration() {
    let ty = Type::ptr_to(Box::new(Type::ptr_to(Box::new(Type::char_ty()))));
    assert_eq!(parse_stmt("char * * p ;"), Ok(local("p", None, ty)));
    assert_eq!(
        parse_stmt("void * p ;"),
        Ok(local("p", None, Type::ptr_to(Box::new(Type::void_ty()))))
    );
}

#[test]
fn declaration_with_initializer() {
    let init = bin(TokenType::Plus, Node::num(1), Node::num(2));
    assert_eq!(parse_stmt("int x = 1 + 2 ;"), Ok(local("x", Some(init), Type::int_ty())));
}

#[test]
fn initializer_is_an_assignment_expression() {
    assert_eq!(parse_stmt("int x = 1 , 2 ;"), err(ErrorKind::Expected(TokenType::Semicolon), 4));
    let init = bin(TokenType::Equal, id("y"), Node::num(2));
    assert_eq!(parse_stmt("int x = y = 2 ;"), Ok(local("x", Some(init), Type::int_ty())));
}

#[test]
fn array_declaration() {
    assert_eq!(parse_stmt("int a [ 3 ] ;"), Ok(local("a", None, int_array(3))));
    let nested = Type::ary_of(Box::new(int_array(2)), 5);
    assert_eq!(parse_stmt("int a [ 2 ] [ 5 ] ;"), Ok(local("a", None, nested)));
}

fn element(name: &str, i: i32, val: Node) -> Node {
    let target = Node::new_expr(UnaryKind::Deref, bin(TokenType::Plus, id(name), Node::int_ty(i)));
    es(bin(TokenType::Equal, target, val))
}

#[test]
fn array_initializer_becomes_a_list_of_statements() {
    let expected = Node::vec_stmt(vec![
        local("a", None, int_array(3)),
        element("a", 0, Node::num(1)),
        element("a", 1, Node::num(2)),
        element("a", 2, Node::num(3)),
    ]);
    let parsed = parse_stmt("int a [ 3 ] = { 1 , 2 , 3 } ;");
    assert_eq!(parsed, Ok(expected));
    match parsed.unwrap().op {
        NodeType::VecStmt(stmts) => {
            assert_eq!(stmts.len(), 4);
            let decls = stmts.iter().filter(|s| matches!(s.op, NodeType::Vardef(_, _, _))).count();
            assert_eq!(decls, 1);
            assert!(matches!(stmts[0].op, NodeType::Vardef(_, None, Scope::Local(0))));
        },
        _ => panic!("not a statement list"),
    }
}

#[test]
fn array_initializer_with_one_value() {
    let expected = Node::vec_stmt(vec![local("a", None, int_array(1)), element("a", 0, id("x"))]);
    assert_eq!(parse_stmt("int a [ 1 ] = { x } ;"), Ok(expected));
}

#[test]
fn array_initializer_values_are_primary_expressions() {
    assert_eq!(
        parse_stmt("int a [ 2 ] = { 1 + 1 , 2 } ;"),
        err(ErrorKind::Expected(TokenType::RightBrace), 8)
    );
    let expected = Node::vec_stmt(vec![
        local("a", None, int_array(1)),
        element("a", 0, bin(TokenType::Plus, Node::num(1), Node::num(1))),
    ]);
    assert_eq!(parse_stmt("int a [ 1 ] = { ( 1 + 1 ) } ;"), Ok(expected));
}

#[test]
fn array_initializer_errors() {
    assert_eq!(parse_stmt("int a [ 1 ] = { } ;"), err(ErrorKind::NumberExpected, 7));
    assert_eq!(parse_stmt("int a [ 1 ] = { 1 , } ;"), err(ErrorKind::NumberExpected, 9));
    assert_eq!(parse_stmt("int a [ 1 ] = { 1 }"), err(ErrorKind::Expected(TokenType::Semicolon), 9));
}

#[test]
fn array_init_rval_appends_to_what_it_is_given() {
    let tokens = lex("7 , 8 } ;");
    let mut pos = 0;
    let mut env = Env::new(None);
    let got = array_init_rval(&tokens, &mut pos, &mut env, &"v".to_string(), vec![Node::null()]);
    assert_eq!(
        got,
        Ok(vec![Node::null(), element("v", 0, Node::num(7)), element("v", 1, Node::num(8))])
    );
    assert_eq!(pos, 4);
}

#[test]
fn void_variable_is_rejected() {
    assert_eq!(parse_stmt("void x ;"), err(ErrorKind::VoidVariable, 1));
}

#[test]
fn array_of_void_is_accepted() {
    let ty = Type::ary_of(Box::new(Type::void_ty()), 3);
    assert_eq!(parse_stmt("void x [ 3 ] ;"), Ok(local("x", None, ty)));
}

#[test]
fn declaration_needs_name_and_semicolon() {
    assert_eq!(parse_stmt("int ;"), err(ErrorKind::VariableNameExpected, 1));
    assert_eq!(parse_stmt("int 3 ;"), err(ErrorKind::VariableNameExpected, 1));
    assert_eq!(parse_stmt("int x"), err(ErrorKind::Expected(TokenType::Semicolon), 2));
    assert_eq!(parse_stmt("int x = 1"), err(ErrorKind::Expected(TokenType::Semicolon), 4));
}

#[test]
fn decl_needs_a_type() {
    let tokens = lex("x ;");
    let mut pos = 0;
    let mut env = Env::new(None);
    assert_eq!(decl(&tokens, &mut pos, &mut env), err(ErrorKind::TypenameExpected, 0));
}

#[test]
fn param_is_a_type_and_a_name() {
    let tokens = lex("int * p , char c )");
    let mut pos = 0;
    let mut env = Env::new(None);
    let p = local("p", None, Type::ptr_to(Box::new(Type::int_ty())));
    assert_eq!(param(&tokens, &mut pos, &mut env), Ok(p.clone()));
    assert_eq!(pos, 3);
    pos = 0;
    assert_eq!(params(&tokens, &mut pos, &mut env), Ok(vec![p, local("c", None, Type::char_ty())]));
    assert_eq!(pos, 7);
}

#[test]
fn params_must_be_closed() {
    let tokens = lex("int a ; ");
    let mut pos = 0;
    let mut env = Env::new(None);
    assert_eq!(
        params(&tokens, &mut pos, &mut env),
        err(ErrorKind::Expected(TokenType::RightParen), 2)
    );
}

// Structs.

fn placed(name: &str, off: usize, ty: Type) -> Node {
    Node::vardef(name.to_string(), None, Scope::Local(off), ty)
}

#[test]
fn struct_declaration_lays_out_members() {
    let parsed = parse_stmt("struct { int a ; char b ; int * c ; } s ;").unwrap();
    let members = vec![
        placed("a", 0, Type::int_ty()),
        placed("b", 4, Type::char_ty()),
        placed("c", 8, Type::ptr_to(Box::new(Type::int_ty()))),
    ];
    let ty = Type { ty: Ctype::Struct(members), size: 16, align: 8 };
    assert_eq!(parsed, local("s", None, ty));
}

#[test]
fn struct_members_reads_declarations() {
    let tokens = lex("int a ; char b ; } x");
    let mut pos = 0;
    let mut env = Env::new(None);
    assert_eq!(
        struct_members(&tokens, &mut pos, &mut env),
        Ok(vec![local("a", None, Type::int_ty()), local("b", None, Type::char_ty())])
    );
    assert_eq!(pos, 7);
}

#[test]
fn struct_body_must_be_closed() {
    assert_eq!(parse_stmt("struct { int a ;"), err(ErrorKind::Expected(TokenType::RightBrace), 5));
}

#[test]
fn struct_tag_is_resolved_after_its_definition() {
    let tokens = lex("{ struct Foo { int x ; char y ; } a ; struct Foo v ; }");
    let mut pos = 1;
    let mut env = Env::new(None);
    let block = compound_stmt(&tokens, &mut pos, &mut env).unwrap();
    let members = vec![placed("x", 0, Type::int_ty()), placed("y", 4, Type::char_ty())];
    let ty = Type { ty: Ctype::Struct(members), size: 8, align: 4 };
    assert_eq!(block, Node::comp_stmt(vec![local("a", None, ty.clone()), local("v", None, ty)]));
}

#[test]
fn struct_tag_is_resolved_from_an_enclosing_block() {
    let tokens = lex("{ struct Foo { int x ; } a ; { struct Foo * p ; } }");
    let mut pos = 1;
    let mut env = Env::new(None);
    let block = compound_stmt(&tokens, &mut pos, &mut env).unwrap();
    let ty = Type { ty: Ctype::Struct(vec![placed("x", 0, Type::int_ty())]), size: 4, align: 4 };
    let inner = Node::comp_stmt(vec![local("p", None, Type::ptr_to(Box::new(ty.clone())))]);
    assert_eq!(block, Node::comp_stmt(vec![local("a", None, ty), inner]));
}

#[test]
fn struct_tag_of_an_inner_block_shadows_and_ends_with_it() {
    let tokens =
        lex("{ struct S { int x ; } a ; { struct S { char c ; } b ; struct S d ; } struct S e ; }");
    let mut pos = 1;
    let mut env = Env::new(None);
    let block = compound_stmt(&tokens, &mut pos, &mut env).unwrap();
    let outer = Type { ty: Ctype::Struct(vec![placed("x", 0, Type::int_ty())]), size: 4, align: 4 };
    let inner = Type { ty: Ctype::Struct(vec![placed("c", 0, Type::char_ty())]), size: 1, align: 1 };
    let expected = Node::comp_stmt(vec![
        local("a", None, outer.clone()),
        Node::comp_stmt(vec![local("b", None, inner.clone()), local("d", None, inner)]),
        local("e", None, outer),
    ]);
    assert_eq!(block, expected);
}

#[test]
fn undeclared_struct_tag_is_an_incomplete_type() {
    assert_eq!(parse_stmt("struct Bar v ;"), err(ErrorKind::IncompleteType, 0));
    assert_eq!(parse_stmt("struct Bar * p ;"), err(ErrorKind::IncompleteType, 0));
    assert_eq!(parse_stmt("struct Bar { } v ;"), err(ErrorKind::IncompleteType, 0));
}

#[test]
fn struct_tag_used_before_its_definition_is_an_incomplete_type() {
    let tokens = lex("struct Foo * p ; struct Foo { int x ; } ; struct Foo v ;");
    assert_eq!(parse(&tokens), err(ErrorKind::IncompleteType, 0));
}

#[test]
fn struct_without_tag_and_members_is_a_bad_definition() {
    assert_eq!(parse_stmt("struct x ;"), err(ErrorKind::IncompleteType, 0));
    assert_eq!(parse_stmt("struct ;"), err(ErrorKind::BadStructDefinition, 0));
    assert_eq!(parse_stmt("struct { } x ;"), err(ErrorKind::BadStructDefinition, 0));
    assert_eq!(parse_stmt("struct"), err(ErrorKind::BadStructDefinition, 0));
}

#[test]
fn struct_member_with_initializer_list_is_an_internal_error() {
    assert_eq!(
        parse_stmt("struct { int a [ 1 ] = { 1 } ; } s ;"),
        err(ErrorKind::Internal, 0)
    );
}

#[test]
fn struct_member_with_initializer_is_a_member() {
    let parsed = parse_stmt("struct { int a = 1 ; } s ;").unwrap();
    let member = Node::vardef("a".to_string(), Some(Node::num(1)), Scope::Local(0), Type::int_ty());
    let ty = Type { ty: Ctype::Struct(vec![member]), size: 4, align: 4 };
    assert_eq!(parsed, local("s", None, ty));
}

#[test]
fn nested_struct() {
    let parsed = parse_stmt("struct { char c ; struct { int i ; char d ; } in ; } s ;").unwrap();
    let inner = Type {
        ty: Ctype::Struct(vec![placed("i", 0, Type::int_ty()), placed("d", 4, Type::char_ty())]),
        size: 8,
        align: 4,
    };
    let outer = Type {
        ty: Ctype::Struct(vec![placed("c", 0, Type::char_ty()), placed("in", 4, inner)]),
        size: 12,
        align: 4,
    };
    assert_eq!(parsed, local("s", None, outer));
}

// Statements.

#[test]
fn empty_statement() {
    assert_eq!(parse_stmt(";"), Ok(Node::null()));
}

#[test]
fn return_statement() {
    assert_eq!(parse_stmt("return 1 ;"), Ok(Node::new_expr(UnaryKind::Return, Node::num(1))));
    assert_eq!(parse_stmt("return ;"), err(ErrorKind::NumberExpected, 1));
    assert_eq!(parse_stmt("return 1"), err(ErrorKind::Expected(TokenType::Semicolon), 2));
}

#[test]
fn if_statement() {
    let expected = Node::if_else(id("c"), es(id("a")), None);
    assert_eq!(parse_stmt("if ( c ) a ;"), Ok(expected));
}

#[test]
fn if_else_statement() {
    let expected = Node::if_else(id("c"), es(id("a")), Some(es(id("b"))));
    assert_eq!(parse_stmt("if ( c ) a ; else b ;"), Ok(expected));
}

#[test]
fn else_belongs_to_the_nearest_if() {
    let inner = Node::if_else(id("d"), es(id("a")), Some(es(id("b"))));
    assert_eq!(parse_stmt("if ( c ) if ( d ) a ; else b ;"), Ok(Node::if_else(id("c"), inner, None)));
}

#[test]
fn if_needs_parentheses() {
    assert_eq!(parse_stmt("if c ) a ;"), err(ErrorKind::Expected(TokenType::LeftParen), 1));
    assert_eq!(parse_stmt("if ( c a ;"), err(ErrorKind::Expected(TokenType::RightParen), 3));
    assert_eq!(parse_stmt("if"), err(ErrorKind::Expected(TokenType::LeftParen), 1));
}

#[test]
fn for_statement() {
    let expected = Node::for_loop(
        es(bin(TokenType::Equal, id("i"), Node::num(0))),
        bin(TokenType::LeftAngleBracket, id("i"), Node::num(10)),
        es(bin(TokenType::Equal, id("i"), bin(TokenType::Plus, id("i"), Node::num(1)))),
        es(id("x")),
    );
    assert_eq!(parse_stmt("for ( i = 0 ; i < 10 ; i = i + 1 ) x ;"), Ok(expected));
}

#[test]
fn for_statement_with_declaration() {
    let expected = Node::for_loop(
        local("i", Some(Node::num(0)), Type::int_ty()),
        id("i"),
        es(id("i")),
        Node::null(),
    );
    assert_eq!(parse_stmt("for ( int i = 0 ; i ; i ) ;"), Ok(expected));
}

#[test]
fn for_statement_needs_all_three_parts() {
    assert_eq!(parse_stmt("for ( ; c ; ) s ;"), err(ErrorKind::NumberExpected, 2));
    assert_eq!(parse_stmt("for ( a ; ; c ) s ;"), err(ErrorKind::NumberExpected, 4));
    assert_eq!(parse_stmt("for ( a ; b ; ) s ;"), err(ErrorKind::NumberExpected, 6));
    assert_eq!(parse_stmt("for ( a ; b ) s ;"), err(ErrorKind::Expected(TokenType::Semicolon), 5));
    assert_eq!(parse_stmt("for a ; b ; c ) s ;"), err(ErrorKind::Expected(TokenType::LeftParen), 1));
    assert_eq!(
        parse_stmt("for ( a ; b ; c s ;"),
        err(ErrorKind::Expected(TokenType::RightParen), 7)
    );
}

#[test]
fn while_is_a_for_without_init_and_increment() {
    let expected = Node::for_loop(Node::null(), id("c"), Node::null(), es(id("s")));
    assert_eq!(parse_stmt("while ( c ) s ;"), Ok(expected));
}

#[test]
fn while_and_for_share_condition_and_body() {
    let w = parse_stmt("while ( c ) s ;").unwrap();
    let f = parse_stmt("for ( 0 ; c ; 0 ) s ;").unwrap();
    match (w.op, f.op) {
        (NodeType::For(wi, wc, wn, wb), NodeType::For(fi, fc, fn_, fb)) => {
            assert_eq!(wc, fc);
            assert_eq!(wb, fb);
            assert_eq!(*wi, Node::null());
            assert_eq!(*wn, Node::null());
            assert_eq!(*fi, es(Node::num(0)));
            assert_eq!(*fn_, es(Node::num(0)));
        },
        _ => panic!("not loops"),
    }
}

#[test]
fn while_needs_parentheses() {
    assert_eq!(parse_stmt("while c ) s ;"), err(ErrorKind::Expected(TokenType::LeftParen), 1));
    assert_eq!(parse_stmt("while ( c s ;"), err(ErrorKind::Expected(TokenType::RightParen), 3));
}

#[test]
fn do_while_statement() {
    let expected = Node::do_while(es(id("s")), id("c"));
    assert_eq!(parse_stmt("do s ; while ( c ) ;"), Ok(expected));
}

#[test]
fn do_while_errors() {
    assert_eq!(parse_stmt("do s ; ( c ) ;"), err(ErrorKind::Expected(TokenType::While), 3));
    assert_eq!(parse_stmt("do s ; while c ) ;"), err(ErrorKind::Expected(TokenType::LeftParen), 4));
    assert_eq!(parse_stmt("do s ; while ( c ;"), err(ErrorKind::Expected(TokenType::RightParen), 6));
    assert_eq!(parse_stmt("do s ; while ( c )"), err(ErrorKind::Expected(TokenType::Semicolon), 7));
}

#[test]
fn block_statement() {
    let expected = Node::comp_stmt(vec![local("x", None, Type::int_ty()), es(id("x")), Node::null()]);
    assert_eq!(parse_stmt("{ int x ; x ; ; }"), Ok(expected));
    assert_eq!(parse_stmt("{ }"), Ok(Node::comp_stmt(vec![])));
}

#[test]
fn block_must_be_closed() {
    assert_eq!(parse_stmt("{ x ;"), err(ErrorKind::Expected(TokenType::RightBrace), 3));
    assert_eq!(parse_stmt("{"), err(ErrorKind::Expected(TokenType::RightBrace), 1));
}

#[test]
fn typedef_makes_no_code_and_names_a_type() {
    let tokens = lex("{ typedef int * ip ; ip p ; }");
    let mut pos = 1;
    let mut env = Env::new(None);
    let block = compound_stmt(&tokens, &mut pos, &mut env).unwrap();
    let expected = Node::comp_stmt(vec![
        Node::null(),
        local("p", None, Type::ptr_to(Box::new(Type::int_ty()))),
    ]);
    assert_eq!(block, expected);
}

#[test]
fn typedef_of_an_array() {
    let tokens = lex("{ typedef int row [ 4 ] ; row r [ 2 ] ; }");
    let mut pos = 1;
    let mut env = Env::new(None);
    let block = compound_stmt(&tokens, &mut pos, &mut env).unwrap();
    let ty = Type::ary_of(Box::new(int_array(4)), 2);
    assert_eq!(block, Node::comp_stmt(vec![Node::null(), local("r", None, ty)]));
}

#[test]
fn typedef_with_initializer_list_is_an_internal_error() {
    assert_eq!(parse_stmt("typedef int a [ 1 ] = { 1 } ;"), err(ErrorKind::Internal, 0));
}

#[test]
fn typedef_in_a_block_is_gone_after_the_block() {
    let tokens = lex("{ { typedef int t ; t a ; } t * b ; }");
    let mut pos = 1;
    let mut env = Env::new(None);
    let block = compound_stmt(&tokens, &mut pos, &mut env).unwrap();
    let inner = Node::comp_stmt(vec![Node::null(), local("a", None, Type::int_ty())]);
    let product = es(bin(TokenType::Mul, id("t"), id("b")));
    assert_eq!(block, Node::comp_stmt(vec![inner, product]));
    assert_eq!(env.find_typedef(&"t".to_string()), None);
}

#[test]
fn typedef_in_a_block_does_not_reach_the_scope_of_the_caller() {
    let tokens = lex("{ typedef int t ; } t");
    let mut pos = 0;
    let mut env = Env::new(None);
    assert!(stmt(&tokens, &mut pos, &mut env).is_ok());
    assert_eq!(pos, 6);
    assert!(!is_typename(&tokens, 6, &env));
    assert!(env.typedefs.is_empty());
    assert!(env.next.is_none());
}

#[test]
fn typedef_outside_a_block_stays() {
    let tokens = lex("typedef char t ; t");
    let mut pos = 0;
    let mut env = Env::new(None);
    assert_eq!(stmt(&tokens, &mut pos, &mut env), Ok(Node::null()));
    assert!(is_typename(&tokens, 4, &env));
    assert_eq!(env.find_typedef(&"t".to_string()), Some(Type::char_ty()));
}

#[test]
fn typedef_in_a_statement_expression_is_gone_after_it() {
    let tokens = lex("( { typedef int t ; t a ; 1 ; } ) ; t * b ;");
    let mut pos = 0;
    let mut env = Env::new(None);
    assert!(stmt(&tokens, &mut pos, &mut env).is_ok());
    assert_eq!(pos, 14);
    assert_eq!(stmt(&tokens, &mut pos, &mut env), Ok(es(bin(TokenType::Mul, id("t"), id("b")))));
}

#[test]
fn typedef_of_an_outer_block_is_seen_in_an_inner_block() {
    let tokens = lex("{ typedef int t ; { t a ; } }");
    let mut pos = 1;
    let mut env = Env::new(None);
    let block = compound_stmt(&tokens, &mut pos, &mut env).unwrap();
    let inner = Node::comp_stmt(vec![local("a", None, Type::int_ty())]);
    assert_eq!(block, Node::comp_stmt(vec![Node::null(), inner]));
}

#[test]
fn identifier_that_is_no_typedef_starts_an_expression() {
    assert_eq!(parse_stmt("t * b ;"), Ok(es(bin(TokenType::Mul, id("t"), id("b")))));
}

// Top level.

fn parse_src(src: &str) -> Result<Vec<Node>, ParseError> {
    parse(&lex(src))
}

fn global(name: &str, size: usize, is_extern: bool, ty: Type) -> Node {
    Node::vardef(name.to_string(), None, Scope::Global(String::new(), size, is_extern), ty)
}

#[test]
fn empty_input_is_an_empty_program() {
    assert_eq!(parse_src(""), Ok(vec![]));
}

#[test]
fn single_function_definition() {
    let body = Node::comp_stmt(vec![Node::new_expr(UnaryKind::Return, Node::num(0))]);
    let expected = Node::func("main".to_string(), vec![], body);
    assert_eq!(parse_src("int main ( ) { return 0 ; }"), Ok(vec![expected]));
}

#[test]
fn function_with_parameters() {
    let args = vec![
        local("a", None, Type::int_ty()),
        local("p", None, Type::ptr_to(Box::new(Type::char_ty()))),
    ];
    let body = Node::comp_stmt(vec![Node::new_expr(
        UnaryKind::Return,
        bin(TokenType::Plus, id("a"), Node::new_expr(UnaryKind::Deref, id("p"))),
    )]);
    let expected = Node::func("f".to_string(), args, body);
    assert_eq!(parse_src("int f ( int a , char * p ) { return a + * p ; }"), Ok(vec![expected]));
}

#[test]
fn single_global_variable() {
    assert_eq!(parse_src("int x ;"), Ok(vec![global("x", 4, false, Type::int_ty())]));
    assert_eq!(parse_src("char a [ 10 ] ;"), Ok(vec![global(
        "a",
        10,
        false,
        Type::ary_of(Box::new(Type::char_ty()), 10)
    )]));
    assert_eq!(parse_src("int * p ;"), Ok(vec![global(
        "p",
        8,
        false,
        Type::ptr_to(Box::new(Type::int_ty()))
    )]));
}

#[test]
fn single_extern_variable_has_no_size() {
    assert_eq!(parse_src("extern int x ;"), Ok(vec![global("x", 0, true, Type::int_ty())]));
    assert_eq!(parse_src("extern int a [ 3 ] ;"), Ok(vec![global("a", 0, true, int_array(3))]));
}

#[test]
fn global_void_variable_is_accepted_at_top_level() {
    assert_eq!(parse_src("void v ;"), Ok(vec![global("v", 0, false, Type::void_ty())]));
}

#[test]
fn program_keeps_declaration_order() {
    let parsed = parse_src("int x ; int f ( ) { } extern char c ; int g ( ) { }").unwrap();
    assert_eq!(parsed.len(), 4);
    assert_eq!(parsed[0], global("x", 4, false, Type::int_ty()));
    assert_eq!(parsed[1], Node::func("f".to_string(), vec![], Node::comp_stmt(vec![])));
    assert_eq!(parsed[2], global("c", 0, true, Type::char_ty()));
    assert_eq!(parsed[3], Node::func("g".to_string(), vec![], Node::comp_stmt(vec![])));
}

#[test]
fn toplevel_reads_one_declaration() {
    let tokens = lex("int x ; int y ;");
    let mut pos = 0;
    let mut env = Env::new(None);
    assert_eq!(toplevel(&tokens, &mut pos, &mut env), Ok(global("x", 4, false, Type::int_ty())));
    assert_eq!(pos, 3);
}

#[test]
fn global_struct_and_later_use_of_its_tag() {
    let parsed = parse_src("struct P { int x ; int y ; } origin ; struct P * cur ; int f ( ) { struct P q ; }")
        .unwrap();
    let ty = Type {
        ty: Ctype::Struct(vec![placed("x", 0, Type::int_ty()), placed("y", 4, Type::int_ty())]),
        size: 8,
        align: 4,
    };
    assert_eq!(parsed[0], global("origin", 8, false, ty.clone()));
    assert_eq!(parsed[1], global("cur", 8, false, Type::ptr_to(Box::new(ty.clone()))));
    let body = Node::comp_stmt(vec![local("q", None, ty)]);
    assert_eq!(parsed[2], Node::func("f".to_string(), vec![], body));
}

#[test]
fn typedef_in_a_function_does_not_reach_the_next_function() {
    let parsed = parse_src("int f ( ) { typedef int t ; t a ; } int g ( ) { t * b ; }").unwrap();
    let f = Node::comp_stmt(vec![Node::null(), local("a", None, Type::int_ty())]);
    let g = Node::comp_stmt(vec![es(bin(TokenType::Mul, id("t"), id("b")))]);
    assert_eq!(parsed[0], Node::func("f".to_string(), vec![], f));
    assert_eq!(parsed[1], Node::func("g".to_string(), vec![], g));
}

#[test]
fn toplevel_errors() {
    assert_eq!(parse_src("x ;"), err(ErrorKind::TypenameExpected, 0));
    assert_eq!(parse_src("extern x ;"), err(ErrorKind::TypenameExpected, 1));
    assert_eq!(parse_src("extern"), err(ErrorKind::TypenameExpected, 1));
    assert_eq!(parse_src("int 3 ;"), err(ErrorKind::NameExpected, 1));
    assert_eq!(parse_src("int"), err(ErrorKind::NameExpected, 1));
    assert_eq!(parse_src("int x"), err(ErrorKind::Expected(TokenType::Semicolon), 2));
    assert_eq!(parse_src("int x = 1 ;"), err(ErrorKind::Expected(TokenType::Semicolon), 2));
    assert_eq!(parse_src("int f ( ) ;"), err(ErrorKind::Expected(TokenType::LeftBrace), 4));
    assert_eq!(parse_src("int f ( int ) { }"), err(ErrorKind::VariableNameExpected, 4));
    assert_eq!(parse_src("int f ( ) { return 0 ;"), err(ErrorKind::Expected(TokenType::RightBrace), 8));
    assert_eq!(parse_src("int x ; 1"), err(ErrorKind::TypenameExpected, 3));
}

#[test]
fn first_error_stops_the_parse() {
    assert_eq!(parse_src("int f ( ) { a + ; b + ; }"), err(ErrorKind::NumberExpected, 7));
}

#[test]
fn small_program() {
    let src = "int main ( ) { int ary [ 2 ] ; ary [ 0 ] = 1 ; return ary [ 0 ] ; }";
    let index = || Node::new_expr(UnaryKind::Deref, bin(TokenType::Plus, id("ary"), Node::num(0)));
    let body = Node::comp_stmt(vec![
        local("ary", None, int_array(2)),
        es(bin(TokenType::Equal, index(), Node::num(1))),
        Node::new_expr(UnaryKind::Return, index()),
    ]);
    assert_eq!(parse_src(src), Ok(vec![Node::func("main".to_string(), vec![], body)]));
}
