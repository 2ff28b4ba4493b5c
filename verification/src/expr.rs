//! The parser of expressions: one function for each level of precedence.

use vstd::prelude::*;
use crate::ast::{
    Node, NodeView, Type, UnaryKind, lemma_nodes_view_empty, lemma_nodes_view_push, nodes_view,
};
use crate::env::Env;
use crate::error::{ErrorKind, ParseError};
use crate::grammar;
use crate::grammar::{Parsed, rest};
use crate::parse::{agrees, consume, expect, ident};
use crate::stmt::compound_stmt;
use crate::token::{Token, TokenType};

verus! {

/// Parses the arguments of a call behind its `(`, up to and with the `)`.
#[verifier::spinoff_prover]
pub fn call_args(tokens: &Vec<Token>, pos: &mut usize, env: &mut Env) -> (r: Result<
    Vec<Node>,
    ParseError,
>)
    ensures
        match r {
            Ok(args) => grammar::call_args(tokens@, *old(pos) as int, old(env)@, Seq::empty())
                == Ok::<Parsed<Seq<NodeView>>, ParseError>(
                Parsed { val: nodes_view(args@), pos: *final(pos) as int },
            ),
            Err(e) => grammar::call_args(tokens@, *old(pos) as int, old(env)@, Seq::empty())
                == Err::<Parsed<Seq<NodeView>>, ParseError>(e),
        },
        r is Ok ==> *old(pos) < *final(pos) <= tokens.len() && final(env)@ == old(env)@,
    decreases rest(tokens@, *old(pos) as int), 30nat,
{
    let ghost start = *pos as int;
    let ghost env0 = env@;
    let mut args: Vec<Node> = Vec::new();
    proof {
        lemma_nodes_view_empty();
    }
    loop
        invariant
            start == *old(pos),
            env0 == old(env)@,
            start <= *pos,
            start < *pos ==> *pos <= tokens.len(),
            env@ == env0,
            grammar::call_args(tokens@, start, env0, Seq::empty()) == grammar::call_args(
                tokens@,
                *pos as int,
                env0,
                nodes_view(args@),
            ),
        decreases rest(tokens@, *pos as int),
    {
        let ghost before = args@;
        proof {
            reveal_with_fuel(grammar::call_args, 1);
            reveal_with_fuel(grammar::assign, 1);
        }
        let arg = assign(tokens, pos, env)?;
        proof {
            lemma_nodes_view_push(before, arg);
        }
        args.push(arg);
        if !consume(TokenType::Comma, tokens, pos) {
            expect(TokenType::RightParen, tokens, pos)?;
            return Ok(args);
        }
    }
}

/// Parses a primary expression.
#[verifier::spinoff_prover]
pub fn primary(tokens: &Vec<Token>, pos: &mut usize, env: &mut Env) -> (r: Result<Node, ParseError>)
    ensures
        agrees(r, *final(pos), grammar::primary(tokens@, *old(pos) as int, old(env)@)),
        r is Ok ==> *old(pos) < *final(pos) <= tokens.len() && final(env)@ == old(env)@,
    decreases rest(tokens@, *old(pos) as int), 0nat,
{
    proof {
        reveal_with_fuel(grammar::primary, 1);
        reveal_with_fuel(grammar::call_args, 1);
    }
    let start = *pos;
    if start >= tokens.len() {
        return Err(ParseError::new(ErrorKind::NumberExpected, start));
    }
    *pos += 1;
    match &tokens[start].ty {
        TokenType::Num(val) => {
            return Ok(Node::num(*val));
        },
        TokenType::Str(s, len) => {
            let bytes = s.as_str().len();
            let elem = Box::new(Type::char_ty());
            assert(elem.size * bytes == bytes) by (nonlinear_arith)
                requires
                    elem.size == 1,
            ;
            return Ok(Node::string(s.clone(), *len, Type::ary_of(elem, bytes)));
        },
        TokenType::Ident(name) => {
            if !consume(TokenType::LeftParen, tokens, pos) {
                return Ok(Node::ident(name.clone()));
            }
            if consume(TokenType::RightParen, tokens, pos) {
                proof {
                    lemma_nodes_view_empty();
                }
                return Ok(Node::call(name.clone(), Vec::new()));
            }
            let args = call_args(tokens, pos, env)?;
            return Ok(Node::call(name.clone(), args));
        },
        TokenType::LeftParen => {
            if consume(TokenType::LeftBrace, tokens, pos) {
                let body = compound_stmt(tokens, pos, env)?;
                expect(TokenType::RightParen, tokens, pos)?;
                return Ok(Node::new_expr(UnaryKind::StmtExpr, body));
            }
            let node = expr(tokens, pos, env)?;
            expect(TokenType::RightParen, tokens, pos)?;
            return Ok(node);
        },
        _ => {
            return Err(ParseError::new(ErrorKind::NumberExpected, start));
        },
    }
}

/// Parses a postfix expression.
#[verifier::spinoff_prover]
pub fn postfix(tokens: &Vec<Token>, pos: &mut usize, env: &mut Env) -> (r: Result<Node, ParseError>)
    ensures
        agrees(r, *final(pos), grammar::postfix(tokens@, *old(pos) as int, old(env)@)),
        r is Ok ==> *old(pos) < *final(pos) <= tokens.len() && final(env)@ == old(env)@,
    decreases rest(tokens@, *old(pos) as int), 1nat,
{
    proof {
        reveal_with_fuel(grammar::postfix, 1);
        reveal_with_fuel(grammar::postfix_rest, 1);
    }
    let ghost start = *pos as int;
    let ghost env0 = env@;
    let mut lhs = primary(tokens, pos, env)?;
    loop
        invariant
            start == *old(pos),
            env0 == old(env)@,
            env@ == env0,
            start < *pos <= tokens.len(),
            grammar::postfix(tokens@, start, env0) == grammar::postfix_rest(
                tokens@,
                *pos as int,
                env0,
                lhs@,
            ),
        decreases rest(tokens@, *pos as int),
    {
        proof {
            reveal_with_fuel(grammar::postfix_rest, 1);
            reveal_with_fuel(grammar::assign, 1);
        }
        if consume(TokenType::Dot, tokens, pos) {
            let name = ident(tokens, pos)?;
            lhs = Node::dot(lhs, name);
            continue ;
        }
        if consume(TokenType::Arrow, tokens, pos) {
            let name = ident(tokens, pos)?;
            lhs = Node::dot(Node::new_expr(UnaryKind::Deref, lhs), name);
            continue ;
        }
        if consume(TokenType::LeftBracket, tokens, pos) {
            let index = assign(tokens, pos, env)?;
            lhs = Node::new_expr(UnaryKind::Deref, Node::new_binop(TokenType::Plus, lhs, index));
            expect(TokenType::RightBracket, tokens, pos)?;
            continue ;
        }
        return Ok(lhs);
    }
}

/// Parses a unary expression.
#[verifier::spinoff_prover]
pub fn unary(tokens: &Vec<Token>, pos: &mut usize, env: &mut Env) -> (r: Result<Node, ParseError>)
    ensures
        agrees(r, *final(pos), grammar::unary(tokens@, *old(pos) as int, old(env)@)),
        r is Ok ==> *old(pos) < *final(pos) <= tokens.len() && final(env)@ == old(env)@,
    decreases rest(tokens@, *old(pos) as int), 2nat,
{
    proof {
        reveal_with_fuel(grammar::unary, 1);
        reveal_with_fuel(grammar::postfix, 1);
    }
    if consume(TokenType::Minus, tokens, pos) {
        let n = unary(tokens, pos, env)?;
        return Ok(Node::new_expr(UnaryKind::Neg, n));
    }
    if consume(TokenType::Mul, tokens, pos) {
        let n = unary(tokens, pos, env)?;
        return Ok(Node::new_expr(UnaryKind::Deref, n));
    }
    if consume(TokenType::And, tokens, pos) {
        let n = unary(tokens, pos, env)?;
        return Ok(Node::new_expr(UnaryKind::Addr, n));
    }
    if consume(TokenType::Exclamation, tokens, pos) {
        let n = unary(tokens, pos, env)?;
        return Ok(Node::new_expr(UnaryKind::Exclamation, n));
    }
    if consume(TokenType::Sizeof, tokens, pos) {
        let n = unary(tokens, pos, env)?;
        return Ok(Node::new_expr(UnaryKind::Sizeof, n));
    }
    if consume(TokenType::Alignof, tokens, pos) {
        let n = unary(tokens, pos, env)?;
        return Ok(Node::new_expr(UnaryKind::Alignof, n));
    }
    postfix(tokens, pos, env)
}

/// Parses a multiplicative expression.
#[verifier::spinoff_prover]
pub fn mul(tokens: &Vec<Token>, pos: &mut usize, env: &mut Env) -> (r: Result<Node, ParseError>)
    ensures
        agrees(r, *final(pos), grammar::binary(tokens@, *old(pos) as int, old(env)@, 1)),
        r is Ok ==> *old(pos) < *final(pos) <= tokens.len() && final(env)@ == old(env)@,
    decreases rest(tokens@, *old(pos) as int), 4nat,
{
    proof {
        reveal_with_fuel(grammar::binary, 1);
        reveal_with_fuel(grammar::binary_rest, 1);
        grammar::lemma_binary_zero(tokens@, *pos as int, env@);
    }
    let ghost start = *pos as int;
    let ghost env0 = env@;
    let mut lhs = unary(tokens, pos, env)?;
    loop
        invariant
            start == *old(pos),
            env0 == old(env)@,
            env@ == env0,
            start < *pos <= tokens.len(),
            grammar::binary(tokens@, start, env0, 1) == grammar::binary_rest(
                tokens@,
                *pos as int,
                env0,
                1,
                lhs@,
            ),
        decreases rest(tokens@, *pos as int),
    {
        proof {
            reveal_with_fuel(grammar::binary, 1);
            reveal_with_fuel(grammar::binary_rest, 1);
            grammar::lemma_binary_zero(tokens@, *pos as int, env@);
            grammar::lemma_binary_zero(tokens@, *pos + 1, env@);
        }
        if consume(TokenType::Mul, tokens, pos) {
            let rhs = unary(tokens, pos, env)?;
            lhs = Node::new_binop(TokenType::Mul, lhs, rhs);
        } else if consume(TokenType::Div, tokens, pos) {
            let rhs = unary(tokens, pos, env)?;
            lhs = Node::new_binop(TokenType::Div, lhs, rhs);
        } else if consume(TokenType::Mod, tokens, pos) {
            let rhs = unary(tokens, pos, env)?;
            lhs = Node::new_binop(TokenType::Mod, lhs, rhs);
        } else {
            return Ok(lhs);
        }
    }
}

/// Parses an additive expression.
#[verifier::spinoff_prover]
pub fn add(tokens: &Vec<Token>, pos: &mut usize, env: &mut Env) -> (r: Result<Node, ParseError>)
    ensures
        agrees(r, *final(pos), grammar::binary(tokens@, *old(pos) as int, old(env)@, 2)),
        r is Ok ==> *old(pos) < *final(pos) <= tokens.len() && final(env)@ == old(env)@,
    decreases rest(tokens@, *old(pos) as int), 5nat,
{
    proof {
        reveal_with_fuel(grammar::binary, 1);
        reveal_with_fuel(grammar::binary_rest, 1);
    }
    let ghost start = *pos as int;
    let ghost env0 = env@;
    let mut lhs = self::mul(tokens, pos, env)?;
    loop
        invariant
            start == *old(pos),
            env0 == old(env)@,
            env@ == env0,
            start < *pos <= tokens.len(),
            grammar::binary(tokens@, start, env0, 2) == grammar::binary_rest(
                tokens@,
                *pos as int,
                env0,
                2,
                lhs@,
            ),
        decreases rest(tokens@, *pos as int),
    {
        proof {
            reveal_with_fuel(grammar::binary, 1);
            reveal_with_fuel(grammar::binary_rest, 1);
        }
        if consume(TokenType::Plus, tokens, pos) {
            let rhs = self::mul(tokens, pos, env)?;
            lhs = Node::new_binop(TokenType::Plus, lhs, rhs);
        } else if consume(TokenType::Minus, tokens, pos) {
            let rhs = self::mul(tokens, pos, env)?;
            lhs = Node::new_binop(TokenType::Minus, lhs, rhs);
        } else {
            return Ok(lhs);
        }
    }
}

/// Parses a shift expression.
#[verifier::spinoff_prover]
pub fn shift(tokens: &Vec<Token>, pos: &mut usize, env: &mut Env) -> (r: Result<Node, ParseError>)
    ensures
        agrees(r, *final(pos), grammar::binary(tokens@, *old(pos) as int, old(env)@, 3)),
        r is Ok ==> *old(pos) < *final(pos) <= tokens.len() && final(env)@ == old(env)@,
    decreases rest(tokens@, *old(pos) as int), 6nat,
{
    proof {
        reveal_with_fuel(grammar::binary, 1);
        reveal_with_fuel(grammar::binary_rest, 1);
    }
    let ghost start = *pos as int;
    let ghost env0 = env@;
    let mut lhs = self::add(tokens, pos, env)?;
    loop
        invariant
            start == *old(pos),
            env0 == old(env)@,
            env@ == env0,
            start < *pos <= tokens.len(),
            grammar::binary(tokens@, start, env0, 3) == grammar::binary_rest(
                tokens@,
                *pos as int,
                env0,
                3,
                lhs@,
            ),
        decreases rest(tokens@, *pos as int),
    {
        proof {
            reveal_with_fuel(grammar::binary, 1);
            reveal_with_fuel(grammar::binary_rest, 1);
        }
        if consume(TokenType::SHL, tokens, pos) {
            let rhs = self::add(tokens, pos, env)?;
            lhs = Node::new_binop(TokenType::SHL, lhs, rhs);
        } else if consume(TokenType::SHR, tokens, pos) {
            let rhs = self::add(tokens, pos, env)?;
            lhs = Node::new_binop(TokenType::SHR, lhs, rhs);
        } else {
            return Ok(lhs);
        }
    }
}

/// Parses a relational expression; `a > b` becomes `b < a`, and `a >= b` becomes `b <= a`.
#[verifier::spinoff_prover]
pub fn relational(tokens: &Vec<Token>, pos: &mut usize, env: &mut Env) -> (r: Result<Node, ParseError>)
    ensures
        agrees(r, *final(pos), grammar::binary(tokens@, *old(pos) as int, old(env)@, 4)),
        r is Ok ==> *old(pos) < *final(pos) <= tokens.len() && final(env)@ == old(env)@,
    decreases rest(tokens@, *old(pos) as int), 7nat,
{
    proof {
        reveal_with_fuel(grammar::binary, 1);
        reveal_with_fuel(grammar::binary_rest, 1);
    }
    let ghost start = *pos as int;
    let ghost env0 = env@;
    let mut lhs = shift(tokens, pos, env)?;
    loop
        invariant
            start == *old(pos),
            env0 == old(env)@,
            env@ == env0,
            start < *pos <= tokens.len(),
            grammar::binary(tokens@, start, env0, 4) == grammar::binary_rest(
                tokens@,
                *pos as int,
                env0,
                4,
                lhs@,
            ),
        decreases rest(tokens@, *pos as int),
    {
        proof {
            reveal_with_fuel(grammar::binary, 1);
            reveal_with_fuel(grammar::binary_rest, 1);
        }
        if consume(TokenType::LeftAngleBracket, tokens, pos) {
            let rhs = shift(tokens, pos, env)?;
            lhs = Node::new_binop(TokenType::LeftAngleBracket, lhs, rhs);
        } else if consume(TokenType::RightAngleBracket, tokens, pos) {
            let rhs = shift(tokens, pos, env)?;
            lhs = Node::new_binop(TokenType::LeftAngleBracket, rhs, lhs);
        } else if consume(TokenType::LE, tokens, pos) {
            let rhs = shift(tokens, pos, env)?;
            lhs = Node::new_binop(TokenType::LE, lhs, rhs);
        } else if consume(TokenType::GE, tokens, pos) {
            let rhs = shift(tokens, pos, env)?;
            lhs = Node::new_binop(TokenType::LE, rhs, lhs);
        } else {
            return Ok(lhs);
        }
    }
}

/// Parses an equality expression.
#[verifier::spinoff_prover]
pub fn equality(tokens: &Vec<Token>, pos: &mut usize, env: &mut Env) -> (r: Result<Node, ParseError>)
    ensures
        agrees(r, *final(pos), grammar::binary(tokens@, *old(pos) as int, old(env)@, 5)),
        r is Ok ==> *old(pos) < *final(pos) <= tokens.len() && final(env)@ == old(env)@,
    decreases rest(tokens@, *old(pos) as int), 8nat,
{
    proof {
        reveal_with_fuel(grammar::binary, 1);
        reveal_with_fuel(grammar::binary_rest, 1);
    }
    let ghost start = *pos as int;
    let ghost env0 = env@;
    let mut lhs = relational(tokens, pos, env)?;
    loop
        invariant
            start == *old(pos),
            env0 == old(env)@,
            env@ == env0,
            start < *pos <= tokens.len(),
            grammar::binary(tokens@, start, env0, 5) == grammar::binary_rest(
                tokens@,
                *pos as int,
                env0,
                5,
                lhs@,
            ),
        decreases rest(tokens@, *pos as int),
    {
        proof {
            reveal_with_fuel(grammar::binary, 1);
            reveal_with_fuel(grammar::binary_rest, 1);
        }
        if consume(TokenType::EQ, tokens, pos) {
            let rhs = relational(tokens, pos, env)?;
            lhs = Node::new_binop(TokenType::EQ, lhs, rhs);
        } else if consume(TokenType::NE, tokens, pos) {
            let rhs = relational(tokens, pos, env)?;
            lhs = Node::new_binop(TokenType::NE, lhs, rhs);
        } else {
            return Ok(lhs);
        }
    }
}

/// Parses a bitwise and expression.
#[verifier::spinoff_prover]
pub fn bit_and(tokens: &Vec<Token>, pos: &mut usize, env: &mut Env) -> (r: Result<Node, ParseError>)
    ensures
        agrees(r, *final(pos), grammar::binary(tokens@, *old(pos) as int, old(env)@, 6)),
        r is Ok ==> *old(pos) < *final(pos) <= tokens.len() && final(env)@ == old(env)@,
    decreases rest(tokens@, *old(pos) as int), 9nat,
{
    proof {
        reveal_with_fuel(grammar::binary, 1);
        reveal_with_fuel(grammar::binary_rest, 1);
    }
    let ghost start = *pos as int;
    let ghost env0 = env@;
    let mut lhs = equality(tokens, pos, env)?;
    loop
        invariant
            start == *old(pos),
            env0 == old(env)@,
            env@ == env0,
            start < *pos <= tokens.len(),
            grammar::binary(tokens@, start, env0, 6) == grammar::binary_rest(
                tokens@,
                *pos as int,
                env0,
                6,
                lhs@,
            ),
        decreases rest(tokens@, *pos as int),
    {
        proof {
            reveal_with_fuel(grammar::binary, 1);
            reveal_with_fuel(grammar::binary_rest, 1);
        }
        if consume(TokenType::And, tokens, pos) {
            let rhs = equality(tokens, pos, env)?;
            lhs = Node::new_binop(TokenType::And, lhs, rhs);
        } else {
            return Ok(lhs);
        }
    }
}

/// Parses a bitwise exclusive or expression.
#[verifier::spinoff_prover]
pub fn bit_xor(tokens: &Vec<Token>, pos: &mut usize, env: &mut Env) -> (r: Result<Node, ParseError>)
    ensures
        agrees(r, *final(pos), grammar::binary(tokens@, *old(pos) as int, old(env)@, 7)),
        r is Ok ==> *old(pos) < *final(pos) <= tokens.len() && final(env)@ == old(env)@,
    decreases rest(tokens@, *old(pos) as int), 10nat,
{
    proof {
        reveal_with_fuel(grammar::binary, 1);
        reveal_with_fuel(grammar::binary_rest, 1);
    }
    let ghost start = *pos as int;
    let ghost env0 = env@;
    let mut lhs = bit_and(tokens, pos, env)?;
    loop
        invariant
            start == *old(pos),
            env0 == old(env)@,
            env@ == env0,
            start < *pos <= tokens.len(),
            grammar::binary(tokens@, start, env0, 7) == grammar::binary_rest(
                tokens@,
                *pos as int,
                env0,
                7,
                lhs@,
            ),
        decreases rest(tokens@, *pos as int),
    {
        proof {
            reveal_with_fuel(grammar::binary, 1);
            reveal_with_fuel(grammar::binary_rest, 1);
        }
        if consume(TokenType::Hat, tokens, pos) {
            let rhs = bit_and(tokens, pos, env)?;
            lhs = Node::new_binop(TokenType::Hat, lhs, rhs);
        } else {
            return Ok(lhs);
        }
    }
}

/// Parses a bitwise or expression.
#[verifier::spinoff_prover]
pub fn bit_or(tokens: &Vec<Token>, pos: &mut usize, env: &mut Env) -> (r: Result<Node, ParseError>)
    ensures
        agrees(r, *final(pos), grammar::binary(tokens@, *old(pos) as int, old(env)@, 8)),
        r is Ok ==> *old(pos) < *final(pos) <= tokens.len() && final(env)@ == old(env)@,
    decreases rest(tokens@, *old(pos) as int), 11nat,
{
    proof {
        reveal_with_fuel(grammar::binary, 1);
        reveal_with_fuel(grammar::binary_rest, 1);
    }
    let ghost start = *pos as int;
    let ghost env0 = env@;
    let mut lhs = bit_xor(tokens, pos, env)?;
    loop
        invariant
            start == *old(pos),
            env0 == old(env)@,
            env@ == env0,
            start < *pos <= tokens.len(),
            grammar::binary(tokens@, start, env0, 8) == grammar::binary_rest(
                tokens@,
                *pos as int,
                env0,
                8,
                lhs@,
            ),
        decreases rest(tokens@, *pos as int),
    {
        proof {
            reveal_with_fuel(grammar::binary, 1);
            reveal_with_fuel(grammar::binary_rest, 1);
        }
        if consume(TokenType::VerticalBar, tokens, pos) {
            let rhs = bit_xor(tokens, pos, env)?;
            lhs = Node::new_binop(TokenType::VerticalBar, lhs, rhs);
        } else {
            return Ok(lhs);
        }
    }
}

/// Parses a logical and expression.
#[verifier::spinoff_prover]
pub fn logand(tokens: &Vec<Token>, pos: &mut usize, env: &mut Env) -> (r: Result<Node, ParseError>)
    ensures
        agrees(r, *final(pos), grammar::binary(tokens@, *old(pos) as int, old(env)@, 9)),
        r is Ok ==> *old(pos) < *final(pos) <= tokens.len() && final(env)@ == old(env)@,
    decreases rest(tokens@, *old(pos) as int), 12nat,
{
    proof {
        reveal_with_fuel(grammar::binary, 1);
        reveal_with_fuel(grammar::binary_rest, 1);
    }
    let ghost start = *pos as int;
    let ghost env0 = env@;
    let mut lhs = bit_or(tokens, pos, env)?;
    loop
        invariant
            start == *old(pos),
            env0 == old(env)@,
            env@ == env0,
            start < *pos <= tokens.len(),
            grammar::binary(tokens@, start, env0, 9) == grammar::binary_rest(
                tokens@,
                *pos as int,
                env0,
                9,
                lhs@,
            ),
        decreases rest(tokens@, *pos as int),
    {
        proof {
            reveal_with_fuel(grammar::binary, 1);
            reveal_with_fuel(grammar::binary_rest, 1);
        }
        if consume(TokenType::Logand, tokens, pos) {
            let rhs = bit_or(tokens, pos, env)?;
            lhs = Node::new_binop(TokenType::Logand, lhs, rhs);
        } else {
            return Ok(lhs);
        }
    }
}

/// Parses a logical or expression.
#[verifier::spinoff_prover]
pub fn logor(tokens: &Vec<Token>, pos: &mut usize, env: &mut Env) -> (r: Result<Node, ParseError>)
    ensures
        agrees(r, *final(pos), grammar::binary(tokens@, *old(pos) as int, old(env)@, 10)),
        r is Ok ==> *old(pos) < *final(pos) <= tokens.len() && final(env)@ == old(env)@,
    decreases rest(tokens@, *old(pos) as int), 13nat,
{
    proof {
        reveal_with_fuel(grammar::binary, 1);
        reveal_with_fuel(grammar::binary_rest, 1);
    }
    let ghost start = *pos as int;
    let ghost env0 = env@;
    let mut lhs = logand(tokens, pos, env)?;
    loop
        invariant
            start == *old(pos),
            env0 == old(env)@,
            env@ == env0,
            start < *pos <= tokens.len(),
            grammar::binary(tokens@, start, env0, 10) == grammar::binary_rest(
                tokens@,
                *pos as int,
                env0,
                10,
                lhs@,
            ),
        decreases rest(tokens@, *pos as int),
    {
        proof {
            reveal_with_fuel(grammar::binary, 1);
            reveal_with_fuel(grammar::binary_rest, 1);
        }
        if consume(TokenType::Logor, tokens, pos) {
            let rhs = logand(tokens, pos, env)?;
            lhs = Node::new_binop(TokenType::Logor, lhs, rhs);
        } else {
            return Ok(lhs);
        }
    }
}

/// Parses a conditional expression.
#[verifier::spinoff_prover]
pub fn conditional(tokens: &Vec<Token>, pos: &mut usize, env: &mut Env) -> (r: Result<Node, ParseError>)
    ensures
        agrees(r, *final(pos), grammar::conditional(tokens@, *old(pos) as int, old(env)@)),
        r is Ok ==> *old(pos) < *final(pos) <= tokens.len() && final(env)@ == old(env)@,
    decreases rest(tokens@, *old(pos) as int), 14nat,
{
    proof {
        reveal_with_fuel(grammar::conditional, 1);
        reveal_with_fuel(grammar::binary, 1);
        reveal_with_fuel(grammar::expr, 1);
    }
    let cond = logor(tokens, pos, env)?;
    if !consume(TokenType::Question, tokens, pos) {
        return Ok(cond);
    }
    let then = expr(tokens, pos, env)?;
    expect(TokenType::Colon, tokens, pos)?;
    let els = conditional(tokens, pos, env)?;
    Ok(Node::ternary(cond, then, els))
}

/// Parses an assignment expression.
#[verifier::spinoff_prover]
pub fn assign(tokens: &Vec<Token>, pos: &mut usize, env: &mut Env) -> (r: Result<Node, ParseError>)
    ensures
        agrees(r, *final(pos), grammar::assign(tokens@, *old(pos) as int, old(env)@)),
        r is Ok ==> *old(pos) < *final(pos) <= tokens.len() && final(env)@ == old(env)@,
    decreases rest(tokens@, *old(pos) as int), 15nat,
{
    proof {
        reveal_with_fuel(grammar::assign, 1);
        reveal_with_fuel(grammar::conditional, 1);
    }
    let lhs = conditional(tokens, pos, env)?;
    if !consume(TokenType::Equal, tokens, pos) {
        return Ok(lhs);
    }
    let rhs = assign(tokens, pos, env)?;
    Ok(Node::new_binop(TokenType::Equal, lhs, rhs))
}

/// Parses an expression.
#[verifier::spinoff_prover]
pub fn expr(tokens: &Vec<Token>, pos: &mut usize, env: &mut Env) -> (r: Result<Node, ParseError>)
    ensures
        agrees(r, *final(pos), grammar::expr(tokens@, *old(pos) as int, old(env)@)),
        r is Ok ==> *old(pos) < *final(pos) <= tokens.len() && final(env)@ == old(env)@,
    decreases rest(tokens@, *old(pos) as int), 16nat,
{
    proof {
        reveal_with_fuel(grammar::expr, 1);
        reveal_with_fuel(grammar::expr_rest, 1);
        reveal_with_fuel(grammar::assign, 1);
    }
    let ghost start = *pos as int;
    let ghost env0 = env@;
    let mut lhs = assign(tokens, pos, env)?;
    loop
        invariant
            start == *old(pos),
            env0 == old(env)@,
            env@ == env0,
            start < *pos <= tokens.len(),
            grammar::expr(tokens@, start, env0) == grammar::expr_rest(
                tokens@,
                *pos as int,
                env0,
                lhs@,
            ),
        decreases rest(tokens@, *pos as int),
    {
        proof {
            reveal_with_fuel(grammar::expr_rest, 1);
            reveal_with_fuel(grammar::assign, 1);
        }
        if !consume(TokenType::Comma, tokens, pos) {
            return Ok(lhs);
        }
        let rhs = assign(tokens, pos, env)?;
        lhs = Node::new_binop(TokenType::Comma, lhs, rhs);
    }
}

/// Parses an expression statement.
#[verifier::spinoff_prover]
pub fn expr_stmt(tokens: &Vec<Token>, pos: &mut usize, env: &mut Env) -> (r: Result<Node, ParseError>)
    ensures
        agrees(r, *final(pos), grammar::expr_stmt(tokens@, *old(pos) as int, old(env)@)),
        r is Ok ==> *old(pos) < *final(pos) <= tokens.len() && final(env)@ == old(env)@,
    decreases rest(tokens@, *old(pos) as int), 17nat,
{
    proof {
        reveal_with_fuel(grammar::expr_stmt, 1);
        reveal_with_fuel(grammar::expr, 1);
    }
    let e = expr(tokens, pos, env)?;
    expect(TokenType::Semicolon, tokens, pos)?;
    Ok(Node::new_expr(UnaryKind::ExprStmt, e))
}

} // verus!
