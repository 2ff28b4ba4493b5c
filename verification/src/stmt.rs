//! The parser of statements and blocks.

use vstd::prelude::*;
use crate::ast::{Node, NodeView, UnaryKind, lemma_nodes_view_empty, lemma_nodes_view_push, nodes_view};
use crate::decl::decl;
use crate::env::Env;
use crate::error::{ErrorKind, ParseError};
use crate::expr::{expr, expr_stmt};
use crate::grammar;
use crate::grammar::rest;
use crate::parse::{agrees, agrees_scoped, consume, expect, is_typename};
use crate::token::{Token, TokenType};

verus! {

/// Parses a statement.
#[verifier::spinoff_prover]
pub fn stmt(tokens: &Vec<Token>, pos: &mut usize, env: &mut Env) -> (r: Result<Node, ParseError>)
    ensures
        agrees_scoped(
            r,
            *final(pos),
            final(env)@,
            grammar::stmt(tokens@, *old(pos) as int, old(env)@),
        ),
        r is Ok ==> *old(pos) < *final(pos) <= tokens.len() && final(env)@.next == old(
            env,
        )@.next,
    decreases rest(tokens@, *old(pos) as int), 20nat,
{
    proof {
        reveal_with_fuel(grammar::stmt, 1);
        reveal_with_fuel(grammar::decl, 1);
        reveal_with_fuel(grammar::expr, 1);
        reveal_with_fuel(grammar::expr_stmt, 1);
        reveal_with_fuel(grammar::compound_stmt, 1);
    }
    let start = *pos;
    if consume(TokenType::Typedef, tokens, pos) {
        let node = decl(tokens, pos, env)?;
        return match node.into_vardef() {
            Some((name, ty)) => {
                env.define_typedef(name, ty);
                Ok(Node::null())
            },
            None => Err(ParseError::new(ErrorKind::Internal, start)),
        };
    }
    if is_typename(tokens, *pos, env) {
        return decl(tokens, pos, env);
    }
    if consume(TokenType::If, tokens, pos) {
        expect(TokenType::LeftParen, tokens, pos)?;
        let cond = expr(tokens, pos, env)?;
        expect(TokenType::RightParen, tokens, pos)?;
        let then = stmt(tokens, pos, env)?;
        if consume(TokenType::Else, tokens, pos) {
            let els = stmt(tokens, pos, env)?;
            return Ok(Node::if_else(cond, then, Some(els)));
        }
        return Ok(Node::if_else(cond, then, None));
    }
    if consume(TokenType::For, tokens, pos) {
        expect(TokenType::LeftParen, tokens, pos)?;
        let first = if is_typename(tokens, *pos, env) {
            decl(tokens, pos, env)
        } else {
            expr_stmt(tokens, pos, env)
        };
        let init = first?;
        let cond = expr(tokens, pos, env)?;
        expect(TokenType::Semicolon, tokens, pos)?;
        let inc = Node::new_expr(UnaryKind::ExprStmt, expr(tokens, pos, env)?);
        expect(TokenType::RightParen, tokens, pos)?;
        let body = stmt(tokens, pos, env)?;
        return Ok(Node::for_loop(init, cond, inc, body));
    }
    if consume(TokenType::While, tokens, pos) {
        expect(TokenType::LeftParen, tokens, pos)?;
        let cond = expr(tokens, pos, env)?;
        expect(TokenType::RightParen, tokens, pos)?;
        let body = stmt(tokens, pos, env)?;
        return Ok(Node::for_loop(Node::null(), cond, Node::null(), body));
    }
    if consume(TokenType::Do, tokens, pos) {
        let body = stmt(tokens, pos, env)?;
        expect(TokenType::While, tokens, pos)?;
        expect(TokenType::LeftParen, tokens, pos)?;
        let cond = expr(tokens, pos, env)?;
        expect(TokenType::RightParen, tokens, pos)?;
        expect(TokenType::Semicolon, tokens, pos)?;
        return Ok(Node::do_while(body, cond));
    }
    if consume(TokenType::Return, tokens, pos) {
        let e = expr(tokens, pos, env)?;
        expect(TokenType::Semicolon, tokens, pos)?;
        return Ok(Node::new_expr(UnaryKind::Return, e));
    }
    if consume(TokenType::LeftBrace, tokens, pos) {
        return compound_stmt(tokens, pos, env);
    }
    if consume(TokenType::Semicolon, tokens, pos) {
        return Ok(Node::null());
    }
    expr_stmt(tokens, pos, env)
}

/// Parses the rest of a block behind its `{`, up to and with the `}`. The statements
/// are parsed in a scope of their own, which is left again at the end.
#[verifier::spinoff_prover]
pub fn compound_stmt(tokens: &Vec<Token>, pos: &mut usize, env: &mut Env) -> (r: Result<
    Node,
    ParseError,
>)
    ensures
        agrees(r, *final(pos), grammar::compound_stmt(tokens@, *old(pos) as int, old(env)@)),
        r is Ok ==> *old(pos) < *final(pos) <= tokens.len() && final(env)@ == old(env)@,
    decreases rest(tokens@, *old(pos) as int), 31nat,
{
    proof {
        reveal_with_fuel(grammar::compound_stmt, 1);
        reveal_with_fuel(grammar::stmts, 1);
    }
    let ghost start = *pos as int;
    let ghost env0 = env@;
    let mut stmts: Vec<Node> = Vec::new();
    proof {
        lemma_nodes_view_empty();
    }
    env.push_frame();
    loop
        invariant
            start == *old(pos),
            env0 == old(env)@,
            env@.next == Some(Box::new(env0)),
            start <= *pos,
            start < *pos ==> *pos <= tokens.len(),
            grammar::stmts(tokens@, start, env0.push_frame(), Seq::empty()) == grammar::stmts(
                tokens@,
                *pos as int,
                env@,
                nodes_view(stmts@),
            ),
        decreases rest(tokens@, *pos as int),
    {
        proof {
            reveal_with_fuel(grammar::compound_stmt, 1);
            reveal_with_fuel(grammar::stmts, 1);
            reveal_with_fuel(grammar::stmt, 1);
        }
        if consume(TokenType::RightBrace, tokens, pos) {
            env.pop_frame();
            return Ok(Node::comp_stmt(stmts));
        }
        if *pos >= tokens.len() {
            return Err(ParseError::new(ErrorKind::Expected(TokenType::RightBrace), *pos));
        }
        let ghost before = stmts@;
        let s = stmt(tokens, pos, env)?;
        proof {
            lemma_nodes_view_push(before, s);
        }
        stmts.push(s);
    }
}

} // verus!
