//! The parser of whole inputs and of top-level declarations, and what every parsing
//! function uses to read tokens.

use vstd::prelude::*;
use crate::ast::{Node, NodeView, Scope, lemma_nodes_view_empty, lemma_nodes_view_push, nodes_view};
use crate::env::{Env, EnvView};
use crate::error::{ErrorKind, ParseError};
use crate::grammar;
use crate::decl::{ctype, param, read_array};
use crate::grammar::{Parsed, Scoped, at, rest};
use crate::stmt::compound_stmt;
use crate::token::{Token, TokenType};

verus! {

/// Whether the outcome `r` of a parser that stopped at token index `end` is what the
/// grammar gives.
pub open spec fn agrees(
    r: Result<Node, ParseError>,
    end: usize,
    g: Result<Parsed<NodeView>, ParseError>,
) -> bool {
    match r {
        Ok(n) => g == Ok::<Parsed<NodeView>, ParseError>(Parsed { val: n@, pos: end as int }),
        Err(e) => g == Err::<Parsed<NodeView>, ParseError>(e),
    }
}

/// Whether the outcome `r` of a parser that stopped at token index `end` and left the
/// scope `env` is what the grammar gives.
pub open spec fn agrees_scoped(
    r: Result<Node, ParseError>,
    end: usize,
    env: EnvView,
    g: Result<Scoped<NodeView>, ParseError>,
) -> bool {
    match r {
        Ok(n) => g == Ok::<Scoped<NodeView>, ParseError>(
            Scoped { val: n@, pos: end as int, env },
        ),
        Err(e) => g == Err::<Scoped<NodeView>, ParseError>(e),
    }
}

/// Steps over the token at `pos` if it is of kind `ty`, and says whether it did.
pub fn consume(ty: TokenType, tokens: &Vec<Token>, pos: &mut usize) -> (r: bool)
    ensures
        r == at(tokens@, *old(pos) as int, ty),
        *final(pos) == if r {
            *old(pos) + 1
        } else {
            *old(pos) as int
        },
{
    if *pos >= tokens.len() {
        return false;
    }
    if tokens[*pos].ty != ty {
        return false;
    }
    *pos += 1;
    true
}

/// Steps over the token at `pos`, which must be of kind `ty`.
pub fn expect(ty: TokenType, tokens: &Vec<Token>, pos: &mut usize) -> (r: Result<(), ParseError>)
    ensures
        match r {
            Ok(_) => grammar::expect(tokens@, *old(pos) as int, ty) == Ok::<int, ParseError>(
                *final(pos) as int,
            ),
            Err(e) => grammar::expect(tokens@, *old(pos) as int, ty) == Err::<int, ParseError>(e),
        },
{
    if *pos < tokens.len() && tokens[*pos].ty == ty {
        *pos += 1;
        Ok(())
    } else {
        Err(ParseError::new(ErrorKind::Expected(ty), *pos))
    }
}

/// Steps over the identifier at `pos` and hands out its name.
pub fn ident(tokens: &Vec<Token>, pos: &mut usize) -> (r: Result<String, ParseError>)
    ensures
        match r {
            Ok(name) => grammar::ident(tokens@, *old(pos) as int) == Ok::<
                Parsed<Seq<char>>,
                ParseError,
            >(Parsed { val: name@, pos: *final(pos) as int }),
            Err(e) => grammar::ident(tokens@, *old(pos) as int) == Err::<
                Parsed<Seq<char>>,
                ParseError,
            >(e),
        },
{
    if *pos < tokens.len() {
        if let TokenType::Ident(name) = &tokens[*pos].ty {
            *pos += 1;
            return Ok(name.clone());
        }
    }
    Err(ParseError::new(ErrorKind::VariableNameExpected, *pos))
}

/// Whether a declaration starts with the token at `pos`.
pub fn is_typename(tokens: &Vec<Token>, pos: usize, env: &Env) -> (r: bool)
    ensures
        r == grammar::is_typename(tokens@, pos as int, env@),
{
    if pos >= tokens.len() {
        return false;
    }
    match &tokens[pos].ty {
        TokenType::Ident(name) => match env.find_typedef(name) {
            Some(_) => true,
            None => false,
        },
        TokenType::Int => true,
        TokenType::Char => true,
        TokenType::Void => true,
        TokenType::Struct => true,
        _ => false,
    }
}

/// Parses the parameters of a function behind its `(`, up to and with the `)`.
#[verifier::spinoff_prover]
pub fn params(tokens: &Vec<Token>, pos: &mut usize, env: &mut Env) -> (r: Result<
    Vec<Node>,
    ParseError,
>)
    ensures
        match r {
            Ok(args) => grammar::params(tokens@, *old(pos) as int, old(env)@, Seq::empty())
                == Ok::<Scoped<Seq<NodeView>>, ParseError>(
                Scoped { val: nodes_view(args@), pos: *final(pos) as int, env: final(env)@ },
            ),
            Err(e) => grammar::params(tokens@, *old(pos) as int, old(env)@, Seq::empty())
                == Err::<Scoped<Seq<NodeView>>, ParseError>(e),
        },
        r is Ok ==> *old(pos) < *final(pos) <= tokens.len() && final(env)@.next == old(
            env,
        )@.next,
{
    let ghost start = *pos as int;
    let ghost env0 = env@;
    let mut args: Vec<Node> = Vec::new();
    proof {
        lemma_nodes_view_empty();
    }
    loop
        invariant
            start == *old(pos),
            env0 == old(env)@,
            env@.next == env0.next,
            start <= *pos,
            start < *pos ==> *pos <= tokens.len(),
            grammar::params(tokens@, start, env0, Seq::empty()) == grammar::params(
                tokens@,
                *pos as int,
                env@,
                nodes_view(args@),
            ),
        decreases rest(tokens@, *pos as int),
    {
        proof {
            reveal_with_fuel(grammar::params, 1);
            reveal_with_fuel(grammar::param, 1);
        }
        let ghost before = args@;
        let arg = param(tokens, pos, env)?;
        proof {
            lemma_nodes_view_push(before, arg);
        }
        args.push(arg);
        if !consume(TokenType::Comma, tokens, pos) {
            expect(TokenType::RightParen, tokens, pos)?;
            return Ok(args);
        }
    }
}

/// Parses a top-level declaration: a function definition or a global variable.
#[verifier::spinoff_prover]
pub fn toplevel(tokens: &Vec<Token>, pos: &mut usize, env: &mut Env) -> (r: Result<
    Node,
    ParseError,
>)
    ensures
        agrees_scoped(
            r,
            *final(pos),
            final(env)@,
            grammar::toplevel(tokens@, *old(pos) as int, old(env)@),
        ),
        r is Ok ==> *old(pos) < *final(pos) <= tokens.len() && final(env)@.next == old(
            env,
        )@.next,
{
    proof {
        reveal_with_fuel(grammar::toplevel, 1);
        reveal_with_fuel(grammar::ctype, 1);
        reveal_with_fuel(grammar::params, 1);
        reveal_with_fuel(grammar::compound_stmt, 1);
        reveal_with_fuel(grammar::read_array, 1);
    }
    let is_extern = consume(TokenType::Extern, tokens, pos);
    let ty = ctype(tokens, pos, env)?;
    if *pos >= tokens.len() {
        return Err(ParseError::new(ErrorKind::NameExpected, *pos));
    }
    let name = match &tokens[*pos].ty {
        TokenType::Ident(name) => name.clone(),
        _ => {
            return Err(ParseError::new(ErrorKind::NameExpected, *pos));
        },
    };
    *pos += 1;
    // Function
    if consume(TokenType::LeftParen, tokens, pos) {
        let mut args: Vec<Node> = Vec::new();
        proof {
            lemma_nodes_view_empty();
        }
        if !consume(TokenType::RightParen, tokens, pos) {
            args = params(tokens, pos, env)?;
        }
        expect(TokenType::LeftBrace, tokens, pos)?;
        let body = compound_stmt(tokens, pos, env)?;
        return Ok(Node::func(name, args, body));
    }
    // Global variable
    let ty = read_array(Box::new(ty), tokens, pos, env)?;
    let size = if is_extern {
        0
    } else {
        ty.size_of()
    };
    let node = Node::vardef(name, None, Scope::Global(String::new(), size, is_extern), *ty);
    expect(TokenType::Semicolon, tokens, pos)?;
    Ok(node)
}

/// Parses a whole input: its top-level declarations in order, from the first token to
/// the last. The scope starts empty.
#[verifier::spinoff_prover]
pub fn parse(tokens: &Vec<Token>) -> (r: Result<Vec<Node>, ParseError>)
    ensures
        match r {
            Ok(nodes) => grammar::parse(tokens@) == Ok::<Seq<NodeView>, ParseError>(
                nodes_view(nodes@),
            ),
            Err(e) => grammar::parse(tokens@) == Err::<Seq<NodeView>, ParseError>(e),
        },
{
    let mut pos: usize = 0;
    let mut env = Env::new(None);
    let mut v: Vec<Node> = Vec::new();
    proof {
        lemma_nodes_view_empty();
    }
    while tokens.len() != pos
        invariant
            pos <= tokens.len(),
            grammar::parse(tokens@) == grammar::program(
                tokens@,
                pos as int,
                env@,
                nodes_view(v@),
            ),
        decreases rest(tokens@, pos as int),
    {
        proof {
            reveal_with_fuel(grammar::program, 1);
            reveal_with_fuel(grammar::toplevel, 1);
        }
        let ghost before = v@;
        let node = toplevel(tokens, &mut pos, &mut env)?;
        proof {
            lemma_nodes_view_push(before, node);
        }
        v.push(node);
    }
    proof {
        reveal_with_fuel(grammar::program, 1);
    }
    Ok(v)
}

} // verus!
