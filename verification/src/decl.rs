//! The parser of types and declarations.

use vstd::prelude::*;
use crate::ast::{Node, NodeView, Scope, Type, TypeView, UnaryKind, clone_nodes, lemma_nodes_view_empty, lemma_nodes_view_len, lemma_nodes_view_push, nodes_view};
use crate::env::Env;
use crate::error::{ErrorKind, ParseError};
use crate::expr::{assign, expr, primary};
use crate::grammar;
use crate::grammar::{Parsed, Scoped, rest};
use crate::parse::{agrees_scoped, consume, expect, ident};
use crate::token::{Token, TokenType};

verus! {

/// Parses the member declarations of a struct behind its `{`, up to and with the `}`.
#[verifier::spinoff_prover]
pub fn struct_members(tokens: &Vec<Token>, pos: &mut usize, env: &mut Env) -> (r: Result<
    Vec<Node>,
    ParseError,
>)
    ensures
        match r {
            Ok(ms) => grammar::struct_members(
                tokens@,
                *old(pos) as int,
                old(env)@,
                Seq::empty(),
            ) == Ok::<Scoped<Seq<NodeView>>, ParseError>(
                Scoped { val: nodes_view(ms@), pos: *final(pos) as int, env: final(env)@ },
            ),
            Err(e) => grammar::struct_members(tokens@, *old(pos) as int, old(env)@, Seq::empty())
                == Err::<Scoped<Seq<NodeView>>, ParseError>(e),
        },
        r is Ok ==> *old(pos) < *final(pos) <= tokens.len() && final(env)@.next == old(
            env,
        )@.next,
    decreases rest(tokens@, *old(pos) as int), 30nat,
{
    let ghost start = *pos as int;
    let ghost env0 = env@;
    let mut members: Vec<Node> = Vec::new();
    proof {
        lemma_nodes_view_empty();
    }
    loop
        invariant
            start == *old(pos),
            env0 == old(env)@,
            env@.next == env0.next,
            start <= *pos,
            start < *pos ==> *pos <= tokens.len(),
            grammar::struct_members(tokens@, start, env0, Seq::empty())
                == grammar::struct_members(tokens@, *pos as int, env@, nodes_view(members@)),
        decreases rest(tokens@, *pos as int),
    {
        proof {
            reveal_with_fuel(grammar::struct_members, 1);
            reveal_with_fuel(grammar::decl, 1);
        }
        if consume(TokenType::RightBrace, tokens, pos) {
            return Ok(members);
        }
        if *pos >= tokens.len() {
            return Err(ParseError::new(ErrorKind::Expected(TokenType::RightBrace), *pos));
        }
        let ghost before = members@;
        let member = decl(tokens, pos, env)?;
        proof {
            lemma_nodes_view_push(before, member);
        }
        members.push(member);
    }
}

/// Parses the type that starts at `pos`, without stars and array lengths. Where no type
/// starts there, nothing is read and `None` comes back.
#[verifier::spinoff_prover]
pub fn read_type(tokens: &Vec<Token>, pos: &mut usize, env: &mut Env) -> (r: Result<
    Option<Type>,
    ParseError,
>)
    ensures
        match r {
            Ok(Some(ty)) => grammar::read_type(tokens@, *old(pos) as int, old(env)@) == Ok::<
                Option<Scoped<TypeView>>,
                ParseError,
            >(Some(Scoped { val: ty@, pos: *final(pos) as int, env: final(env)@ })),
            Ok(None) => grammar::read_type(tokens@, *old(pos) as int, old(env)@) == Ok::<
                Option<Scoped<TypeView>>,
                ParseError,
            >(None) && *final(pos) == *old(pos) && final(env)@ == old(env)@,
            Err(e) => grammar::read_type(tokens@, *old(pos) as int, old(env)@) == Err::<
                Option<Scoped<TypeView>>,
                ParseError,
            >(e),
        },
        r matches Ok(Some(_)) ==> *old(pos) < *final(pos) <= tokens.len() && final(env)@.next
            == old(env)@.next,
    decreases rest(tokens@, *old(pos) as int), 17nat,
{
    proof {
        reveal_with_fuel(grammar::read_type, 1);
        reveal_with_fuel(grammar::struct_members, 1);
    }
    let start = *pos;
    if start >= tokens.len() {
        return Ok(None);
    }
    match &tokens[start].ty {
        TokenType::Ident(name) => {
            match env.find_typedef(name) {
                Some(ty) => {
                    *pos += 1;
                    return Ok(Some(ty));
                },
                None => {
                    return Ok(None);
                },
            }
        },
        TokenType::Int => {
            *pos += 1;
            return Ok(Some(Type::int_ty()));
        },
        TokenType::Char => {
            *pos += 1;
            return Ok(Some(Type::char_ty()));
        },
        TokenType::Void => {
            *pos += 1;
            return Ok(Some(Type::void_ty()));
        },
        TokenType::Struct => {
            *pos += 1;
            let mut tag: Option<String> = None;
            if *pos < tokens.len() {
                if let TokenType::Ident(name) = &tokens[*pos].ty {
                    *pos += 1;
                    tag = Some(name.clone());
                }
            }
            let mut members: Vec<Node> = Vec::new();
            proof {
                lemma_nodes_view_empty();
            }
            if consume(TokenType::LeftBrace, tokens, pos) {
                members = struct_members(tokens, pos, env)?;
            }
            proof {
                lemma_nodes_view_len(members@);
            }
            match tag {
                Some(name) => {
                    if members.len() == 0 {
                        match env.find_tag(&name) {
                            Some(found) => {
                                proof {
                                    lemma_nodes_view_len(found@);
                                }
                                if found.len() == 0 {
                                    return Err(ParseError::new(ErrorKind::IncompleteType, start));
                                }
                                members = found;
                            },
                            None => {
                                return Err(ParseError::new(ErrorKind::IncompleteType, start));
                            },
                        }
                    } else {
                        env.define_tag(name, clone_nodes(&members));
                    }
                },
                None => {
                    if members.len() == 0 {
                        return Err(ParseError::new(ErrorKind::BadStructDefinition, start));
                    }
                },
            }
            if !Type::is_member_list(&members) {
                return Err(ParseError::new(ErrorKind::Internal, start));
            }
            match Type::checked_struct(members) {
                Some(ty) => {
                    return Ok(Some(ty));
                },
                None => {
                    return Err(ParseError::new(ErrorKind::TypeTooLarge, start));
                },
            }
        },
        _ => {
            return Ok(None);
        },
    }
}

/// Whether the outcome `r` of a parser of types that stopped at token index `end` and
/// left the scope `env` is what the grammar gives.
pub open spec fn agrees_type(
    r: Result<Type, ParseError>,
    end: usize,
    env: crate::env::EnvView,
    g: Result<Scoped<TypeView>, ParseError>,
) -> bool {
    match r {
        Ok(ty) => g == Ok::<Scoped<TypeView>, ParseError>(
            Scoped { val: ty@, pos: end as int, env },
        ),
        Err(e) => g == Err::<Scoped<TypeView>, ParseError>(e),
    }
}

/// Parses the first half of a type: a type name and any number of stars.
#[verifier::spinoff_prover]
pub fn ctype(tokens: &Vec<Token>, pos: &mut usize, env: &mut Env) -> (r: Result<Type, ParseError>)
    ensures
        agrees_type(
            r,
            *final(pos),
            final(env)@,
            grammar::ctype(tokens@, *old(pos) as int, old(env)@),
        ),
        r is Ok ==> *old(pos) < *final(pos) <= tokens.len() && final(env)@.next == old(
            env,
        )@.next,
    decreases rest(tokens@, *old(pos) as int), 18nat,
{
    proof {
        reveal_with_fuel(grammar::ctype, 1);
        reveal_with_fuel(grammar::read_type, 1);
        reveal_with_fuel(grammar::pointers, 1);
    }
    let start = *pos;
    let mut ty = match read_type(tokens, pos, env) {
        Ok(Some(ty)) => ty,
        Ok(None) => {
            return Err(ParseError::new(ErrorKind::TypenameExpected, start));
        },
        Err(e) => {
            return Err(e);
        },
    };
    let ghost base = ty@;
    let ghost q0 = *pos as int;
    loop
        invariant
            start == *old(pos),
            start < q0 <= *pos <= tokens.len(),
            env@.next == old(env)@.next,
            grammar::read_type(tokens@, start as int, old(env)@) == Ok::<
                Option<Scoped<TypeView>>,
                ParseError,
            >(Some(Scoped { val: base, pos: q0, env: env@ })),
            grammar::pointers(tokens@, q0, base) == grammar::pointers(tokens@, *pos as int, ty@),
        decreases rest(tokens@, *pos as int),
    {
        proof {
            reveal_with_fuel(grammar::ctype, 1);
            reveal_with_fuel(grammar::read_type, 1);
            reveal_with_fuel(grammar::pointers, 1);
        }
        if !consume(TokenType::Mul, tokens, pos) {
            return Ok(ty);
        }
        ty = Type::ptr_to(Box::new(ty));
    }
}

/// Whether the outcome `r` of the parser of array lengths, which stopped at token index
/// `end`, is what the grammar gives.
pub open spec fn agrees_array(
    r: Result<Box<Type>, ParseError>,
    end: usize,
    g: Result<Parsed<TypeView>, ParseError>,
) -> bool {
    match r {
        Ok(ty) => g == Ok::<Parsed<TypeView>, ParseError>(Parsed { val: ty@, pos: end as int }),
        Err(e) => g == Err::<Parsed<TypeView>, ParseError>(e),
    }
}

/// Parses the second half of a type: any number of array lengths in brackets, each a
/// number literal. The first length is that of the innermost array.
#[verifier::spinoff_prover]
pub fn read_array(ty: Box<Type>, tokens: &Vec<Token>, pos: &mut usize, env: &mut Env) -> (r:
    Result<Box<Type>, ParseError>)
    ensures
        agrees_array(
            r,
            *final(pos),
            grammar::read_array(tokens@, *old(pos) as int, old(env)@, ty@),
        ),
        r is Ok ==> *old(pos) <= *final(pos) && (*old(pos) < *final(pos) ==> *final(pos)
            <= tokens.len()) && final(env)@ == old(env)@,
    decreases rest(tokens@, *old(pos) as int), 31nat,
{
    proof {
        reveal_with_fuel(grammar::read_array, 1);
        reveal_with_fuel(grammar::array_lens, 1);
    }
    let start = *pos;
    let ghost env0 = env@;
    let mut v: Vec<usize> = Vec::new();
    loop
        invariant_except_break
            grammar::array_lens(tokens@, start as int, env0, Seq::empty()) == grammar::array_lens(
                tokens@,
                *pos as int,
                env0,
                v@,
            ),
        invariant
            start == *old(pos),
            env0 == old(env)@,
            env@ == env0,
            start <= *pos,
            start < *pos ==> *pos <= tokens.len(),
        ensures
            grammar::array_lens(tokens@, start as int, env0, Seq::empty()) == Ok::<
                Parsed<Seq<usize>>,
                ParseError,
            >(Parsed { val: v@, pos: *pos as int }),
        decreases rest(tokens@, *pos as int),
    {
        proof {
            reveal_with_fuel(grammar::read_array, 1);
            reveal_with_fuel(grammar::array_lens, 1);
            reveal_with_fuel(grammar::expr, 1);
        }
        if !consume(TokenType::LeftBracket, tokens, pos) {
            break ;
        }
        let at_len = *pos;
        let len = expr(tokens, pos, env)?;
        match len.as_num() {
            Some(n) => {
                v.push(#[verifier::truncate] (n as usize));
                expect(TokenType::RightBracket, tokens, pos)?;
            },
            None => {
                return Err(ParseError::new(ErrorKind::ArrayLengthNotConstant, at_len));
            },
        }
    }
    let ghost ty0 = ty@;
    let mut cur = ty;
    let mut i: usize = 0;
    assert(v@.skip(0) =~= v@);
    while i < v.len()
        invariant
            i <= v.len(),
            start == *old(pos),
            env0 == old(env)@,
            env@ == env0,
            start <= *pos,
            start < *pos ==> *pos <= tokens.len(),
            grammar::array_lens(tokens@, start as int, env0, Seq::empty()) == Ok::<
                Parsed<Seq<usize>>,
                ParseError,
            >(Parsed { val: v@, pos: *pos as int }),
            ty0 == ty@,
            grammar::arrays_of(ty0, v@) == grammar::arrays_of(cur@, v@.skip(i as int)),
        decreases v.len() - i,
    {
        proof {
            reveal_with_fuel(grammar::read_array, 1);
            reveal_with_fuel(grammar::array_lens, 1);
        }
        assert(v@.skip(i as int).drop_first() =~= v@.skip(i + 1));
        assert(v@.skip(i as int)[0] == v@[i as int]);
        cur = match Type::checked_ary_of(cur, v[i]) {
            Some(t) => Box::new(t),
            None => {
                return Err(ParseError::new(ErrorKind::TypeTooLarge, start));
            },
        };
        i += 1;
    }
    Ok(cur)
}

/// Parses the values of an initializer list behind its `{`, up to and with the `}`, and
/// appends to `stmts` one statement for each value: the one that stores it in its
/// element of the array `name`.
#[verifier::spinoff_prover]
pub fn array_init_rval(
    tokens: &Vec<Token>,
    pos: &mut usize,
    env: &mut Env,
    name: &String,
    stmts: Vec<Node>,
) -> (r: Result<Vec<Node>, ParseError>)
    ensures
        match r {
            Ok(all) => grammar::array_init_rval(
                tokens@,
                *old(pos) as int,
                old(env)@,
                name@,
                0,
                nodes_view(stmts@),
            ) == Ok::<Parsed<Seq<NodeView>>, ParseError>(
                Parsed { val: nodes_view(all@), pos: *final(pos) as int },
            ),
            Err(e) => grammar::array_init_rval(
                tokens@,
                *old(pos) as int,
                old(env)@,
                name@,
                0,
                nodes_view(stmts@),
            ) == Err::<Parsed<Seq<NodeView>>, ParseError>(e),
        },
        r is Ok ==> *old(pos) < *final(pos) <= tokens.len() && final(env)@ == old(env)@,
    decreases rest(tokens@, *old(pos) as int), 30nat,
{
    let ghost start = *pos as int;
    let ghost env0 = env@;
    let ghost acc0 = nodes_view(stmts@);
    let mut init = stmts;
    let mut i: i32 = 0;
    loop
        invariant
            start == *old(pos),
            env0 == old(env)@,
            env@ == env0,
            start <= *pos,
            start < *pos ==> *pos <= tokens.len(),
            acc0 == nodes_view(stmts@),
            grammar::array_init_rval(tokens@, start, env0, name@, 0, acc0)
                == grammar::array_init_rval(
                tokens@,
                *pos as int,
                env0,
                name@,
                i,
                nodes_view(init@),
            ),
        decreases rest(tokens@, *pos as int),
    {
        proof {
            reveal_with_fuel(grammar::array_init_rval, 1);
            reveal_with_fuel(grammar::primary, 1);
        }
        let val = primary(tokens, pos, env)?;
        let target = Node::new_expr(
            UnaryKind::Deref,
            Node::new_binop(TokenType::Plus, Node::ident(name.clone()), Node::int_ty(i)),
        );
        let stmt = Node::new_expr(
            UnaryKind::ExprStmt,
            Node::new_binop(TokenType::Equal, target, val),
        );
        proof {
            lemma_nodes_view_push(init@, stmt);
        }
        init.push(stmt);
        let comma = *pos;
        if !consume(TokenType::Comma, tokens, pos) {
            expect(TokenType::RightBrace, tokens, pos)?;
            return Ok(init);
        }
        if i == i32::MAX {
            return Err(ParseError::new(ErrorKind::TooManyInitializers, comma));
        }
        i += 1;
    }
}

/// Parses a declaration.
#[verifier::spinoff_prover]
pub fn decl(tokens: &Vec<Token>, pos: &mut usize, env: &mut Env) -> (r: Result<Node, ParseError>)
    ensures
        agrees_scoped(
            r,
            *final(pos),
            final(env)@,
            grammar::decl(tokens@, *old(pos) as int, old(env)@),
        ),
        r is Ok ==> *old(pos) < *final(pos) <= tokens.len() && final(env)@.next == old(
            env,
        )@.next,
    decreases rest(tokens@, *old(pos) as int), 19nat,
{
    proof {
        reveal_with_fuel(grammar::decl, 1);
        reveal_with_fuel(grammar::ctype, 1);
        reveal_with_fuel(grammar::read_array, 1);
        reveal_with_fuel(grammar::array_init_rval, 1);
        reveal_with_fuel(grammar::assign, 1);
    }
    // Read the first half of the type name (e.g. `int *`).
    let base = ctype(tokens, pos, env)?;
    // Read an identifier.
    let at_name = *pos;
    let name = ident(tokens, pos)?;
    // Read the second half of the type name (e.g. `[3][5]`).
    let ty = read_array(Box::new(base), tokens, pos, env)?;
    if ty.is_void() {
        return Err(ParseError::new(ErrorKind::VoidVariable, at_name));
    }
    // Read an initializer.
    if !consume(TokenType::Equal, tokens, pos) {
        expect(TokenType::Semicolon, tokens, pos)?;
        return Ok(Node::vardef(name, None, Scope::Local(0), *ty));
    }
    if consume(TokenType::LeftBrace, tokens, pos) {
        let mut stmts: Vec<Node> = Vec::new();
        let ary_decl = Node::vardef(name.clone(), None, Scope::Local(0), *ty);
        proof {
            lemma_nodes_view_empty();
            lemma_nodes_view_push(stmts@, ary_decl);
            assert(Seq::<NodeView>::empty().push(ary_decl@) =~= seq![ary_decl@]);
        }
        stmts.push(ary_decl);
        let stmts = array_init_rval(tokens, pos, env, &name, stmts)?;
        expect(TokenType::Semicolon, tokens, pos)?;
        return Ok(Node::vec_stmt(stmts));
    }
    let init = assign(tokens, pos, env)?;
    expect(TokenType::Semicolon, tokens, pos)?;
    Ok(Node::vardef(name, Some(init), Scope::Local(0), *ty))
}

/// Parses a parameter of a function: a type and a name.
#[verifier::spinoff_prover]
pub fn param(tokens: &Vec<Token>, pos: &mut usize, env: &mut Env) -> (r: Result<Node, ParseError>)
    ensures
        agrees_scoped(
            r,
            *final(pos),
            final(env)@,
            grammar::param(tokens@, *old(pos) as int, old(env)@),
        ),
        r is Ok ==> *old(pos) < *final(pos) <= tokens.len() && final(env)@.next == old(
            env,
        )@.next,
    decreases rest(tokens@, *old(pos) as int), 19nat,
{
    proof {
        reveal_with_fuel(grammar::param, 1);
        reveal_with_fuel(grammar::ctype, 1);
    }
    let ty = ctype(tokens, pos, env)?;
    let name = ident(tokens, pos)?;
    Ok(Node::vardef(name, None, Scope::Local(0), ty))
}

} // verus!
