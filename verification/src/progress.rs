//! Every parser of the grammar reads at least one token where it succeeds, and stays
//! within the input. So the guard `after`, which the grammar puts around the results
//! that it recurs on, changes none of them.

use vstd::prelude::*;
use crate::ast::{NodeView, TypeView};
use crate::env::EnvView;
use crate::error::ParseError;
use crate::grammar::{
    Parsed, Scoped, after, after_scoped, array_init_rval, array_lens, assign, at, binary,
    binary_rest, call_args, compound_stmt, conditional, ctype, decl, expect, expr, expr_rest,
    expr_stmt, ident, is_typename, level_of, param, params, pointers, postfix, postfix_rest,
    primary, read_array, read_type, rest, stmt, stmts, struct_members, toplevel, unary, vardef,
};
use crate::token::{Token, TokenType};

verus! {

/// Whether a result that is a success lies behind `pos`, within the input.
pub open spec fn advances<T>(ts: Seq<Token>, r: Result<Parsed<T>, ParseError>, pos: int) -> bool {
    r matches Ok(p) ==> 0 <= pos < p.pos <= ts.len()
}

/// As `advances`, for a parser that can change the scope.
pub open spec fn advances_scoped<T>(
    ts: Seq<Token>,
    r: Result<Scoped<T>, ParseError>,
    pos: int,
) -> bool {
    r matches Ok(p) ==> 0 <= pos < p.pos <= ts.len()
}

/// Whether a result that is a success lies at `pos` or behind it, and within the input
/// where `pos` does.
pub open spec fn keeps<T>(ts: Seq<Token>, r: Result<Parsed<T>, ParseError>, pos: int) -> bool {
    r matches Ok(p) ==> pos <= p.pos && (0 <= pos <= ts.len() ==> p.pos <= ts.len())
}

/// A primary expression reads at least one token.
#[verifier::spinoff_prover]
pub proof fn lemma_primary_advances(ts: Seq<Token>, pos: int, env: EnvView)
    ensures
        advances(ts, primary(ts, pos, env), pos),
        after(ts, primary(ts, pos, env), pos) == primary(ts, pos, env),
    decreases rest(ts, pos), 0nat,
{
    reveal_with_fuel(primary, 1);
    reveal_with_fuel(call_args, 1);
    reveal_with_fuel(compound_stmt, 1);
    reveal_with_fuel(expr, 1);
    if 0 <= pos < ts.len() {
        lemma_call_args_advances(ts, pos + 2, env, Seq::empty());
        lemma_compound_stmt_advances(ts, pos + 2, env);
        lemma_expr_advances(ts, pos + 1, env);
    }
}

/// The arguments of a call, with the closing parenthesis, are at least one token.
#[verifier::spinoff_prover]
pub proof fn lemma_call_args_advances(ts: Seq<Token>, pos: int, env: EnvView, acc: Seq<NodeView>)
    ensures
        advances(ts, call_args(ts, pos, env, acc), pos),
        after(ts, call_args(ts, pos, env, acc), pos) == call_args(ts, pos, env, acc),
    decreases rest(ts, pos), 30nat,
{
    reveal_with_fuel(call_args, 1);
    let first = after(ts, assign(ts, pos, env), pos);
    if let Ok(a) = first {
        if at(ts, a.pos, TokenType::Comma) {
            lemma_call_args_advances(ts, a.pos + 1, env, acc.push(a.val));
        }
    }
}

/// A postfix expression reads at least one token.
#[verifier::spinoff_prover]
pub proof fn lemma_postfix_advances(ts: Seq<Token>, pos: int, env: EnvView)
    ensures
        advances(ts, postfix(ts, pos, env), pos),
        after(ts, postfix(ts, pos, env), pos) == postfix(ts, pos, env),
    decreases rest(ts, pos), 1nat,
{
    reveal_with_fuel(postfix, 1);
    reveal_with_fuel(postfix_rest, 1);
    let first = after(ts, primary(ts, pos, env), pos);
    if let Ok(p) = first {
        lemma_postfix_rest_keeps(ts, p.pos, env, p.val);
    }
}

/// Postfix operators do not step back.
#[verifier::spinoff_prover]
pub proof fn lemma_postfix_rest_keeps(ts: Seq<Token>, pos: int, env: EnvView, lhs: NodeView)
    ensures
        keeps(ts, postfix_rest(ts, pos, env, lhs), pos),
    decreases rest(ts, pos), 30nat,
{
    reveal_with_fuel(postfix_rest, 1);
    if at(ts, pos, TokenType::Dot) || at(ts, pos, TokenType::Arrow) {
        if let Ok(name) = ident(ts, pos + 1) {
            let deref = NodeView::new(crate::ast::NodeTypeView::Deref(Box::new(lhs)));
            let target = if at(ts, pos, TokenType::Dot) {
                lhs
            } else {
                deref
            };
            lemma_postfix_rest_keeps(
                ts,
                name.pos,
                env,
                NodeView::new(crate::ast::NodeTypeView::Dot(Box::new(target), name.val, 0)),
            );
        }
    } else if at(ts, pos, TokenType::LeftBracket) {
        if let Ok(index) = after(ts, assign(ts, pos + 1, env), pos) {
            if let Ok(q) = expect(ts, index.pos, TokenType::RightBracket) {
                lemma_postfix_rest_keeps(
                    ts,
                    q,
                    env,
                    NodeView::new(
                        crate::ast::NodeTypeView::Deref(
                            Box::new(NodeView::binop(TokenType::Plus, lhs, index.val)),
                        ),
                    ),
                );
            }
        }
    }
}

/// A unary expression reads at least one token.
#[verifier::spinoff_prover]
pub proof fn lemma_unary_advances(ts: Seq<Token>, pos: int, env: EnvView)
    ensures
        advances(ts, unary(ts, pos, env), pos),
        after(ts, unary(ts, pos, env), pos) == unary(ts, pos, env),
    decreases rest(ts, pos), 2nat,
{
    reveal_with_fuel(unary, 1);
    reveal_with_fuel(postfix, 1);
    if 0 <= pos < ts.len() {
        lemma_unary_advances(ts, pos + 1, env);
    }
    lemma_postfix_advances(ts, pos, env);
}

/// A binary expression of any level reads at least one token.
#[verifier::spinoff_prover]
pub proof fn lemma_binary_advances(ts: Seq<Token>, pos: int, env: EnvView, level: nat)
    ensures
        advances(ts, binary(ts, pos, env, level), pos),
        after(ts, binary(ts, pos, env, level), pos) == binary(ts, pos, env, level),
    decreases rest(ts, pos), 3 + level,
{
    reveal_with_fuel(binary, 1);
    reveal_with_fuel(binary_rest, 1);
    reveal_with_fuel(unary, 1);
    if level == 0 {
        lemma_unary_advances(ts, pos, env);
    } else {
        let first = after(ts, binary(ts, pos, env, (level - 1) as nat), pos);
        if let Ok(lhs) = first {
            lemma_binary_rest_keeps(ts, lhs.pos, env, level, lhs.val);
        }
    }
}

/// Binary operators with their right operands do not step back.
#[verifier::spinoff_prover]
pub proof fn lemma_binary_rest_keeps(
    ts: Seq<Token>,
    pos: int,
    env: EnvView,
    level: nat,
    lhs: NodeView,
)
    ensures
        keeps(ts, binary_rest(ts, pos, env, level, lhs), pos),
    decreases rest(ts, pos), 30nat,
{
    reveal_with_fuel(binary_rest, 1);
    if level > 0 && 0 <= pos < ts.len() && level_of(ts[pos].ty) == Some(level) {
        if let Ok(rhs) = after(ts, binary(ts, pos + 1, env, (level - 1) as nat), pos) {
            lemma_binary_rest_keeps(
                ts,
                rhs.pos,
                env,
                level,
                crate::grammar::fold(ts[pos].ty, lhs, rhs.val),
            );
        }
    }
}

/// A conditional expression reads at least one token.
#[verifier::spinoff_prover]
pub proof fn lemma_conditional_advances(ts: Seq<Token>, pos: int, env: EnvView)
    ensures
        advances(ts, conditional(ts, pos, env), pos),
        after(ts, conditional(ts, pos, env), pos) == conditional(ts, pos, env),
    decreases rest(ts, pos), 14nat,
{
    reveal_with_fuel(conditional, 1);
    if let Ok(cond) = after(ts, binary(ts, pos, env, 10), pos) {
        if at(ts, cond.pos, TokenType::Question) {
            if let Ok(then) = after(ts, expr(ts, cond.pos + 1, env), cond.pos) {
                if let Ok(q) = expect(ts, then.pos, TokenType::Colon) {
                    lemma_conditional_advances(ts, q, env);
                }
            }
        }
    }
}

/// An assignment expression reads at least one token.
#[verifier::spinoff_prover]
pub proof fn lemma_assign_advances(ts: Seq<Token>, pos: int, env: EnvView)
    ensures
        advances(ts, assign(ts, pos, env), pos),
        after(ts, assign(ts, pos, env), pos) == assign(ts, pos, env),
    decreases rest(ts, pos), 15nat,
{
    reveal_with_fuel(assign, 1);
    if let Ok(lhs) = after(ts, conditional(ts, pos, env), pos) {
        if at(ts, lhs.pos, TokenType::Equal) {
            lemma_assign_advances(ts, lhs.pos + 1, env);
        }
    }
}

/// An expression reads at least one token.
#[verifier::spinoff_prover]
pub proof fn lemma_expr_advances(ts: Seq<Token>, pos: int, env: EnvView)
    ensures
        advances(ts, expr(ts, pos, env), pos),
        after(ts, expr(ts, pos, env), pos) == expr(ts, pos, env),
    decreases rest(ts, pos), 16nat,
{
    reveal_with_fuel(expr, 1);
    reveal_with_fuel(expr_rest, 1);
    if let Ok(lhs) = after(ts, assign(ts, pos, env), pos) {
        lemma_expr_rest_keeps(ts, lhs.pos, env, lhs.val);
    }
}

/// Commas with their right operands do not step back.
#[verifier::spinoff_prover]
pub proof fn lemma_expr_rest_keeps(ts: Seq<Token>, pos: int, env: EnvView, lhs: NodeView)
    ensures
        keeps(ts, expr_rest(ts, pos, env, lhs), pos),
    decreases rest(ts, pos), 30nat,
{
    reveal_with_fuel(expr_rest, 1);
    if at(ts, pos, TokenType::Comma) {
        if let Ok(rhs) = after(ts, assign(ts, pos + 1, env), pos) {
            lemma_expr_rest_keeps(
                ts,
                rhs.pos,
                env,
                NodeView::binop(TokenType::Comma, lhs, rhs.val),
            );
        }
    }
}

/// An expression statement reads at least one token.
#[verifier::spinoff_prover]
pub proof fn lemma_expr_stmt_advances(ts: Seq<Token>, pos: int, env: EnvView)
    ensures
        advances(ts, expr_stmt(ts, pos, env), pos),
        after(ts, expr_stmt(ts, pos, env), pos) == expr_stmt(ts, pos, env),
    decreases rest(ts, pos), 17nat,
{
    reveal_with_fuel(expr_stmt, 1);
    reveal_with_fuel(expr, 1);
    lemma_expr_advances(ts, pos, env);
}

/// Stars do not step back.
#[verifier::spinoff_prover]
pub proof fn lemma_pointers_keeps(ts: Seq<Token>, pos: int, ty: TypeView)
    ensures
        pos <= pointers(ts, pos, ty).pos,
        0 <= pos <= ts.len() ==> pointers(ts, pos, ty).pos <= ts.len(),
    decreases rest(ts, pos),
{
    reveal_with_fuel(pointers, 1);
    if at(ts, pos, TokenType::Mul) {
        lemma_pointers_keeps(ts, pos + 1, TypeView::ptr_to(ty));
    }
}

/// A type name, where there is one, is at least one token.
#[verifier::spinoff_prover]
pub proof fn lemma_read_type_advances(ts: Seq<Token>, pos: int, env: EnvView)
    ensures
        read_type(ts, pos, env) matches Ok(Some(t)) ==> 0 <= pos < t.pos <= ts.len(),
    decreases rest(ts, pos), 17nat,
{
    reveal_with_fuel(read_type, 1);
    reveal_with_fuel(struct_members, 1);
    if 0 <= pos < ts.len() {
        lemma_struct_members_advances(ts, pos + 2, env, Seq::empty());
        lemma_struct_members_advances(ts, pos + 3, env, Seq::empty());
    }
}

/// The members of a struct, with the closing brace, are at least one token.
#[verifier::spinoff_prover]
pub proof fn lemma_struct_members_advances(
    ts: Seq<Token>,
    pos: int,
    env: EnvView,
    acc: Seq<NodeView>,
)
    ensures
        advances_scoped(ts, struct_members(ts, pos, env, acc), pos),
        after_scoped(ts, struct_members(ts, pos, env, acc), pos) == struct_members(
            ts,
            pos,
            env,
            acc,
        ),
    decreases rest(ts, pos), 30nat,
{
    reveal_with_fuel(struct_members, 1);
    if !at(ts, pos, TokenType::RightBrace) && 0 <= pos < ts.len() {
        if let Ok(d) = after_scoped(ts, decl(ts, pos, env), pos) {
            lemma_struct_members_advances(ts, d.pos, d.env, acc.push(d.val));
        }
    }
}

/// The first half of a type is at least one token.
#[verifier::spinoff_prover]
pub proof fn lemma_ctype_advances(ts: Seq<Token>, pos: int, env: EnvView)
    ensures
        advances_scoped(ts, ctype(ts, pos, env), pos),
        after_scoped(ts, ctype(ts, pos, env), pos) == ctype(ts, pos, env),
    decreases rest(ts, pos), 18nat,
{
    reveal_with_fuel(ctype, 1);
    reveal_with_fuel(read_type, 1);
    lemma_read_type_advances(ts, pos, env);
    if let Ok(Some(t)) = read_type(ts, pos, env) {
        lemma_pointers_keeps(ts, t.pos, t.val);
    }
}

/// Array lengths do not step back.
#[verifier::spinoff_prover]
pub proof fn lemma_array_lens_keeps(ts: Seq<Token>, pos: int, env: EnvView, acc: Seq<usize>)
    ensures
        keeps(ts, array_lens(ts, pos, env, acc), pos),
    decreases rest(ts, pos), 30nat,
{
    reveal_with_fuel(array_lens, 1);
    if at(ts, pos, TokenType::LeftBracket) {
        if let Ok(len) = after(ts, expr(ts, pos + 1, env), pos) {
            if let crate::ast::NodeTypeView::Num(n) = len.val.op {
                if let Ok(q) = expect(ts, len.pos, TokenType::RightBracket) {
                    lemma_array_lens_keeps(ts, q, env, acc.push(n as usize));
                }
            }
        }
    }
}

/// The second half of a type does not step back.
#[verifier::spinoff_prover]
pub proof fn lemma_read_array_keeps(ts: Seq<Token>, pos: int, env: EnvView, ty: TypeView)
    ensures
        keeps(ts, read_array(ts, pos, env, ty), pos),
    decreases rest(ts, pos), 31nat,
{
    reveal_with_fuel(read_array, 1);
    reveal_with_fuel(array_lens, 1);
    lemma_array_lens_keeps(ts, pos, env, Seq::empty());
}

/// The values of an initializer list, with the closing brace, are at least one token.
#[verifier::spinoff_prover]
pub proof fn lemma_array_init_rval_advances(
    ts: Seq<Token>,
    pos: int,
    env: EnvView,
    name: Seq<char>,
    i: i32,
    acc: Seq<NodeView>,
)
    ensures
        advances(ts, array_init_rval(ts, pos, env, name, i, acc), pos),
        after(ts, array_init_rval(ts, pos, env, name, i, acc), pos) == array_init_rval(
            ts,
            pos,
            env,
            name,
            i,
            acc,
        ),
    decreases rest(ts, pos), 30nat,
{
    reveal_with_fuel(array_init_rval, 1);
    if let Ok(val) = after(ts, primary(ts, pos, env), pos) {
        if at(ts, val.pos, TokenType::Comma) && i != i32::MAX {
            lemma_array_init_rval_advances(
                ts,
                val.pos + 1,
                env,
                name,
                (i + 1) as i32,
                acc.push(crate::grammar::element_init(name, i, val.val)),
            );
        }
    }
}

/// A declaration reads at least one token.
#[verifier::spinoff_prover]
pub proof fn lemma_decl_advances(ts: Seq<Token>, pos: int, env: EnvView)
    ensures
        advances_scoped(ts, decl(ts, pos, env), pos),
        after_scoped(ts, decl(ts, pos, env), pos) == decl(ts, pos, env),
    decreases rest(ts, pos), 19nat,
{
    reveal_with_fuel(decl, 1);
    reveal_with_fuel(array_init_rval, 1);
    reveal_with_fuel(assign, 1);
    if let Ok(base) = after_scoped(ts, ctype(ts, pos, env), pos) {
        if let Ok(name) = ident(ts, base.pos) {
            if let Ok(ty) = after(ts, read_array(ts, name.pos, base.env, base.val), base.pos) {
                if at(ts, ty.pos, TokenType::Equal) {
                    lemma_array_init_rval_advances(
                        ts,
                        ty.pos + 2,
                        base.env,
                        name.val,
                        0,
                        seq![vardef(name.val, None, ty.val)],
                    );
                    lemma_assign_advances(ts, ty.pos + 1, base.env);
                }
            }
        }
    }
}

/// A parameter is at least one token.
#[verifier::spinoff_prover]
pub proof fn lemma_param_advances(ts: Seq<Token>, pos: int, env: EnvView)
    ensures
        advances_scoped(ts, param(ts, pos, env), pos),
        after_scoped(ts, param(ts, pos, env), pos) == param(ts, pos, env),
    decreases rest(ts, pos), 19nat,
{
    reveal_with_fuel(param, 1);
    reveal_with_fuel(ctype, 1);
    lemma_ctype_advances(ts, pos, env);
}

/// A statement reads at least one token.
#[verifier::spinoff_prover]
pub proof fn lemma_stmt_advances(ts: Seq<Token>, pos: int, env: EnvView)
    ensures
        advances_scoped(ts, stmt(ts, pos, env), pos),
        after_scoped(ts, stmt(ts, pos, env), pos) == stmt(ts, pos, env),
    decreases rest(ts, pos), 20nat,
{
    reveal_with_fuel(stmt, 1);
    reveal_with_fuel(decl, 1);
    reveal_with_fuel(expr, 1);
    reveal_with_fuel(expr_stmt, 1);
    reveal_with_fuel(compound_stmt, 1);
    if at(ts, pos, TokenType::Typedef) {
        lemma_decl_advances(ts, pos + 1, env);
    } else if is_typename(ts, pos, env) {
        lemma_decl_advances(ts, pos, env);
    } else if at(ts, pos, TokenType::If) {
        if let Ok(q1) = expect(ts, pos + 1, TokenType::LeftParen) {
            if let Ok(cond) = after(ts, expr(ts, q1, env), pos) {
                if let Ok(q2) = expect(ts, cond.pos, TokenType::RightParen) {
                    if let Ok(then) = after_scoped(ts, stmt(ts, q2, env), pos) {
                        if at(ts, then.pos, TokenType::Else) {
                            lemma_stmt_advances(ts, then.pos + 1, then.env);
                        }
                    }
                }
            }
        }
    } else if at(ts, pos, TokenType::For) {
        if let Ok(q1) = expect(ts, pos + 1, TokenType::LeftParen) {
            let first = if is_typename(ts, q1, env) {
                decl(ts, q1, env)
            } else {
                crate::grammar::in_scope(expr_stmt(ts, q1, env), env)
            };
            if let Ok(init) = after_scoped(ts, first, pos) {
                if let Ok(cond) = after(ts, expr(ts, init.pos, init.env), pos) {
                    if let Ok(q2) = expect(ts, cond.pos, TokenType::Semicolon) {
                        if let Ok(inc) = after(ts, expr(ts, q2, init.env), pos) {
                            if let Ok(q3) = expect(ts, inc.pos, TokenType::RightParen) {
                                lemma_stmt_advances(ts, q3, init.env);
                            }
                        }
                    }
                }
            }
        }
    } else if at(ts, pos, TokenType::While) {
        if let Ok(q1) = expect(ts, pos + 1, TokenType::LeftParen) {
            if let Ok(cond) = after(ts, expr(ts, q1, env), pos) {
                if let Ok(q2) = expect(ts, cond.pos, TokenType::RightParen) {
                    lemma_stmt_advances(ts, q2, env);
                }
            }
        }
    } else if at(ts, pos, TokenType::Do) {
        if let Ok(body) = after_scoped(ts, stmt(ts, pos + 1, env), pos) {
            if let Ok(q1) = expect(ts, body.pos, TokenType::While) {
                if let Ok(q2) = expect(ts, q1, TokenType::LeftParen) {
                    lemma_expr_advances(ts, q2, body.env);
                }
            }
        }
    } else if at(ts, pos, TokenType::Return) {
        lemma_expr_advances(ts, pos + 1, env);
    } else if at(ts, pos, TokenType::LeftBrace) {
        lemma_compound_stmt_advances(ts, pos + 1, env);
    } else if !at(ts, pos, TokenType::Semicolon) {
        lemma_expr_stmt_advances(ts, pos, env);
    }
}

/// The statements of a block, with the closing brace, are at least one token.
#[verifier::spinoff_prover]
pub proof fn lemma_stmts_advances(ts: Seq<Token>, pos: int, env: EnvView, acc: Seq<NodeView>)
    ensures
        advances(ts, stmts(ts, pos, env, acc), pos),
        after(ts, stmts(ts, pos, env, acc), pos) == stmts(ts, pos, env, acc),
    decreases rest(ts, pos), 30nat,
{
    reveal_with_fuel(stmts, 1);
    if !at(ts, pos, TokenType::RightBrace) && 0 <= pos < ts.len() {
        if let Ok(s) = after_scoped(ts, stmt(ts, pos, env), pos) {
            lemma_stmts_advances(ts, s.pos, s.env, acc.push(s.val));
        }
    }
}

/// The rest of a block is at least one token.
#[verifier::spinoff_prover]
pub proof fn lemma_compound_stmt_advances(ts: Seq<Token>, pos: int, env: EnvView)
    ensures
        advances(ts, compound_stmt(ts, pos, env), pos),
        after(ts, compound_stmt(ts, pos, env), pos) == compound_stmt(ts, pos, env),
    decreases rest(ts, pos), 31nat,
{
    reveal_with_fuel(compound_stmt, 1);
    reveal_with_fuel(stmts, 1);
    lemma_stmts_advances(ts, pos, env.push_frame(), Seq::empty());
}

/// The parameters of a function, with the closing parenthesis, are at least one token.
#[verifier::spinoff_prover]
pub proof fn lemma_params_advances(ts: Seq<Token>, pos: int, env: EnvView, acc: Seq<NodeView>)
    ensures
        advances_scoped(ts, params(ts, pos, env, acc), pos),
        after_scoped(ts, params(ts, pos, env, acc), pos) == params(ts, pos, env, acc),
    decreases rest(ts, pos), 30nat,
{
    reveal_with_fuel(params, 1);
    if let Ok(p) = after_scoped(ts, param(ts, pos, env), pos) {
        if at(ts, p.pos, TokenType::Comma) {
            lemma_params_advances(ts, p.pos + 1, p.env, acc.push(p.val));
        }
    }
}

/// A top-level declaration reads at least one token.
#[verifier::spinoff_prover]
pub proof fn lemma_toplevel_advances(ts: Seq<Token>, pos: int, env: EnvView)
    ensures
        advances_scoped(ts, toplevel(ts, pos, env), pos),
        after_scoped(ts, toplevel(ts, pos, env), pos) == toplevel(ts, pos, env),
{
    reveal_with_fuel(toplevel, 1);
    reveal_with_fuel(compound_stmt, 1);
    reveal_with_fuel(read_array, 1);
    reveal_with_fuel(params, 1);
    let start = if at(ts, pos, TokenType::Extern) {
        pos + 1
    } else {
        pos
    };
    if let Ok(base) = after_scoped(ts, ctype(ts, start, env), pos) {
        if 0 <= base.pos < ts.len() {
            if at(ts, base.pos + 1, TokenType::LeftParen) {
                let args = if at(ts, base.pos + 2, TokenType::RightParen) {
                    Ok(Scoped { val: Seq::<NodeView>::empty(), pos: base.pos + 3, env: base.env })
                } else {
                    params(ts, base.pos + 2, base.env, Seq::empty())
                };
                if let Ok(a) = after_scoped(ts, args, pos) {
                    if let Ok(q) = expect(ts, a.pos, TokenType::LeftBrace) {
                        lemma_compound_stmt_advances(ts, q, a.env);
                    }
                }
            } else {
                lemma_read_array_keeps(ts, base.pos + 1, base.env, base.val);
            }
        }
    }
}

} // verus!
