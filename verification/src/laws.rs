//! What holds of the tree of every input: comparisons are normalized, blocks keep the
//! scope, `while` is a `for`, an initializer list becomes stores in order, and an input
//! that is one declaration has a tree of one node.

use vstd::prelude::*;
use crate::ast::{NodeTypeView, NodeView, ScopeView};
use crate::env::EnvView;
use crate::error::{ErrorKind, ParseError};
use crate::grammar::{
    Parsed, Scoped, after, after_scoped, array_init_rval, at, binary, binary_rest, ctype, decl,
    element_init, expect, expr, expr_stmt, fail, fold, ident, in_scope, is_typename, level_of,
    param, params, parse, primary, program, read_array, read_type, rest, stmt, struct_members,
    toplevel, vardef,
};
use crate::token::{Token, TokenType};

verus! {

/// Whether the tokens from `pos` up to `end` are an operand of a comparison, and `node`
/// is its tree.
pub open spec fn is_operand(ts: Seq<Token>, pos: int, env: EnvView, end: int, node: NodeView) -> bool {
    &&& 0 <= pos < end <= ts.len()
    &&& binary(ts, pos, env, 3) == Ok::<Parsed<NodeView>, ParseError>(
        Parsed { val: node, pos: end },
    )
}

/// Whether a comparison operator stands at `pos`.
pub open spec fn is_comparison(ts: Seq<Token>, pos: int) -> bool {
    0 <= pos < ts.len() && level_of(ts[pos].ty) == Some(4nat)
}

/// The tree of one comparison: the operand `a` that ends at `mid`, the operator there,
/// and the operand `b` that ends at `end`, where no further comparison follows.
proof fn lemma_one_comparison(
    ts: Seq<Token>,
    pos: int,
    mid: int,
    end: int,
    env: EnvView,
    a: NodeView,
    b: NodeView,
)
    requires
        is_operand(ts, pos, env, mid, a),
        is_comparison(ts, mid),
        is_operand(ts, mid + 1, env, end, b),
        !is_comparison(ts, end),
    ensures
        binary(ts, pos, env, 4) == Ok::<Parsed<NodeView>, ParseError>(
            Parsed { val: fold(ts[mid].ty, a, b), pos: end },
        ),
{
    reveal_with_fuel(binary, 1);
    reveal_with_fuel(binary_rest, 1);
    let joined = fold(ts[mid].ty, a, b);
    assert(binary_rest(ts, end, env, 4, joined) == Ok::<Parsed<NodeView>, ParseError>(
        Parsed { val: joined, pos: end },
    ));
    assert(binary_rest(ts, mid, env, 4, a) == binary_rest(ts, end, env, 4, joined));
    assert(binary(ts, pos, env, 4) == binary_rest(ts, mid, env, 4, a));
}

/// `a > b` and `b < a` have the same tree: whatever the operands `a` and `b` are, and
/// wherever the two comparisons stand, both parse to `b < a`.
pub proof fn law_greater_is_swapped_less(
    ts1: Seq<Token>,
    pos1: int,
    mid1: int,
    end1: int,
    env1: EnvView,
    ts2: Seq<Token>,
    pos2: int,
    mid2: int,
    end2: int,
    env2: EnvView,
    a: NodeView,
    b: NodeView,
)
    requires
        is_operand(ts1, pos1, env1, mid1, a),
        at(ts1, mid1, TokenType::RightAngleBracket),
        is_operand(ts1, mid1 + 1, env1, end1, b),
        !is_comparison(ts1, end1),
        is_operand(ts2, pos2, env2, mid2, b),
        at(ts2, mid2, TokenType::LeftAngleBracket),
        is_operand(ts2, mid2 + 1, env2, end2, a),
        !is_comparison(ts2, end2),
    ensures
        binary(ts1, pos1, env1, 4) == Ok::<Parsed<NodeView>, ParseError>(
            Parsed { val: NodeView::binop(TokenType::LeftAngleBracket, b, a), pos: end1 },
        ),
        binary(ts2, pos2, env2, 4) == Ok::<Parsed<NodeView>, ParseError>(
            Parsed { val: NodeView::binop(TokenType::LeftAngleBracket, b, a), pos: end2 },
        ),
{
    lemma_one_comparison(ts1, pos1, mid1, end1, env1, a, b);
    lemma_one_comparison(ts2, pos2, mid2, end2, env2, b, a);
}

/// `a >= b` and `b <= a` have the same tree: both parse to `b <= a`.
pub proof fn law_greater_or_equal_is_swapped_less_or_equal(
    ts1: Seq<Token>,
    pos1: int,
    mid1: int,
    end1: int,
    env1: EnvView,
    ts2: Seq<Token>,
    pos2: int,
    mid2: int,
    end2: int,
    env2: EnvView,
    a: NodeView,
    b: NodeView,
)
    requires
        is_operand(ts1, pos1, env1, mid1, a),
        at(ts1, mid1, TokenType::GE),
        is_operand(ts1, mid1 + 1, env1, end1, b),
        !is_comparison(ts1, end1),
        is_operand(ts2, pos2, env2, mid2, b),
        at(ts2, mid2, TokenType::LE),
        is_operand(ts2, mid2 + 1, env2, end2, a),
        !is_comparison(ts2, end2),
    ensures
        binary(ts1, pos1, env1, 4) == Ok::<Parsed<NodeView>, ParseError>(
            Parsed { val: NodeView::binop(TokenType::LE, b, a), pos: end1 },
        ),
        binary(ts2, pos2, env2, 4) == Ok::<Parsed<NodeView>, ParseError>(
            Parsed { val: NodeView::binop(TokenType::LE, b, a), pos: end2 },
        ),
{
    lemma_one_comparison(ts1, pos1, mid1, end1, env1, a, b);
    lemma_one_comparison(ts2, pos2, mid2, end2, env2, b, a);
}

/// No tree holds `>` or `>=` as the operator of a comparison that the parser has
/// joined.
pub proof fn law_no_greater_in_trees(op: TokenType, lhs: NodeView, rhs: NodeView)
    ensures
        fold(op, lhs, rhs).op matches NodeTypeView::BinOp(tag, _, _) && tag
            != TokenType::RightAngleBracket && tag != TokenType::GE,
{
}

/// A block leaves the scope as it found it: what a typedef or a struct specifier
/// defines inside the braces is not seen behind them.
pub proof fn law_block_keeps_scope(ts: Seq<Token>, pos: int, env: EnvView)
    requires
        at(ts, pos, TokenType::LeftBrace),
        stmt(ts, pos, env) is Ok,
    ensures
        stmt(ts, pos, env)->Ok_0.env == env,
        forall|q: int| is_typename(ts, q, stmt(ts, pos, env)->Ok_0.env) == is_typename(ts, q, env),
{
    reveal_with_fuel(stmt, 1);
}

/// `while (c) s` is the `for` loop with condition `c` and body `s` whose first and
/// third part are the empty statement.
pub proof fn law_while_is_for(
    ts: Seq<Token>,
    pos: int,
    env: EnvView,
    c: NodeView,
    close: int,
    s: NodeView,
    end: int,
    env_after: EnvView,
)
    requires
        at(ts, pos, TokenType::While),
        at(ts, pos + 1, TokenType::LeftParen),
        expr(ts, pos + 2, env) == Ok::<Parsed<NodeView>, ParseError>(
            Parsed { val: c, pos: close },
        ),
        pos + 2 < close,
        at(ts, close, TokenType::RightParen),
        stmt(ts, close + 1, env) == Ok::<Scoped<NodeView>, ParseError>(
            Scoped { val: s, pos: end, env: env_after },
        ),
    ensures
        stmt(ts, pos, env) == Ok::<Scoped<NodeView>, ParseError>(
            Scoped {
                val: NodeView::new(
                    NodeTypeView::For(
                        Box::new(NodeView::new(NodeTypeView::Null)),
                        Box::new(c),
                        Box::new(NodeView::new(NodeTypeView::Null)),
                        Box::new(s),
                    ),
                ),
                pos: end,
                env: env_after,
            },
        ),
{
    reveal_with_fuel(stmt, 1);
    reveal_with_fuel(expr, 1);
}

/// A `for` loop cannot leave out its first part: `for (;` is an error. So no `for` loop
/// has the tree of a `while` loop.
pub proof fn law_for_needs_first_part(ts: Seq<Token>, pos: int, env: EnvView)
    requires
        at(ts, pos, TokenType::For),
        at(ts, pos + 1, TokenType::LeftParen),
        at(ts, pos + 2, TokenType::Semicolon),
    ensures
        stmt(ts, pos, env) == fail::<Scoped<NodeView>>(ErrorKind::NumberExpected, pos + 2),
{
    reveal_with_fuel(stmt, 1);
    reveal_with_fuel(crate::grammar::expr_stmt, 1);
    reveal_with_fuel(expr, 1);
    reveal_with_fuel(crate::grammar::assign, 1);
    reveal_with_fuel(crate::grammar::conditional, 1);
    reveal_with_fuel(binary, 11);
    reveal_with_fuel(crate::grammar::unary, 1);
    reveal_with_fuel(crate::grammar::postfix, 1);
    reveal_with_fuel(crate::grammar::primary, 1);
    let p = pos + 2;
    assert(crate::grammar::primary(ts, p, env) == fail::<Parsed<NodeView>>(
        ErrorKind::NumberExpected,
        p,
    ));
    assert(crate::grammar::postfix(ts, p, env) == fail::<Parsed<NodeView>>(
        ErrorKind::NumberExpected,
        p,
    ));
    assert(crate::grammar::unary(ts, p, env) == fail::<Parsed<NodeView>>(
        ErrorKind::NumberExpected,
        p,
    ));
    assert(binary(ts, p, env, 0) == fail::<Parsed<NodeView>>(ErrorKind::NumberExpected, p));
    assert(binary(ts, p, env, 1) == fail::<Parsed<NodeView>>(ErrorKind::NumberExpected, p));
    assert(binary(ts, p, env, 2) == fail::<Parsed<NodeView>>(ErrorKind::NumberExpected, p));
    assert(binary(ts, p, env, 3) == fail::<Parsed<NodeView>>(ErrorKind::NumberExpected, p));
    assert(binary(ts, p, env, 4) == fail::<Parsed<NodeView>>(ErrorKind::NumberExpected, p));
    assert(binary(ts, p, env, 5) == fail::<Parsed<NodeView>>(ErrorKind::NumberExpected, p));
    assert(binary(ts, p, env, 6) == fail::<Parsed<NodeView>>(ErrorKind::NumberExpected, p));
    assert(binary(ts, p, env, 7) == fail::<Parsed<NodeView>>(ErrorKind::NumberExpected, p));
    assert(binary(ts, p, env, 8) == fail::<Parsed<NodeView>>(ErrorKind::NumberExpected, p));
    assert(binary(ts, p, env, 9) == fail::<Parsed<NodeView>>(ErrorKind::NumberExpected, p));
    assert(binary(ts, p, env, 10) == fail::<Parsed<NodeView>>(ErrorKind::NumberExpected, p));
    assert(crate::grammar::conditional(ts, p, env) == fail::<Parsed<NodeView>>(
        ErrorKind::NumberExpected,
        p,
    ));
    assert(crate::grammar::assign(ts, p, env) == fail::<Parsed<NodeView>>(
        ErrorKind::NumberExpected,
        p,
    ));
    assert(expr(ts, p, env) == fail::<Parsed<NodeView>>(ErrorKind::NumberExpected, p));
    assert(crate::grammar::expr_stmt(ts, p, env) == fail::<Parsed<NodeView>>(
        ErrorKind::NumberExpected,
        p,
    ));
}

/// The tree of an input that is one top-level declaration is that one node, and the
/// node is what the token behind the name calls for: a function definition where that
/// is `(`, else the definition of a global variable, which has no size where the
/// declaration starts with `extern`, and else the size of its type.
pub proof fn law_single_declaration(ts: Seq<Token>, node: NodeView, env_after: EnvView)
    requires
        toplevel(ts, 0, EnvView::root()) == Ok::<Scoped<NodeView>, ParseError>(
            Scoped { val: node, pos: ts.len() as int, env: env_after },
        ),
    ensures
        parse(ts) == Ok::<Seq<NodeView>, ParseError>(seq![node]),
        ({
            let is_extern = at(ts, 0, TokenType::Extern);
            let start: int = if is_extern {
                1
            } else {
                0
            };
            let base = ctype(ts, start, EnvView::root());
            &&& base is Ok
            &&& 0 <= base->Ok_0.pos < ts.len()
            &&& ts[base->Ok_0.pos].ty matches TokenType::Ident(name)
            &&& if at(ts, base->Ok_0.pos + 1, TokenType::LeftParen) {
                node.op matches NodeTypeView::Func(n, _, _, frame) && n == name@ && frame == 0
            } else {
                &&& node.op == NodeTypeView::Vardef(
                    name@,
                    None,
                    ScopeView::Global(
                        Seq::empty(),
                        if is_extern {
                            0
                        } else {
                            node.ty.size
                        },
                        is_extern,
                    ),
                )
            }
        }),
{
    reveal_with_fuel(toplevel, 1);
    reveal_with_fuel(program, 1);
    reveal_with_fuel(ctype, 1);
    let root = EnvView::root();
    let len = ts.len() as int;
    assert(len > 0);
    assert(program(ts, len, env_after, seq![node]) == Ok::<Seq<NodeView>, ParseError>(
        seq![node],
    ));
    assert(Seq::<NodeView>::empty().push(node) =~= seq![node]);
    assert(program(ts, 0, root, Seq::empty()) == program(ts, len, env_after, seq![node]));
}

/// The value that a statement stores, where the statement is a store.
pub open spec fn stored_value(stmt: NodeView) -> NodeView {
    match stmt.op {
        NodeTypeView::ExprStmt(e) => match e.op {
            NodeTypeView::BinOp(_, _, val) => *val,
            _ => stmt,
        },
        _ => stmt,
    }
}

/// Whether the statements of `list` from index `from` on store into the elements of the
/// array `name` in order: the first into element `first`, the next into the one behind
/// it, and so on.
pub open spec fn stores_in_order(list: Seq<NodeView>, from: int, name: Seq<char>, first: int) -> bool {
    forall|k: int|
        from <= k < list.len() ==> #[trigger] list[k] == element_init(
            name,
            (first + (k - from)) as i32,
            stored_value(list[k]),
        )
}

/// An initializer list keeps the statements it is given and appends at least one store,
/// and the stores go into consecutive elements of the array.
pub proof fn law_initializer_list(
    ts: Seq<Token>,
    pos: int,
    env: EnvView,
    name: Seq<char>,
    i: i32,
    acc: Seq<NodeView>,
)
    ensures
        array_init_rval(ts, pos, env, name, i, acc) matches Ok(r) ==> {
            &&& r.val.len() > acc.len()
            &&& r.val.take(acc.len() as int) == acc
            &&& stores_in_order(r.val, acc.len() as int, name, i as int)
            &&& i + (r.val.len() - acc.len()) - 1 <= i32::MAX
        },
    decreases crate::grammar::rest(ts, pos),
{
    reveal_with_fuel(array_init_rval, 1);
    reveal_with_fuel(primary, 1);
    let whole = array_init_rval(ts, pos, env, name, i, acc);
    if let Ok(val) = after(ts, primary(ts, pos, env), pos) {
        let store = element_init(name, i, val.val);
        let next = acc.push(store);
        assert(next.take(acc.len() as int) =~= acc);
        assert(stored_value(store) == val.val);
        if at(ts, val.pos, TokenType::Comma) {
            if i != i32::MAX {
                let tail = array_init_rval(ts, val.pos + 1, env, name, (i + 1) as i32, next);
                assert(whole == tail);
                law_initializer_list(ts, val.pos + 1, env, name, (i + 1) as i32, next);
                if let Ok(r) = tail {
                    assert(r.val.take(next.len() as int) == next);
                    assert(r.val.take(acc.len() as int) =~= next.take(acc.len() as int));
                    assert(r.val[acc.len() as int] == next[acc.len() as int]);
                    assert forall|k: int| acc.len() <= k < r.val.len() implies #[trigger] r.val[k]
                        == element_init(
                        name,
                        (i + (k - acc.len())) as i32,
                        stored_value(r.val[k]),
                    ) by {
                        if k > acc.len() {
                            assert(stores_in_order(r.val, next.len() as int, name, i + 1));
                            assert(r.val[k] == element_init(
                                name,
                                ((i + 1) + (k - next.len())) as i32,
                                stored_value(r.val[k]),
                            ));
                        } else {
                            assert(r.val[k] == store);
                        }
                    }
                }
            }
        } else {
            if let Ok(q) = expect(ts, val.pos, TokenType::RightBrace) {
                assert(whole == Ok::<Parsed<Seq<NodeView>>, ParseError>(Parsed { val: next, pos: q }));
                assert forall|k: int| acc.len() <= k < next.len() implies #[trigger] next[k]
                    == element_init(
                    name,
                    (i + (k - acc.len())) as i32,
                    stored_value(next[k]),
                ) by {
                    assert(next[k] == store);
                }
            }
        }
    }
}

/// The name that a node defines, where the node is a variable definition.
pub open spec fn defined_name(def: NodeView) -> Seq<char> {
    match def.op {
        NodeTypeView::Vardef(name, _, _) => name,
        _ => Seq::empty(),
    }
}

/// A declaration with an initializer list is a list of statements: first the
/// definition of the array, without initializer, then one store for each value, into
/// the elements 0, 1, 2 and so on. Every other declaration is one definition of a local
/// variable.
pub proof fn law_array_initializer(ts: Seq<Token>, pos: int, env: EnvView)
    ensures
        decl(ts, pos, env) matches Ok(d) ==> match d.val.op {
            NodeTypeView::VecStmt(list) => {
                &&& list.len() >= 2
                &&& list[0] == vardef(defined_name(list[0]), None, list[0].ty)
                &&& stores_in_order(list, 1, defined_name(list[0]), 0)
            },
            _ => d.val.op matches NodeTypeView::Vardef(_, _, ScopeView::Local(0)),
        },
{
    reveal_with_fuel(decl, 1);
    reveal_with_fuel(array_init_rval, 1);
    reveal_with_fuel(ctype, 1);
    reveal_with_fuel(read_array, 1);
    if let Ok(base) = after_scoped(ts, ctype(ts, pos, env), pos) {
        if let Ok(name) = ident(ts, base.pos) {
            if let Ok(ty) = after(ts, read_array(ts, name.pos, base.env, base.val), base.pos) {
                if at(ts, ty.pos, TokenType::Equal) && at(ts, ty.pos + 1, TokenType::LeftBrace) {
                    let first = vardef(name.val, None, ty.val);
                    law_initializer_list(ts, ty.pos + 2, base.env, name.val, 0, seq![first]);
                    if let Ok(init) = array_init_rval(
                        ts,
                        ty.pos + 2,
                        base.env,
                        name.val,
                        0,
                        seq![first],
                    ) {
                        assert(init.val.take(1)[0] == first);
                        assert(init.val[0] == first);
                        assert(defined_name(init.val[0]) == name.val);
                        assert(stores_in_order(init.val, 1, name.val, 0));
                    }
                }
            }
        }
    }
}

/// Whether a result that is a success has left the scopes around the innermost block
/// as they were in `env`.
pub open spec fn keeps_outer<T>(r: Result<Scoped<T>, ParseError>, env: EnvView) -> bool {
    r matches Ok(p) ==> p.env.next == env.next
}

/// A type name defines struct tags in the innermost block only.
#[verifier::spinoff_prover]
pub proof fn law_read_type_keeps_outer_scopes(ts: Seq<Token>, pos: int, env: EnvView)
    ensures
        read_type(ts, pos, env) matches Ok(Some(t)) ==> t.env.next == env.next,
    decreases rest(ts, pos), 17nat,
{
    reveal_with_fuel(read_type, 1);
    reveal_with_fuel(struct_members, 1);
    if 0 <= pos < ts.len() {
        law_struct_members_keep_outer_scopes(ts, pos + 2, env, Seq::empty());
        law_struct_members_keep_outer_scopes(ts, pos + 3, env, Seq::empty());
    }
}

/// The members of a struct define struct tags in the innermost block only.
#[verifier::spinoff_prover]
pub proof fn law_struct_members_keep_outer_scopes(
    ts: Seq<Token>,
    pos: int,
    env: EnvView,
    acc: Seq<NodeView>,
)
    ensures
        keeps_outer(struct_members(ts, pos, env, acc), env),
    decreases rest(ts, pos), 30nat,
{
    reveal_with_fuel(struct_members, 1);
    reveal_with_fuel(decl, 1);
    if !at(ts, pos, TokenType::RightBrace) && 0 <= pos < ts.len() {
        law_decl_keeps_outer_scopes(ts, pos, env);
        if let Ok(d) = after_scoped(ts, decl(ts, pos, env), pos) {
            law_struct_members_keep_outer_scopes(ts, d.pos, d.env, acc.push(d.val));
        }
    }
}

/// A type with its stars defines struct tags in the innermost block only.
#[verifier::spinoff_prover]
pub proof fn law_ctype_keeps_outer_scopes(ts: Seq<Token>, pos: int, env: EnvView)
    ensures
        keeps_outer(ctype(ts, pos, env), env),
    decreases rest(ts, pos), 18nat,
{
    reveal_with_fuel(ctype, 1);
    reveal_with_fuel(read_type, 1);
    law_read_type_keeps_outer_scopes(ts, pos, env);
}

/// A declaration defines struct tags in the innermost block only.
#[verifier::spinoff_prover]
pub proof fn law_decl_keeps_outer_scopes(ts: Seq<Token>, pos: int, env: EnvView)
    ensures
        keeps_outer(decl(ts, pos, env), env),
    decreases rest(ts, pos), 19nat,
{
    reveal_with_fuel(decl, 1);
    reveal_with_fuel(ctype, 1);
    law_ctype_keeps_outer_scopes(ts, pos, env);
}

/// A parameter defines struct tags in the innermost block only.
#[verifier::spinoff_prover]
pub proof fn law_param_keeps_outer_scopes(ts: Seq<Token>, pos: int, env: EnvView)
    ensures
        keeps_outer(param(ts, pos, env), env),
    decreases rest(ts, pos), 19nat,
{
    reveal_with_fuel(param, 1);
    reveal_with_fuel(ctype, 1);
    law_ctype_keeps_outer_scopes(ts, pos, env);
}

/// A statement defines typedefs and struct tags in the innermost block only: the scopes
/// around it are behind the statement what they were before it.
#[verifier::spinoff_prover]
pub proof fn law_stmt_keeps_outer_scopes(ts: Seq<Token>, pos: int, env: EnvView)
    ensures
        keeps_outer(stmt(ts, pos, env), env),
    decreases rest(ts, pos), 20nat,
{
    reveal_with_fuel(stmt, 1);
    reveal_with_fuel(decl, 1);
    if at(ts, pos, TokenType::Typedef) {
        law_decl_keeps_outer_scopes(ts, pos + 1, env);
    } else if is_typename(ts, pos, env) {
        law_decl_keeps_outer_scopes(ts, pos, env);
    } else if at(ts, pos, TokenType::If) {
        if let Ok(q1) = expect(ts, pos + 1, TokenType::LeftParen) {
            if let Ok(cond) = after(ts, expr(ts, q1, env), pos) {
                if let Ok(q2) = expect(ts, cond.pos, TokenType::RightParen) {
                    law_stmt_keeps_outer_scopes(ts, q2, env);
                    if let Ok(then) = after_scoped(ts, stmt(ts, q2, env), pos) {
                        if at(ts, then.pos, TokenType::Else) {
                            law_stmt_keeps_outer_scopes(ts, then.pos + 1, then.env);
                        }
                    }
                }
            }
        }
    } else if at(ts, pos, TokenType::For) {
        if let Ok(q1) = expect(ts, pos + 1, TokenType::LeftParen) {
            law_decl_keeps_outer_scopes(ts, q1, env);
            let first = if is_typename(ts, q1, env) {
                decl(ts, q1, env)
            } else {
                in_scope(expr_stmt(ts, q1, env), env)
            };
            if let Ok(init) = after_scoped(ts, first, pos) {
                if let Ok(cond) = after(ts, expr(ts, init.pos, init.env), pos) {
                    if let Ok(q2) = expect(ts, cond.pos, TokenType::Semicolon) {
                        if let Ok(inc) = after(ts, expr(ts, q2, init.env), pos) {
                            if let Ok(q3) = expect(ts, inc.pos, TokenType::RightParen) {
                                law_stmt_keeps_outer_scopes(ts, q3, init.env);
                            }
                        }
                    }
                }
            }
        }
    } else if at(ts, pos, TokenType::While) {
        if let Ok(q1) = expect(ts, pos + 1, TokenType::LeftParen) {
            if let Ok(cond) = after(ts, expr(ts, q1, env), pos) {
                if let Ok(q2) = expect(ts, cond.pos, TokenType::RightParen) {
                    law_stmt_keeps_outer_scopes(ts, q2, env);
                }
            }
        }
    } else if at(ts, pos, TokenType::Do) {
        law_stmt_keeps_outer_scopes(ts, pos + 1, env);
    }
}

/// The parameters of a function define struct tags in the innermost block only.
#[verifier::spinoff_prover]
pub proof fn law_params_keep_outer_scopes(
    ts: Seq<Token>,
    pos: int,
    env: EnvView,
    acc: Seq<NodeView>,
)
    ensures
        keeps_outer(params(ts, pos, env, acc), env),
    decreases rest(ts, pos), 30nat,
{
    reveal_with_fuel(params, 1);
    reveal_with_fuel(param, 1);
    law_param_keeps_outer_scopes(ts, pos, env);
    if let Ok(p) = after_scoped(ts, param(ts, pos, env), pos) {
        if at(ts, p.pos, TokenType::Comma) {
            law_params_keep_outer_scopes(ts, p.pos + 1, p.env, acc.push(p.val));
        }
    }
}

/// A top-level declaration defines struct tags in the innermost block only.
#[verifier::spinoff_prover]
pub proof fn law_toplevel_keeps_outer_scopes(ts: Seq<Token>, pos: int, env: EnvView)
    ensures
        keeps_outer(toplevel(ts, pos, env), env),
{
    reveal_with_fuel(toplevel, 1);
    reveal_with_fuel(ctype, 1);
    reveal_with_fuel(params, 1);
    let start = if at(ts, pos, TokenType::Extern) {
        pos + 1
    } else {
        pos
    };
    law_ctype_keeps_outer_scopes(ts, start, env);
    if let Ok(base) = after_scoped(ts, ctype(ts, start, env), pos) {
        law_params_keep_outer_scopes(ts, base.pos + 2, base.env, Seq::empty());
    }
}

} // verus!
