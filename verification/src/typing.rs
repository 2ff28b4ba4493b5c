//! Every type that the parser builds is well-formed: its size and alignment are those
//! that its kind calls for, provided that the same holds of the types that the scope
//! holds at the start, as it does of the empty scope.

use vstd::prelude::*;
use crate::ast::{NodeTypeView, NodeView, TypeView};
use crate::env::EnvView;
use crate::grammar::{
    Scoped, after, after_scoped, array_lens, arrays_of, at, ctype, decl, expect, expr, expr_stmt,
    ident, in_scope, is_typename, param, params, pointers, read_array, read_type, rest, stmt,
    struct_members, toplevel,
};
use crate::error::ParseError;
use crate::token::{Token, TokenType};
use crate::types::{lemma_new_struct_wf, members_wf};

verus! {

impl EnvView {
    /// Whether every type that the scope holds is well-formed: the types that typedefs
    /// name and the types of the members of structs, in every block.
    pub open spec fn wf(self) -> bool
        decreases self,
    {
        &&& forall|name: Seq<char>| #[trigger]
            self.typedefs.contains_key(name) ==> self.typedefs[name].wf()
        &&& forall|name: Seq<char>| #[trigger]
            self.tags.contains_key(name) ==> members_wf(self.tags[name])
        &&& match self.next {
            Some(outer) => outer.wf(),
            None => true,
        }
    }
}

/// Whether a result that is a success holds a well-formed type and a scope of
/// well-formed types.
pub open spec fn typed(r: Result<Scoped<TypeView>, ParseError>) -> bool {
    r matches Ok(t) ==> t.val.wf() && t.env.wf()
}

/// Whether a result that is a success holds a node of a well-formed type and a scope of
/// well-formed types.
pub open spec fn typed_node(r: Result<Scoped<NodeView>, ParseError>) -> bool {
    r matches Ok(n) ==> n.val.ty.wf() && n.env.wf()
}

/// Whether a result that is a success holds nodes of well-formed types and a scope of
/// well-formed types.
pub open spec fn typed_nodes(r: Result<Scoped<Seq<NodeView>>, ParseError>) -> bool {
    r matches Ok(n) ==> members_wf(n.val) && n.env.wf()
}

/// The empty scope holds no type.
pub proof fn lemma_root_wf()
    ensures
        EnvView::root().wf(),
{
}

/// What a scope of well-formed types binds a typedef to is well-formed.
pub proof fn lemma_find_typedef_wf(env: EnvView, name: Seq<char>)
    requires
        env.wf(),
    ensures
        env.find_typedef(name) matches Some(ty) ==> ty.wf(),
    decreases env,
{
    if !env.typedefs.contains_key(name) {
        if let Some(outer) = env.next {
            lemma_find_typedef_wf(*outer, name);
        }
    }
}

/// The members that a scope of well-formed types binds a struct tag to have well-formed
/// types.
pub proof fn lemma_find_tag_wf(env: EnvView, name: Seq<char>)
    requires
        env.wf(),
    ensures
        env.find_tag(name) matches Some(ms) ==> members_wf(ms),
    decreases env,
{
    if !env.tags.contains_key(name) {
        if let Some(outer) = env.next {
            lemma_find_tag_wf(*outer, name);
        }
    }
}

/// Pointers to a well-formed type are well-formed.
pub proof fn lemma_pointers_wf(ts: Seq<Token>, pos: int, ty: TypeView)
    requires
        ty.wf(),
    ensures
        pointers(ts, pos, ty).val.wf(),
    decreases rest(ts, pos),
{
    reveal_with_fuel(pointers, 1);
    if at(ts, pos, TokenType::Mul) {
        lemma_pointers_wf(ts, pos + 1, TypeView::ptr_to(ty));
    }
}

/// Arrays of a well-formed type are well-formed.
pub proof fn lemma_arrays_of_wf(ty: TypeView, lens: Seq<usize>)
    requires
        ty.wf(),
    ensures
        arrays_of(ty, lens) matches Some(t) ==> t.wf(),
    decreases lens.len(),
{
    if lens.len() > 0 && ty.size * lens[0] <= usize::MAX {
        lemma_arrays_of_wf(TypeView::ary_of(ty, lens[0]), lens.drop_first());
    }
}

/// The second half of a type keeps it well-formed.
pub proof fn lemma_read_array_wf(ts: Seq<Token>, pos: int, env: EnvView, ty: TypeView)
    requires
        ty.wf(),
    ensures
        read_array(ts, pos, env, ty) matches Ok(t) ==> t.val.wf(),
{
    reveal_with_fuel(read_array, 1);
    reveal_with_fuel(array_lens, 1);
    if let Ok(lens) = array_lens(ts, pos, env, Seq::empty()) {
        lemma_arrays_of_wf(ty, lens.val);
    }
}

/// A type name stands for a well-formed type.
#[verifier::spinoff_prover]
pub proof fn law_read_type_wf(ts: Seq<Token>, pos: int, env: EnvView)
    requires
        env.wf(),
    ensures
        read_type(ts, pos, env) matches Ok(Some(t)) ==> t.val.wf() && t.env.wf(),
    decreases rest(ts, pos), 17nat,
{
    reveal_with_fuel(read_type, 1);
    reveal_with_fuel(struct_members, 1);
    if 0 <= pos < ts.len() {
        match ts[pos].ty {
            TokenType::Ident(name) => {
                lemma_find_typedef_wf(env, name@);
            },
            TokenType::Struct => {
                let tagged = pos + 1 < ts.len() && ts[pos + 1].ty is Ident;
                let q = if tagged {
                    pos + 2
                } else {
                    pos + 1
                };
                law_struct_members_wf(ts, q + 1, env, Seq::empty());
                let body = if at(ts, q, TokenType::LeftBrace) {
                    struct_members(ts, q + 1, env, Seq::empty())
                } else {
                    Ok(Scoped { val: Seq::<NodeView>::empty(), pos: q, env })
                };
                if let Ok(b) = body {
                    if tagged {
                        lemma_find_tag_wf(b.env, ts[pos + 1].ty->Ident_0@);
                    }
                    if let Ok((members, env2)) = crate::grammar::resolve_struct(
                        if tagged {
                            Some(ts[pos + 1].ty->Ident_0@)
                        } else {
                            None
                        },
                        b.val,
                        b.env,
                        pos,
                    ) {
                        assert(members_wf(members));
                        assert(env2.wf());
                        if crate::types::are_members(members) && crate::types::struct_size(members)
                            <= usize::MAX {
                            lemma_new_struct_wf(members);
                        }
                    }
                }
            },
            _ => {},
        }
    }
}

/// The members of a struct have well-formed types.
#[verifier::spinoff_prover]
pub proof fn law_struct_members_wf(ts: Seq<Token>, pos: int, env: EnvView, acc: Seq<NodeView>)
    requires
        env.wf(),
        members_wf(acc),
    ensures
        typed_nodes(struct_members(ts, pos, env, acc)),
    decreases rest(ts, pos), 30nat,
{
    reveal_with_fuel(struct_members, 1);
    reveal_with_fuel(decl, 1);
    if !at(ts, pos, TokenType::RightBrace) && 0 <= pos < ts.len() {
        law_decl_wf(ts, pos, env);
        if let Ok(d) = after_scoped(ts, decl(ts, pos, env), pos) {
            law_struct_members_wf(ts, d.pos, d.env, acc.push(d.val));
        }
    }
}

/// A type with its stars is well-formed.
#[verifier::spinoff_prover]
pub proof fn law_ctype_wf(ts: Seq<Token>, pos: int, env: EnvView)
    requires
        env.wf(),
    ensures
        typed(ctype(ts, pos, env)),
    decreases rest(ts, pos), 18nat,
{
    reveal_with_fuel(ctype, 1);
    reveal_with_fuel(read_type, 1);
    law_read_type_wf(ts, pos, env);
    if let Ok(Some(t)) = read_type(ts, pos, env) {
        lemma_pointers_wf(ts, t.pos, t.val);
    }
}

/// A declaration gives its node a well-formed type: the type of the variable, or the
/// placeholder where the node is a list of statements.
#[verifier::spinoff_prover]
pub proof fn law_decl_wf(ts: Seq<Token>, pos: int, env: EnvView)
    requires
        env.wf(),
    ensures
        typed_node(decl(ts, pos, env)),
    decreases rest(ts, pos), 19nat,
{
    reveal_with_fuel(decl, 1);
    reveal_with_fuel(ctype, 1);
    reveal_with_fuel(read_array, 1);
    law_ctype_wf(ts, pos, env);
    if let Ok(base) = after_scoped(ts, ctype(ts, pos, env), pos) {
        if let Ok(name) = ident(ts, base.pos) {
            lemma_read_array_wf(ts, name.pos, base.env, base.val);
        }
    }
}

/// A parameter has a well-formed type.
#[verifier::spinoff_prover]
pub proof fn law_param_wf(ts: Seq<Token>, pos: int, env: EnvView)
    requires
        env.wf(),
    ensures
        typed_node(param(ts, pos, env)),
    decreases rest(ts, pos), 19nat,
{
    reveal_with_fuel(param, 1);
    reveal_with_fuel(ctype, 1);
    law_ctype_wf(ts, pos, env);
}

/// A statement leaves a scope of well-formed types.
#[verifier::spinoff_prover]
pub proof fn law_stmt_wf(ts: Seq<Token>, pos: int, env: EnvView)
    requires
        env.wf(),
    ensures
        stmt(ts, pos, env) matches Ok(s) ==> s.env.wf(),
    decreases rest(ts, pos), 20nat,
{
    reveal_with_fuel(stmt, 1);
    reveal_with_fuel(decl, 1);
    if at(ts, pos, TokenType::Typedef) {
        law_decl_wf(ts, pos + 1, env);
    } else if is_typename(ts, pos, env) {
        law_decl_wf(ts, pos, env);
    } else if at(ts, pos, TokenType::If) {
        if let Ok(q1) = expect(ts, pos + 1, TokenType::LeftParen) {
            if let Ok(cond) = after(ts, expr(ts, q1, env), pos) {
                if let Ok(q2) = expect(ts, cond.pos, TokenType::RightParen) {
                    law_stmt_wf(ts, q2, env);
                    if let Ok(then) = after_scoped(ts, stmt(ts, q2, env), pos) {
                        if at(ts, then.pos, TokenType::Else) {
                            law_stmt_wf(ts, then.pos + 1, then.env);
                        }
                    }
                }
            }
        }
    } else if at(ts, pos, TokenType::For) {
        if let Ok(q1) = expect(ts, pos + 1, TokenType::LeftParen) {
            law_decl_wf(ts, q1, env);
            let first = if is_typename(ts, q1, env) {
                decl(ts, q1, env)
            } else {
                in_scope(expr_stmt(ts, q1, env), env)
            };
            if let Ok(init) = after_scoped(ts, first, pos) {
                if let Ok(cond) = after(ts, expr(ts, init.pos, init.env), pos) {
                    if let Ok(q2) = expect(ts, cond.pos, TokenType::Semicolon) {
                        if let Ok(inc) = after(ts, expr(ts, q2, init.env), pos) {
                            if let Ok(q3) = expect(ts, inc.pos, TokenType::RightParen) {
                                law_stmt_wf(ts, q3, init.env);
                            }
                        }
                    }
                }
            }
        }
    } else if at(ts, pos, TokenType::While) {
        if let Ok(q1) = expect(ts, pos + 1, TokenType::LeftParen) {
            if let Ok(cond) = after(ts, expr(ts, q1, env), pos) {
                if let Ok(q2) = expect(ts, cond.pos, TokenType::RightParen) {
                    law_stmt_wf(ts, q2, env);
                }
            }
        }
    } else if at(ts, pos, TokenType::Do) {
        law_stmt_wf(ts, pos + 1, env);
    }
}

/// The parameters of a function have well-formed types.
#[verifier::spinoff_prover]
pub proof fn law_params_wf(ts: Seq<Token>, pos: int, env: EnvView, acc: Seq<NodeView>)
    requires
        env.wf(),
        members_wf(acc),
    ensures
        typed_nodes(params(ts, pos, env, acc)),
    decreases rest(ts, pos), 30nat,
{
    reveal_with_fuel(params, 1);
    reveal_with_fuel(param, 1);
    law_param_wf(ts, pos, env);
    if let Ok(p) = after_scoped(ts, param(ts, pos, env), pos) {
        if at(ts, p.pos, TokenType::Comma) {
            law_params_wf(ts, p.pos + 1, p.env, acc.push(p.val));
        }
    }
}

/// A top-level declaration gives its node a well-formed type, the type of the variable
/// or the placeholder of a function, and leaves a scope of well-formed types. The
/// parameters of a function have well-formed types.
#[verifier::spinoff_prover]
pub proof fn law_toplevel_wf(ts: Seq<Token>, pos: int, env: EnvView)
    requires
        env.wf(),
    ensures
        typed_node(toplevel(ts, pos, env)),
        toplevel(ts, pos, env) matches Ok(t) ==> (t.val.op matches NodeTypeView::Func(
            _,
            args,
            _,
            _,
        ) ==> members_wf(args)),
{
    reveal_with_fuel(toplevel, 1);
    reveal_with_fuel(ctype, 1);
    reveal_with_fuel(params, 1);
    reveal_with_fuel(read_array, 1);
    let start = if at(ts, pos, TokenType::Extern) {
        pos + 1
    } else {
        pos
    };
    law_ctype_wf(ts, start, env);
    if let Ok(base) = after_scoped(ts, ctype(ts, start, env), pos) {
        law_params_wf(ts, base.pos + 2, base.env, Seq::empty());
        lemma_read_array_wf(ts, base.pos + 1, base.env, base.val);
    }
}

} // verus!
