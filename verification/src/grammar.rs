//! The grammar: what the syntax tree of a sequence of tokens is. Each definition takes
//! the tokens, the index of the token to start at and the scope, and gives the tree of
//! what it reads with the index behind it, or the first error.

use vstd::prelude::*;
use crate::ast::{NodeTypeView, NodeView, ScopeView, TypeView, UnaryKind};
use crate::env::EnvView;
use crate::error::{ErrorKind, ParseError};
use crate::token::{Token, TokenType};
use crate::types::{are_members, struct_size};

verus! {

/// What a parser hands back where the scope cannot change: a value, and the index of
/// the first token behind what it has read.
pub struct Parsed<T> {
    pub val: T,
    pub pos: int,
}

/// What a parser hands back where the scope can change: a value, the index of the first
/// token behind what it has read, and the scope after it.
pub struct Scoped<T> {
    pub val: T,
    pub pos: int,
    pub env: EnvView,
}

/// The error of the given kind at token index `pos`.
pub open spec fn fail<T>(kind: ErrorKind, pos: int) -> Result<T, ParseError> {
    Err(ParseError { kind, pos: pos as usize })
}

/// The number of tokens from `pos` to the end of the input.
///
/// The definitions of this grammar call each other. Each names as its measure the
/// number of tokens that are left and, behind it, a rank: a definition calls one of a
/// lower rank at the same position, and any other only behind a token that it has
/// read.
pub open spec fn rest(ts: Seq<Token>, pos: int) -> nat {
    if 0 <= pos <= ts.len() {
        (ts.len() - pos) as nat
    } else {
        0
    }
}

/// Whether there is a token at `pos` and it is of kind `ty`.
pub open spec fn at(ts: Seq<Token>, pos: int, ty: TokenType) -> bool {
    0 <= pos < ts.len() && ts[pos].ty.same(ty)
}

/// The position behind the token of kind `ty` that must stand at `pos`.
pub open spec fn expect(ts: Seq<Token>, pos: int, ty: TokenType) -> Result<int, ParseError> {
    if at(ts, pos, ty) {
        Ok(pos + 1)
    } else {
        fail(ErrorKind::Expected(ty), pos)
    }
}

/// The identifier that must stand at `pos`.
pub open spec fn ident(ts: Seq<Token>, pos: int) -> Result<Parsed<Seq<char>>, ParseError> {
    if 0 <= pos < ts.len() && ts[pos].ty is Ident {
        Ok(Parsed { val: ts[pos].ty->Ident_0@, pos: pos + 1 })
    } else {
        fail(ErrorKind::VariableNameExpected, pos)
    }
}

/// `r`, provided that it has read at least one token from `pos` on and has stayed
/// within the input. That holds of every parser of this grammar (see the module
/// `progress`), so `after` changes no result; it is spelled out because the definitions
/// below recur on what is left of the input.
pub open spec fn after<T>(ts: Seq<Token>, r: Result<Parsed<T>, ParseError>, pos: int) -> Result<
    Parsed<T>,
    ParseError,
> {
    match r {
        Ok(p) => if 0 <= pos < p.pos <= ts.len() {
            r
        } else {
            fail(ErrorKind::Internal, pos)
        },
        Err(_) => r,
    }
}

/// As `after`, for a parser that can change the scope.
pub open spec fn after_scoped<T>(
    ts: Seq<Token>,
    r: Result<Scoped<T>, ParseError>,
    pos: int,
) -> Result<Scoped<T>, ParseError> {
    match r {
        Ok(p) => if 0 <= pos < p.pos <= ts.len() {
            r
        } else {
            fail(ErrorKind::Internal, pos)
        },
        Err(_) => r,
    }
}

/// Whether a declaration starts with the token at `pos`: a type keyword, `struct`, or
/// an identifier that is a typedef in the scope.
pub open spec fn is_typename(ts: Seq<Token>, pos: int, env: EnvView) -> bool {
    0 <= pos < ts.len() && match ts[pos].ty {
        TokenType::Ident(name) => env.find_typedef(name@) is Some,
        TokenType::Int | TokenType::Char | TokenType::Void | TokenType::Struct => true,
        _ => false,
    }
}

/// The precedence level of a binary operator, 1 binding tightest; `None` for every other
/// token.
pub open spec fn level_of(ty: TokenType) -> Option<nat> {
    match ty {
        TokenType::Mul | TokenType::Div | TokenType::Mod => Some(1nat),
        TokenType::Plus | TokenType::Minus => Some(2nat),
        TokenType::SHL | TokenType::SHR => Some(3nat),
        TokenType::LeftAngleBracket
        | TokenType::RightAngleBracket
        | TokenType::LE
        | TokenType::GE => Some(4nat),
        TokenType::EQ | TokenType::NE => Some(5nat),
        TokenType::And => Some(6nat),
        TokenType::Hat => Some(7nat),
        TokenType::VerticalBar => Some(8nat),
        TokenType::Logand => Some(9nat),
        TokenType::Logor => Some(10nat),
        _ => None,
    }
}

/// The node for `lhs op rhs`. `>` and `>=` do not occur in the tree: `a > b` is `b < a`,
/// and `a >= b` is `b <= a`.
pub open spec fn fold(op: TokenType, lhs: NodeView, rhs: NodeView) -> NodeView {
    match op {
        TokenType::RightAngleBracket => NodeView::binop(TokenType::LeftAngleBracket, rhs, lhs),
        TokenType::GE => NodeView::binop(TokenType::LE, rhs, lhs),
        _ => NodeView::binop(op, lhs, rhs),
    }
}

/// The node of the given one-operand construct around what `r` has parsed.
pub open spec fn wrap(kind: UnaryKind, r: Result<Parsed<NodeView>, ParseError>) -> Result<
    Parsed<NodeView>,
    ParseError,
> {
    match r {
        Ok(p) => Ok(Parsed { val: NodeView::new(kind.wrap(p.val)), pos: p.pos }),
        Err(e) => Err(e),
    }
}

/// The same result with the scope, which has not changed, beside it.
pub open spec fn in_scope(r: Result<Parsed<NodeView>, ParseError>, env: EnvView) -> Result<
    Scoped<NodeView>,
    ParseError,
> {
    match r {
        Ok(p) => Ok(Scoped { val: p.val, pos: p.pos, env }),
        Err(e) => Err(e),
    }
}

/// The definition of the local variable `name` of type `ty`.
pub open spec fn vardef(name: Seq<char>, init: Option<NodeView>, ty: TypeView) -> NodeView {
    NodeView {
        op: NodeTypeView::Vardef(
            name,
            match init {
                Some(e) => Some(Box::new(e)),
                None => None,
            },
            ScopeView::Local(0),
        ),
        ty,
    }
}

/// The statement that stores `val` in element `i` of the array `name`:
/// `*(name + i) = val;`.
pub open spec fn element_init(name: Seq<char>, i: i32, val: NodeView) -> NodeView {
    NodeView::new(
        NodeTypeView::ExprStmt(
            Box::new(
                NodeView::binop(
                    TokenType::Equal,
                    NodeView::new(
                        NodeTypeView::Deref(
                            Box::new(
                                NodeView::binop(
                                    TokenType::Plus,
                                    NodeView::new(NodeTypeView::Ident(name)),
                                    NodeView::new(NodeTypeView::Num(i)),
                                ),
                            ),
                        ),
                    ),
                    val,
                ),
            ),
        ),
    )
}

/// The type `ty` wrapped in arrays of the given lengths, the first length innermost, or
/// `None` where a size does not fit in `usize`.
pub open spec fn arrays_of(ty: TypeView, lens: Seq<usize>) -> Option<TypeView>
    decreases lens.len(),
{
    if lens.len() == 0 {
        Some(ty)
    } else if ty.size * lens[0] > usize::MAX {
        None
    } else {
        arrays_of(TypeView::ary_of(ty, lens[0]), lens.drop_first())
    }
}

/// A primary expression: a number, a string, an identifier, a call, a parenthesized
/// expression, or a block in parentheses.
#[verifier::opaque]
pub open spec fn primary(ts: Seq<Token>, pos: int, env: EnvView) -> Result<
    Parsed<NodeView>,
    ParseError,
>
    decreases rest(ts, pos), 0nat,
{
    if !(0 <= pos < ts.len()) {
        fail(ErrorKind::NumberExpected, pos)
    } else {
        match ts[pos].ty {
            TokenType::Num(val) => Ok(
                Parsed {
                    val: NodeView { op: NodeTypeView::Num(val), ty: TypeView::int_ty() },
                    pos: pos + 1,
                },
            ),
            TokenType::Str(s, len) => Ok(
                Parsed {
                    val: NodeView {
                        op: NodeTypeView::Str(s@, len),
                        ty: TypeView::ary_of(
                            TypeView::char_ty(),
                            vstd::utf8::encode_utf8(s@).len() as usize,
                        ),
                    },
                    pos: pos + 1,
                },
            ),
            TokenType::Ident(name) => {
                if !at(ts, pos + 1, TokenType::LeftParen) {
                    Ok(Parsed { val: NodeView::new(NodeTypeView::Ident(name@)), pos: pos + 1 })
                } else if at(ts, pos + 2, TokenType::RightParen) {
                    Ok(
                        Parsed {
                            val: NodeView::new(NodeTypeView::Call(name@, Seq::empty())),
                            pos: pos + 3,
                        },
                    )
                } else {
                    match call_args(ts, pos + 2, env, Seq::empty()) {
                        Ok(a) => Ok(
                            Parsed {
                                val: NodeView::new(NodeTypeView::Call(name@, a.val)),
                                pos: a.pos,
                            },
                        ),
                        Err(e) => Err(e),
                    }
                }
            },
            TokenType::LeftParen => {
                if at(ts, pos + 1, TokenType::LeftBrace) {
                    match compound_stmt(ts, pos + 2, env) {
                        Ok(b) => match expect(ts, b.pos, TokenType::RightParen) {
                            Ok(p) => Ok(
                                Parsed {
                                    val: NodeView::new(NodeTypeView::StmtExpr(Box::new(b.val))),
                                    pos: p,
                                },
                            ),
                            Err(e) => Err(e),
                        },
                        Err(e) => Err(e),
                    }
                } else {
                    match expr(ts, pos + 1, env) {
                        Ok(e) => match expect(ts, e.pos, TokenType::RightParen) {
                            Ok(p) => Ok(Parsed { val: e.val, pos: p }),
                            Err(e) => Err(e),
                        },
                        Err(e) => Err(e),
                    }
                }
            },
            _ => fail(ErrorKind::NumberExpected, pos),
        }
    }
}

/// The arguments of a call from `pos` on, behind those in `acc`: assignment expressions
/// separated by commas, closed by `)`.
#[verifier::opaque]
pub open spec fn call_args(ts: Seq<Token>, pos: int, env: EnvView, acc: Seq<NodeView>) -> Result<
    Parsed<Seq<NodeView>>,
    ParseError,
>
    decreases rest(ts, pos), 30nat,
{
    match after(ts, assign(ts, pos, env), pos) {
        Ok(a) => {
            if at(ts, a.pos, TokenType::Comma) {
                call_args(ts, a.pos + 1, env, acc.push(a.val))
            } else {
                match expect(ts, a.pos, TokenType::RightParen) {
                    Ok(p) => Ok(Parsed { val: acc.push(a.val), pos: p }),
                    Err(e) => Err(e),
                }
            }
        },
        Err(e) => Err(e),
    }
}

/// A postfix expression: a primary expression followed by any number of `.name`,
/// `->name` and `[index]`.
#[verifier::opaque]
pub open spec fn postfix(ts: Seq<Token>, pos: int, env: EnvView) -> Result<
    Parsed<NodeView>,
    ParseError,
>
    decreases rest(ts, pos), 1nat,
{
    match after(ts, primary(ts, pos, env), pos) {
        Ok(p) => postfix_rest(ts, p.pos, env, p.val),
        Err(e) => Err(e),
    }
}

/// The postfix operators from `pos` on, applied to `lhs`. `a->b` is `(*a).b`, and `a[i]`
/// is `*(a + i)`.
#[verifier::opaque]
pub open spec fn postfix_rest(ts: Seq<Token>, pos: int, env: EnvView, lhs: NodeView) -> Result<
    Parsed<NodeView>,
    ParseError,
>
    decreases rest(ts, pos), 30nat,
{
    if at(ts, pos, TokenType::Dot) {
        match ident(ts, pos + 1) {
            Ok(name) => postfix_rest(
                ts,
                name.pos,
                env,
                NodeView::new(NodeTypeView::Dot(Box::new(lhs), name.val, 0)),
            ),
            Err(e) => Err(e),
        }
    } else if at(ts, pos, TokenType::Arrow) {
        match ident(ts, pos + 1) {
            Ok(name) => postfix_rest(
                ts,
                name.pos,
                env,
                NodeView::new(
                    NodeTypeView::Dot(
                        Box::new(NodeView::new(NodeTypeView::Deref(Box::new(lhs)))),
                        name.val,
                        0,
                    ),
                ),
            ),
            Err(e) => Err(e),
        }
    } else if at(ts, pos, TokenType::LeftBracket) {
        match after(ts, assign(ts, pos + 1, env), pos) {
            Ok(index) => match expect(ts, index.pos, TokenType::RightBracket) {
                Ok(p) => postfix_rest(
                    ts,
                    p,
                    env,
                    NodeView::new(
                        NodeTypeView::Deref(
                            Box::new(NodeView::binop(TokenType::Plus, lhs, index.val)),
                        ),
                    ),
                ),
                Err(e) => Err(e),
            },
            Err(e) => Err(e),
        }
    } else {
        Ok(Parsed { val: lhs, pos })
    }
}

/// A unary expression: any number of prefix operators before a postfix expression.
#[verifier::opaque]
pub open spec fn unary(ts: Seq<Token>, pos: int, env: EnvView) -> Result<
    Parsed<NodeView>,
    ParseError,
>
    decreases rest(ts, pos), 2nat,
{
    if at(ts, pos, TokenType::Minus) {
        wrap(UnaryKind::Neg, unary(ts, pos + 1, env))
    } else if at(ts, pos, TokenType::Mul) {
        wrap(UnaryKind::Deref, unary(ts, pos + 1, env))
    } else if at(ts, pos, TokenType::And) {
        wrap(UnaryKind::Addr, unary(ts, pos + 1, env))
    } else if at(ts, pos, TokenType::Exclamation) {
        wrap(UnaryKind::Exclamation, unary(ts, pos + 1, env))
    } else if at(ts, pos, TokenType::Sizeof) {
        wrap(UnaryKind::Sizeof, unary(ts, pos + 1, env))
    } else if at(ts, pos, TokenType::Alignof) {
        wrap(UnaryKind::Alignof, unary(ts, pos + 1, env))
    } else {
        postfix(ts, pos, env)
    }
}

/// An expression of binary operators up to precedence level `level`: operands of the
/// level below, joined from left to right by the operators of this level. Level 0 is a
/// unary expression.
#[verifier::opaque]
pub open spec fn binary(ts: Seq<Token>, pos: int, env: EnvView, level: nat) -> Result<
    Parsed<NodeView>,
    ParseError,
>
    decreases rest(ts, pos), 3 + level,
{
    if level == 0 {
        unary(ts, pos, env)
    } else {
        match after(ts, binary(ts, pos, env, (level - 1) as nat), pos) {
            Ok(lhs) => binary_rest(ts, lhs.pos, env, level, lhs.val),
            Err(e) => Err(e),
        }
    }
}

/// The operators of level `level` from `pos` on, each with its right operand, joined to
/// `lhs` from left to right.
#[verifier::opaque]
pub open spec fn binary_rest(
    ts: Seq<Token>,
    pos: int,
    env: EnvView,
    level: nat,
    lhs: NodeView,
) -> Result<Parsed<NodeView>, ParseError>
    decreases rest(ts, pos), 30nat,
{
    if level > 0 && 0 <= pos < ts.len() && level_of(ts[pos].ty) == Some(level) {
        match after(ts, binary(ts, pos + 1, env, (level - 1) as nat), pos) {
            Ok(rhs) => binary_rest(ts, rhs.pos, env, level, fold(ts[pos].ty, lhs, rhs.val)),
            Err(e) => Err(e),
        }
    } else {
        Ok(Parsed { val: lhs, pos })
    }
}

/// At level 0 a binary expression is a unary expression.
pub proof fn lemma_binary_zero(ts: Seq<Token>, pos: int, env: EnvView)
    ensures
        binary(ts, pos, env, 0) == unary(ts, pos, env),
{
    reveal_with_fuel(binary, 1);
    reveal_with_fuel(unary, 1);
}

/// A conditional expression: `cond ? then : els`, where `els` may be a conditional
/// expression again, or a plain binary expression.
#[verifier::opaque]
pub open spec fn conditional(ts: Seq<Token>, pos: int, env: EnvView) -> Result<
    Parsed<NodeView>,
    ParseError,
>
    decreases rest(ts, pos), 14nat,
{
    match after(ts, binary(ts, pos, env, 10), pos) {
        Ok(cond) => {
            if !at(ts, cond.pos, TokenType::Question) {
                Ok(cond)
            } else {
                match after(ts, expr(ts, cond.pos + 1, env), cond.pos) {
                    Ok(then) => match expect(ts, then.pos, TokenType::Colon) {
                        Ok(p) => match conditional(ts, p, env) {
                            Ok(els) => Ok(
                                Parsed {
                                    val: NodeView::new(
                                        NodeTypeView::Ternary(
                                            Box::new(cond.val),
                                            Box::new(then.val),
                                            Box::new(els.val),
                                        ),
                                    ),
                                    pos: els.pos,
                                },
                            ),
                            Err(e) => Err(e),
                        },
                        Err(e) => Err(e),
                    },
                    Err(e) => Err(e),
                }
            }
        },
        Err(e) => Err(e),
    }
}

/// An assignment expression: `lhs = rhs`, where `rhs` may be an assignment again, or a
/// plain conditional expression.
#[verifier::opaque]
pub open spec fn assign(ts: Seq<Token>, pos: int, env: EnvView) -> Result<
    Parsed<NodeView>,
    ParseError,
>
    decreases rest(ts, pos), 15nat,
{
    match after(ts, conditional(ts, pos, env), pos) {
        Ok(lhs) => {
            if !at(ts, lhs.pos, TokenType::Equal) {
                Ok(lhs)
            } else {
                match assign(ts, lhs.pos + 1, env) {
                    Ok(rhs) => Ok(
                        Parsed {
                            val: NodeView::binop(TokenType::Equal, lhs.val, rhs.val),
                            pos: rhs.pos,
                        },
                    ),
                    Err(e) => Err(e),
                }
            }
        },
        Err(e) => Err(e),
    }
}

/// An expression: assignment expressions joined from left to right by commas.
#[verifier::opaque]
pub open spec fn expr(ts: Seq<Token>, pos: int, env: EnvView) -> Result<
    Parsed<NodeView>,
    ParseError,
>
    decreases rest(ts, pos), 16nat,
{
    match after(ts, assign(ts, pos, env), pos) {
        Ok(lhs) => expr_rest(ts, lhs.pos, env, lhs.val),
        Err(e) => Err(e),
    }
}

/// The commas from `pos` on, each with its right operand, joined to `lhs` from left to
/// right.
#[verifier::opaque]
pub open spec fn expr_rest(ts: Seq<Token>, pos: int, env: EnvView, lhs: NodeView) -> Result<
    Parsed<NodeView>,
    ParseError,
>
    decreases rest(ts, pos), 30nat,
{
    if at(ts, pos, TokenType::Comma) {
        match after(ts, assign(ts, pos + 1, env), pos) {
            Ok(rhs) => expr_rest(
                ts,
                rhs.pos,
                env,
                NodeView::binop(TokenType::Comma, lhs, rhs.val),
            ),
            Err(e) => Err(e),
        }
    } else {
        Ok(Parsed { val: lhs, pos })
    }
}

/// An expression statement: an expression and `;`.
#[verifier::opaque]
pub open spec fn expr_stmt(ts: Seq<Token>, pos: int, env: EnvView) -> Result<
    Parsed<NodeView>,
    ParseError,
>
    decreases rest(ts, pos), 17nat,
{
    match expr(ts, pos, env) {
        Ok(e) => match expect(ts, e.pos, TokenType::Semicolon) {
            Ok(p) => Ok(
                Parsed { val: NodeView::new(NodeTypeView::ExprStmt(Box::new(e.val))), pos: p },
            ),
            Err(e) => Err(e),
        },
        Err(e) => Err(e),
    }
}

/// The stars from `pos` on: each makes a pointer to the type so far.
#[verifier::opaque]
pub open spec fn pointers(ts: Seq<Token>, pos: int, ty: TypeView) -> Parsed<TypeView>
    decreases rest(ts, pos),
{
    if at(ts, pos, TokenType::Mul) {
        pointers(ts, pos + 1, TypeView::ptr_to(ty))
    } else {
        Parsed { val: ty, pos }
    }
}

/// The members that a struct specifier with the given tag and member list stands for,
/// and the scope after it. A tag alone stands for the members of the struct of that
/// name in scope; a tag with members defines that struct in the innermost block.
pub open spec fn resolve_struct(
    tag: Option<Seq<char>>,
    members: Seq<NodeView>,
    env: EnvView,
    pos: int,
) -> Result<(Seq<NodeView>, EnvView), ParseError> {
    match tag {
        Some(name) => {
            if members.len() == 0 {
                match env.find_tag(name) {
                    Some(found) => if found.len() == 0 {
                        fail(ErrorKind::IncompleteType, pos)
                    } else {
                        Ok((found, env))
                    },
                    None => fail(ErrorKind::IncompleteType, pos),
                }
            } else {
                Ok((members, env.define_tag(name, members)))
            }
        },
        None => {
            if members.len() == 0 {
                fail(ErrorKind::BadStructDefinition, pos)
            } else {
                Ok((members, env))
            }
        },
    }
}

/// The struct type with the given members; `pos` is where an error is reported.
pub open spec fn struct_type(members: Seq<NodeView>, pos: int) -> Result<TypeView, ParseError> {
    if !are_members(members) {
        fail(ErrorKind::Internal, pos)
    } else if struct_size(members) > usize::MAX {
        fail(ErrorKind::TypeTooLarge, pos)
    } else {
        Ok(TypeView::new_struct(members))
    }
}

/// The type that starts at `pos`, without stars and array lengths: a type keyword, a
/// typedef, or a struct specifier. `None` where no type starts there.
#[verifier::opaque]
pub open spec fn read_type(ts: Seq<Token>, pos: int, env: EnvView) -> Result<
    Option<Scoped<TypeView>>,
    ParseError,
>
    decreases rest(ts, pos), 17nat,
{
    if !(0 <= pos < ts.len()) {
        Ok(None)
    } else {
        match ts[pos].ty {
            TokenType::Ident(name) => match env.find_typedef(name@) {
                Some(ty) => Ok(Some(Scoped { val: ty, pos: pos + 1, env })),
                None => Ok(None),
            },
            TokenType::Int => Ok(Some(Scoped { val: TypeView::int_ty(), pos: pos + 1, env })),
            TokenType::Char => Ok(Some(Scoped { val: TypeView::char_ty(), pos: pos + 1, env })),
            TokenType::Void => Ok(Some(Scoped { val: TypeView::void_ty(), pos: pos + 1, env })),
            TokenType::Struct => {
                let tagged = pos + 1 < ts.len() && ts[pos + 1].ty is Ident;
                let tag = if tagged {
                    Some(ts[pos + 1].ty->Ident_0@)
                } else {
                    None
                };
                let p = if tagged {
                    pos + 2
                } else {
                    pos + 1
                };
                let body = if at(ts, p, TokenType::LeftBrace) {
                    struct_members(ts, p + 1, env, Seq::empty())
                } else {
                    Ok(Scoped { val: Seq::empty(), pos: p, env })
                };
                match body {
                    Ok(b) => match resolve_struct(tag, b.val, b.env, pos) {
                        Ok((members, env2)) => match struct_type(members, pos) {
                            Ok(ty) => Ok(Some(Scoped { val: ty, pos: b.pos, env: env2 })),
                            Err(e) => Err(e),
                        },
                        Err(e) => Err(e),
                    },
                    Err(e) => Err(e),
                }
            },
            _ => Ok(None),
        }
    }
}

/// The member declarations of a struct from `pos` on, behind those in `acc`, closed by
/// `}`.
#[verifier::opaque]
pub open spec fn struct_members(
    ts: Seq<Token>,
    pos: int,
    env: EnvView,
    acc: Seq<NodeView>,
) -> Result<Scoped<Seq<NodeView>>, ParseError>
    decreases rest(ts, pos), 30nat,
{
    if at(ts, pos, TokenType::RightBrace) {
        Ok(Scoped { val: acc, pos: pos + 1, env })
    } else if !(0 <= pos < ts.len()) {
        fail(ErrorKind::Expected(TokenType::RightBrace), pos)
    } else {
        match after_scoped(ts, decl(ts, pos, env), pos) {
            Ok(d) => struct_members(ts, d.pos, d.env, acc.push(d.val)),
            Err(e) => Err(e),
        }
    }
}

/// The first half of a type: what `read_type` reads, and any number of stars.
#[verifier::opaque]
pub open spec fn ctype(ts: Seq<Token>, pos: int, env: EnvView) -> Result<
    Scoped<TypeView>,
    ParseError,
>
    decreases rest(ts, pos), 18nat,
{
    match read_type(ts, pos, env) {
        Ok(Some(t)) => {
            let p = pointers(ts, t.pos, t.val);
            Ok(Scoped { val: p.val, pos: p.pos, env: t.env })
        },
        Ok(None) => fail(ErrorKind::TypenameExpected, pos),
        Err(e) => Err(e),
    }
}

/// The array lengths from `pos` on, behind those in `acc`: each an expression in
/// brackets that is a number literal.
#[verifier::opaque]
pub open spec fn array_lens(ts: Seq<Token>, pos: int, env: EnvView, acc: Seq<usize>) -> Result<
    Parsed<Seq<usize>>,
    ParseError,
>
    decreases rest(ts, pos), 30nat,
{
    if at(ts, pos, TokenType::LeftBracket) {
        match after(ts, expr(ts, pos + 1, env), pos) {
            Ok(len) => match len.val.op {
                NodeTypeView::Num(n) => match expect(ts, len.pos, TokenType::RightBracket) {
                    Ok(p) => array_lens(ts, p, env, acc.push(n as usize)),
                    Err(e) => Err(e),
                },
                _ => fail(ErrorKind::ArrayLengthNotConstant, pos + 1),
            },
            Err(e) => Err(e),
        }
    } else {
        Ok(Parsed { val: acc, pos })
    }
}

/// The second half of a type: `ty` wrapped in arrays of the lengths from `pos` on, the
/// first length innermost.
#[verifier::opaque]
pub open spec fn read_array(ts: Seq<Token>, pos: int, env: EnvView, ty: TypeView) -> Result<
    Parsed<TypeView>,
    ParseError,
>
    decreases rest(ts, pos), 31nat,
{
    match array_lens(ts, pos, env, Seq::empty()) {
        Ok(lens) => match arrays_of(ty, lens.val) {
            Some(t) => Ok(Parsed { val: t, pos: lens.pos }),
            None => fail(ErrorKind::TypeTooLarge, pos),
        },
        Err(e) => Err(e),
    }
}

/// The values of an initializer list from `pos` on, behind the statements in `acc`:
/// primary expressions separated by commas, closed by `}`. Value number `i` from here
/// becomes the statement that stores it in element `i` of the array `name`.
#[verifier::opaque]
pub open spec fn array_init_rval(
    ts: Seq<Token>,
    pos: int,
    env: EnvView,
    name: Seq<char>,
    i: i32,
    acc: Seq<NodeView>,
) -> Result<Parsed<Seq<NodeView>>, ParseError>
    decreases rest(ts, pos), 30nat,
{
    match after(ts, primary(ts, pos, env), pos) {
        Ok(val) => {
            let stmts = acc.push(element_init(name, i, val.val));
            if at(ts, val.pos, TokenType::Comma) {
                if i == i32::MAX {
                    fail(ErrorKind::TooManyInitializers, val.pos)
                } else {
                    array_init_rval(ts, val.pos + 1, env, name, (i + 1) as i32, stmts)
                }
            } else {
                match expect(ts, val.pos, TokenType::RightBrace) {
                    Ok(p) => Ok(Parsed { val: stmts, pos: p }),
                    Err(e) => Err(e),
                }
            }
        },
        Err(e) => Err(e),
    }
}

/// A declaration: a type, a name, array lengths, an initializer if there is one, and
/// `;`. With an initializer list it is a list of statements: the definition of the
/// array, then one assignment for each value.
#[verifier::opaque]
pub open spec fn decl(ts: Seq<Token>, pos: int, env: EnvView) -> Result<
    Scoped<NodeView>,
    ParseError,
>
    decreases rest(ts, pos), 19nat,
{
    match after_scoped(ts, ctype(ts, pos, env), pos) {
        Ok(base) => match ident(ts, base.pos) {
            Ok(name) => match after(ts, read_array(ts, name.pos, base.env, base.val), base.pos) {
                Ok(ty) => {
                    if ty.val.ty is Void {
                        fail(ErrorKind::VoidVariable, base.pos)
                    } else if !at(ts, ty.pos, TokenType::Equal) {
                        match expect(ts, ty.pos, TokenType::Semicolon) {
                            Ok(p) => Ok(
                                Scoped {
                                    val: vardef(name.val, None, ty.val),
                                    pos: p,
                                    env: base.env,
                                },
                            ),
                            Err(e) => Err(e),
                        }
                    } else if at(ts, ty.pos + 1, TokenType::LeftBrace) {
                        match array_init_rval(
                            ts,
                            ty.pos + 2,
                            base.env,
                            name.val,
                            0,
                            seq![vardef(name.val, None, ty.val)],
                        ) {
                            Ok(init) => match expect(ts, init.pos, TokenType::Semicolon) {
                                Ok(p) => Ok(
                                    Scoped {
                                        val: NodeView::new(NodeTypeView::VecStmt(init.val)),
                                        pos: p,
                                        env: base.env,
                                    },
                                ),
                                Err(e) => Err(e),
                            },
                            Err(e) => Err(e),
                        }
                    } else {
                        match assign(ts, ty.pos + 1, base.env) {
                            Ok(init) => match expect(ts, init.pos, TokenType::Semicolon) {
                                Ok(p) => Ok(
                                    Scoped {
                                        val: vardef(name.val, Some(init.val), ty.val),
                                        pos: p,
                                        env: base.env,
                                    },
                                ),
                                Err(e) => Err(e),
                            },
                            Err(e) => Err(e),
                        }
                    }
                },
                Err(e) => Err(e),
            },
            Err(e) => Err(e),
        },
        Err(e) => Err(e),
    }
}

/// A parameter of a function: a type and a name.
#[verifier::opaque]
pub open spec fn param(ts: Seq<Token>, pos: int, env: EnvView) -> Result<
    Scoped<NodeView>,
    ParseError,
>
    decreases rest(ts, pos), 19nat,
{
    match ctype(ts, pos, env) {
        Ok(ty) => match ident(ts, ty.pos) {
            Ok(name) => Ok(
                Scoped { val: vardef(name.val, None, ty.val), pos: name.pos, env: ty.env },
            ),
            Err(e) => Err(e),
        },
        Err(e) => Err(e),
    }
}

/// A statement.
#[verifier::opaque]
pub open spec fn stmt(ts: Seq<Token>, pos: int, env: EnvView) -> Result<
    Scoped<NodeView>,
    ParseError,
>
    decreases rest(ts, pos), 20nat,
{
    if at(ts, pos, TokenType::Typedef) {
        match decl(ts, pos + 1, env) {
            Ok(d) => match d.val.op {
                NodeTypeView::Vardef(name, _, _) => Ok(
                    Scoped {
                        val: NodeView::new(NodeTypeView::Null),
                        pos: d.pos,
                        env: d.env.define_typedef(name, d.val.ty),
                    },
                ),
                _ => fail(ErrorKind::Internal, pos),
            },
            Err(e) => Err(e),
        }
    } else if is_typename(ts, pos, env) {
        decl(ts, pos, env)
    } else if at(ts, pos, TokenType::If) {
        match expect(ts, pos + 1, TokenType::LeftParen) {
            Ok(q1) => match after(ts, expr(ts, q1, env), pos) {
                Ok(cond) => match expect(ts, cond.pos, TokenType::RightParen) {
                    Ok(q2) => match after_scoped(ts, stmt(ts, q2, env), pos) {
                        Ok(then) => {
                            if at(ts, then.pos, TokenType::Else) {
                                match stmt(ts, then.pos + 1, then.env) {
                                    Ok(els) => Ok(
                                        Scoped {
                                            val: NodeView::new(
                                                NodeTypeView::If(
                                                    Box::new(cond.val),
                                                    Box::new(then.val),
                                                    Some(Box::new(els.val)),
                                                ),
                                            ),
                                            pos: els.pos,
                                            env: els.env,
                                        },
                                    ),
                                    Err(e) => Err(e),
                                }
                            } else {
                                Ok(
                                    Scoped {
                                        val: NodeView::new(
                                            NodeTypeView::If(
                                                Box::new(cond.val),
                                                Box::new(then.val),
                                                None,
                                            ),
                                        ),
                                        pos: then.pos,
                                        env: then.env,
                                    },
                                )
                            }
                        },
                        Err(e) => Err(e),
                    },
                    Err(e) => Err(e),
                },
                Err(e) => Err(e),
            },
            Err(e) => Err(e),
        }
    } else if at(ts, pos, TokenType::For) {
        match expect(ts, pos + 1, TokenType::LeftParen) {
            Ok(q1) => {
                let first = if is_typename(ts, q1, env) {
                    decl(ts, q1, env)
                } else {
                    in_scope(expr_stmt(ts, q1, env), env)
                };
                match after_scoped(ts, first, pos) {
                    Ok(init) => match after(ts, expr(ts, init.pos, init.env), pos) {
                        Ok(cond) => match expect(ts, cond.pos, TokenType::Semicolon) {
                            Ok(q2) => match after(ts, expr(ts, q2, init.env), pos) {
                                Ok(inc) => match expect(ts, inc.pos, TokenType::RightParen) {
                                    Ok(q3) => match stmt(ts, q3, init.env) {
                                        Ok(body) => Ok(
                                            Scoped {
                                                val: NodeView::new(
                                                    NodeTypeView::For(
                                                        Box::new(init.val),
                                                        Box::new(cond.val),
                                                        Box::new(
                                                            NodeView::new(
                                                                NodeTypeView::ExprStmt(
                                                                    Box::new(inc.val),
                                                                ),
                                                            ),
                                                        ),
                                                        Box::new(body.val),
                                                    ),
                                                ),
                                                pos: body.pos,
                                                env: body.env,
                                            },
                                        ),
                                        Err(e) => Err(e),
                                    },
                                    Err(e) => Err(e),
                                },
                                Err(e) => Err(e),
                            },
                            Err(e) => Err(e),
                        },
                        Err(e) => Err(e),
                    },
                    Err(e) => Err(e),
                }
            },
            Err(e) => Err(e),
        }
    } else if at(ts, pos, TokenType::While) {
        match expect(ts, pos + 1, TokenType::LeftParen) {
            Ok(q1) => match after(ts, expr(ts, q1, env), pos) {
                Ok(cond) => match expect(ts, cond.pos, TokenType::RightParen) {
                    Ok(q2) => match stmt(ts, q2, env) {
                        Ok(body) => Ok(
                            Scoped {
                                val: NodeView::new(
                                    NodeTypeView::For(
                                        Box::new(NodeView::new(NodeTypeView::Null)),
                                        Box::new(cond.val),
                                        Box::new(NodeView::new(NodeTypeView::Null)),
                                        Box::new(body.val),
                                    ),
                                ),
                                pos: body.pos,
                                env: body.env,
                            },
                        ),
                        Err(e) => Err(e),
                    },
                    Err(e) => Err(e),
                },
                Err(e) => Err(e),
            },
            Err(e) => Err(e),
        }
    } else if at(ts, pos, TokenType::Do) {
        match after_scoped(ts, stmt(ts, pos + 1, env), pos) {
            Ok(body) => match expect(ts, body.pos, TokenType::While) {
                Ok(q1) => match expect(ts, q1, TokenType::LeftParen) {
                    Ok(q2) => match expr(ts, q2, body.env) {
                        Ok(cond) => match expect(ts, cond.pos, TokenType::RightParen) {
                            Ok(q3) => match expect(ts, q3, TokenType::Semicolon) {
                                Ok(q4) => Ok(
                                    Scoped {
                                        val: NodeView::new(
                                            NodeTypeView::DoWhile(
                                                Box::new(body.val),
                                                Box::new(cond.val),
                                            ),
                                        ),
                                        pos: q4,
                                        env: body.env,
                                    },
                                ),
                                Err(e) => Err(e),
                            },
                            Err(e) => Err(e),
                        },
                        Err(e) => Err(e),
                    },
                    Err(e) => Err(e),
                },
                Err(e) => Err(e),
            },
            Err(e) => Err(e),
        }
    } else if at(ts, pos, TokenType::Return) {
        match expr(ts, pos + 1, env) {
            Ok(e) => match expect(ts, e.pos, TokenType::Semicolon) {
                Ok(p) => Ok(
                    Scoped {
                        val: NodeView::new(NodeTypeView::Return(Box::new(e.val))),
                        pos: p,
                        env,
                    },
                ),
                Err(e) => Err(e),
            },
            Err(e) => Err(e),
        }
    } else if at(ts, pos, TokenType::LeftBrace) {
        in_scope(compound_stmt(ts, pos + 1, env), env)
    } else if at(ts, pos, TokenType::Semicolon) {
        Ok(Scoped { val: NodeView::new(NodeTypeView::Null), pos: pos + 1, env })
    } else {
        in_scope(expr_stmt(ts, pos, env), env)
    }
}

/// The statements from `pos` on, behind those in `acc`, closed by `}`.
#[verifier::opaque]
pub open spec fn stmts(ts: Seq<Token>, pos: int, env: EnvView, acc: Seq<NodeView>) -> Result<
    Parsed<Seq<NodeView>>,
    ParseError,
>
    decreases rest(ts, pos), 30nat,
{
    if at(ts, pos, TokenType::RightBrace) {
        Ok(Parsed { val: acc, pos: pos + 1 })
    } else if !(0 <= pos < ts.len()) {
        fail(ErrorKind::Expected(TokenType::RightBrace), pos)
    } else {
        match after_scoped(ts, stmt(ts, pos, env), pos) {
            Ok(s) => stmts(ts, s.pos, s.env, acc.push(s.val)),
            Err(e) => Err(e),
        }
    }
}

/// The rest of a block whose `{` stands before `pos`: statements closed by `}`, parsed
/// in a scope of their own. What they define is gone behind the block.
#[verifier::opaque]
pub open spec fn compound_stmt(ts: Seq<Token>, pos: int, env: EnvView) -> Result<
    Parsed<NodeView>,
    ParseError,
>
    decreases rest(ts, pos), 31nat,
{
    match stmts(ts, pos, env.push_frame(), Seq::empty()) {
        Ok(s) => Ok(Parsed { val: NodeView::new(NodeTypeView::CompStmt(s.val)), pos: s.pos }),
        Err(e) => Err(e),
    }
}

/// The parameters of a function from `pos` on, behind those in `acc`: separated by
/// commas, closed by `)`.
#[verifier::opaque]
pub open spec fn params(ts: Seq<Token>, pos: int, env: EnvView, acc: Seq<NodeView>) -> Result<
    Scoped<Seq<NodeView>>,
    ParseError,
>
    decreases rest(ts, pos), 30nat,
{
    match after_scoped(ts, param(ts, pos, env), pos) {
        Ok(p) => {
            if at(ts, p.pos, TokenType::Comma) {
                params(ts, p.pos + 1, p.env, acc.push(p.val))
            } else {
                match expect(ts, p.pos, TokenType::RightParen) {
                    Ok(end) => Ok(Scoped { val: acc.push(p.val), pos: end, env: p.env }),
                    Err(e) => Err(e),
                }
            }
        },
        Err(e) => Err(e),
    }
}

/// The definition of the global variable `name` of type `ty`. One that is only declared
/// here has no size.
pub open spec fn global_var(name: Seq<char>, ty: TypeView, is_extern: bool) -> NodeView {
    NodeView {
        op: NodeTypeView::Vardef(
            name,
            None,
            ScopeView::Global(
                Seq::empty(),
                if is_extern {
                    0
                } else {
                    ty.size
                },
                is_extern,
            ),
        ),
        ty,
    }
}

/// A top-level declaration: a function definition where `(` follows the name, else a
/// global variable.
#[verifier::opaque]
pub open spec fn toplevel(ts: Seq<Token>, pos: int, env: EnvView) -> Result<
    Scoped<NodeView>,
    ParseError,
>
    decreases rest(ts, pos), 20nat,
{
    let is_extern = at(ts, pos, TokenType::Extern);
    let start = if is_extern {
        pos + 1
    } else {
        pos
    };
    match after_scoped(ts, ctype(ts, start, env), pos) {
        Ok(base) => {
            if !(0 <= base.pos < ts.len() && ts[base.pos].ty is Ident) {
                fail(ErrorKind::NameExpected, base.pos)
            } else {
                let name = ts[base.pos].ty->Ident_0@;
                if at(ts, base.pos + 1, TokenType::LeftParen) {
                    let args = if at(ts, base.pos + 2, TokenType::RightParen) {
                        Ok(Scoped { val: Seq::empty(), pos: base.pos + 3, env: base.env })
                    } else {
                        params(ts, base.pos + 2, base.env, Seq::empty())
                    };
                    match after_scoped(ts, args, pos) {
                        Ok(a) => match expect(ts, a.pos, TokenType::LeftBrace) {
                            Ok(p) => match compound_stmt(ts, p, a.env) {
                                Ok(body) => Ok(
                                    Scoped {
                                        val: NodeView::new(
                                            NodeTypeView::Func(
                                                name,
                                                a.val,
                                                Box::new(body.val),
                                                0,
                                            ),
                                        ),
                                        pos: body.pos,
                                        env: a.env,
                                    },
                                ),
                                Err(e) => Err(e),
                            },
                            Err(e) => Err(e),
                        },
                        Err(e) => Err(e),
                    }
                } else {
                    match read_array(ts, base.pos + 1, base.env, base.val) {
                        Ok(ty) => match expect(ts, ty.pos, TokenType::Semicolon) {
                            Ok(p) => Ok(
                                Scoped {
                                    val: global_var(name, ty.val, is_extern),
                                    pos: p,
                                    env: base.env,
                                },
                            ),
                            Err(e) => Err(e),
                        },
                        Err(e) => Err(e),
                    }
                }
            }
        },
        Err(e) => Err(e),
    }
}

/// The top-level declarations from `pos` to the end of the input, behind those in
/// `acc`.
#[verifier::opaque]
pub open spec fn program(ts: Seq<Token>, pos: int, env: EnvView, acc: Seq<NodeView>) -> Result<
    Seq<NodeView>,
    ParseError,
>
    decreases rest(ts, pos), 30nat,
{
    if !(0 <= pos < ts.len()) {
        Ok(acc)
    } else {
        match after_scoped(ts, toplevel(ts, pos, env), pos) {
            Ok(t) => program(ts, t.pos, t.env, acc.push(t.val)),
            Err(e) => Err(e),
        }
    }
}

/// The syntax tree of a whole input: its top-level declarations in order, parsed from
/// the first token on in a scope that starts empty.
pub open spec fn parse(ts: Seq<Token>) -> Result<Seq<NodeView>, ParseError> {
    program(ts, 0, EnvView::root(), Seq::empty())
}

} // verus!
