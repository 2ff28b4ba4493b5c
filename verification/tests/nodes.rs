use cparse::ast::{Ctype, Node, NodeType, Scope, Type, UnaryKind, clone_nodes};
use cparse::env::Env;
use cparse::error::{ErrorKind, ParseError};
use cparse::token::{Token, TokenType};

#[test]
fn new_node_has_the_placeholder_type() {
    let n = Node::new(NodeType::Null);
    assert_eq!(n.op, NodeType::Null);
    assert_eq!(*n.ty, Type::default());
}

#[test]
fn int_ty_is_an_untyped_number() {
    assert_eq!(Node::int_ty(7), Node::new(NodeType::Num(7)));
}

#[test]
fn num_is_a_number_of_type_int() {
    let n = Node::num(7);
    assert_eq!(n.op, NodeType::Num(7));
    assert_eq!(*n.ty, Type::int_ty());
}

#[test]
fn new_binop_keeps_operand_order() {
    let n = Node::new_binop(TokenType::Minus, Node::int_ty(1), Node::int_ty(2));
    assert_eq!(
        n.op,
        NodeType::BinOp(TokenType::Minus, Box::new(Node::int_ty(1)), Box::new(Node::int_ty(2)))
    );
    assert_eq!(*n.ty, Type::default());
}

#[test]
fn new_expr_wraps_in_each_kind() {
    let inner = || Box::new(Node::int_ty(1));
    assert_eq!(Node::new_expr(UnaryKind::Addr, Node::int_ty(1)).op, NodeType::Addr(inner()));
    assert_eq!(Node::new_expr(UnaryKind::Deref, Node::int_ty(1)).op, NodeType::Deref(inner()));
    assert_eq!(
        Node::new_expr(UnaryKind::Exclamation, Node::int_ty(1)).op,
        NodeType::Exclamation(inner())
    );
    assert_eq!(Node::new_expr(UnaryKind::Neg, Node::int_ty(1)).op, NodeType::Neg(inner()));
    assert_eq!(Node::new_expr(UnaryKind::Return, Node::int_ty(1)).op, NodeType::Return(inner()));
    assert_eq!(Node::new_expr(UnaryKind::Sizeof, Node::int_ty(1)).op, NodeType::Sizeof(inner()));
    assert_eq!(Node::new_expr(UnaryKind::Alignof, Node::int_ty(1)).op, NodeType::Alignof(inner()));
    assert_eq!(Node::new_expr(UnaryKind::ExprStmt, Node::int_ty(1)).op, NodeType::ExprStmt(inner()));
    assert_eq!(Node::new_expr(UnaryKind::StmtExpr, Node::int_ty(1)).op, NodeType::StmtExpr(inner()));
}

#[test]
fn builders_fill_in_placeholders() {
    assert_eq!(
        Node::dot(Node::int_ty(1), "m".to_string()).op,
        NodeType::Dot(Box::new(Node::int_ty(1)), "m".to_string(), 0)
    );
    assert_eq!(
        Node::func("f".to_string(), vec![], Node::null()).op,
        NodeType::Func("f".to_string(), vec![], Box::new(Node::null()), 0)
    );
    assert_eq!(Node::call("f".to_string(), vec![Node::num(1)]).op, NodeType::Call("f".to_string(), vec![Node::num(1)]));
    assert_eq!(Node::ident("x".to_string()).op, NodeType::Ident("x".to_string()));
    assert_eq!(Node::comp_stmt(vec![Node::null()]).op, NodeType::CompStmt(vec![Node::null()]));
    assert_eq!(Node::vec_stmt(vec![Node::null()]).op, NodeType::VecStmt(vec![Node::null()]));
    assert_eq!(
        Node::ternary(Node::num(1), Node::num(2), Node::num(3)).op,
        NodeType::Ternary(Box::new(Node::num(1)), Box::new(Node::num(2)), Box::new(Node::num(3)))
    );
    assert_eq!(
        Node::if_else(Node::num(1), Node::null(), None).op,
        NodeType::If(Box::new(Node::num(1)), Box::new(Node::null()), None)
    );
    assert_eq!(
        Node::if_else(Node::num(1), Node::null(), Some(Node::num(2))).op,
        NodeType::If(Box::new(Node::num(1)), Box::new(Node::null()), Some(Box::new(Node::num(2))))
    );
    assert_eq!(
        Node::do_while(Node::null(), Node::num(1)).op,
        NodeType::DoWhile(Box::new(Node::null()), Box::new(Node::num(1)))
    );
    assert_eq!(
        Node::for_loop(Node::null(), Node::num(1), Node::null(), Node::num(2)).op,
        NodeType::For(
            Box::new(Node::null()),
            Box::new(Node::num(1)),
            Box::new(Node::null()),
            Box::new(Node::num(2))
        )
    );
    let s = Node::string("ab".to_string(), 3, Type::ary_of(Box::new(Type::char_ty()), 2));
    assert_eq!(s.op, NodeType::Str("ab".to_string(), 3));
    assert_eq!(s.ty.size, 2);
    let t = Node::typed(NodeType::Null, Type::int_ty());
    assert_eq!(*t.ty, Type::int_ty());
}

#[test]
fn vardef_carries_its_type_and_storage() {
    let v = Node::vardef("x".to_string(), Some(Node::num(1)), Scope::Local(0), Type::char_ty());
    assert_eq!(
        v.op,
        NodeType::Vardef("x".to_string(), Some(Box::new(Node::num(1))), Scope::Local(0))
    );
    assert_eq!(*v.ty, Type::char_ty());
}

#[test]
fn into_vardef_hands_out_name_and_type() {
    let v = Node::vardef("x".to_string(), None, Scope::Local(0), Type::char_ty());
    assert_eq!(v.into_vardef(), Some(("x".to_string(), Type::char_ty())));
    assert_eq!(Node::null().into_vardef(), None);
}

#[test]
fn as_num_reads_number_literals_only() {
    assert_eq!(Node::num(5).as_num(), Some(5));
    assert_eq!(Node::int_ty(-3).as_num(), Some(-3));
    assert_eq!(Node::ident("x".to_string()).as_num(), None);
}

#[test]
fn node_clone_is_deep() {
    let n = Node::func(
        "f".to_string(),
        vec![Node::vardef("a".to_string(), None, Scope::Local(0), Type::int_ty())],
        Node::comp_stmt(vec![Node::new_expr(
            UnaryKind::Return,
            Node::new_binop(TokenType::Plus, Node::ident("a".to_string()), Node::num(1)),
        )]),
    );
    assert_eq!(n.clone(), n);
    let list = vec![n.clone(), Node::null()];
    assert_eq!(clone_nodes(&list), list);
}

#[test]
fn scope_clone_keeps_fields() {
    let g = Scope::Global("lbl".to_string(), 8, true);
    assert_eq!(g.clone(), g);
    assert_eq!(Scope::Local(3).clone(), Scope::Local(3));
}

#[test]
fn token_kinds_compare_by_kind_and_payload() {
    assert_eq!(TokenType::Plus, TokenType::Plus);
    assert_ne!(TokenType::Plus, TokenType::Minus);
    assert_eq!(TokenType::Num(3), TokenType::Num(3));
    assert_ne!(TokenType::Num(3), TokenType::Num(4));
    assert_eq!(TokenType::Ident("a".to_string()), TokenType::Ident("a".to_string()));
    assert_ne!(TokenType::Ident("a".to_string()), TokenType::Ident("b".to_string()));
    assert_eq!(TokenType::Str("a".to_string(), 2), TokenType::Str("a".to_string(), 2));
    assert_ne!(TokenType::Str("a".to_string(), 2), TokenType::Str("a".to_string(), 3));
    assert_ne!(TokenType::Ident("a".to_string()), TokenType::Str("a".to_string(), 1));
    assert_ne!(TokenType::Int, TokenType::Ident("int".to_string()));
    assert_eq!(TokenType::Semicolon, TokenType::Semicolon);
    assert_eq!(TokenType::Extern, TokenType::Extern);
}

#[test]
fn every_plain_token_kind_equals_itself_only() {
    let kinds = vec![
        TokenType::Int, TokenType::Char, TokenType::Void, TokenType::Struct, TokenType::Typedef,
        TokenType::Extern, TokenType::If, TokenType::Else, TokenType::For, TokenType::While,
        TokenType::Do, TokenType::Return, TokenType::Sizeof, TokenType::Alignof,
        TokenType::LeftBrace, TokenType::RightBrace, TokenType::LeftParen, TokenType::RightParen,
        TokenType::LeftBracket, TokenType::RightBracket, TokenType::Dot, TokenType::Arrow,
        TokenType::Minus, TokenType::Mul, TokenType::And, TokenType::Exclamation, TokenType::Div,
        TokenType::Mod, TokenType::Plus, TokenType::SHL, TokenType::SHR,
        TokenType::LeftAngleBracket, TokenType::RightAngleBracket, TokenType::LE, TokenType::GE,
        TokenType::EQ, TokenType::NE, TokenType::Hat, TokenType::VerticalBar, TokenType::Logand,
        TokenType::Logor, TokenType::Question, TokenType::Colon, TokenType::Equal,
        TokenType::Comma, TokenType::Semicolon,
    ];
    for (i, a) in kinds.iter().enumerate() {
        for (j, b) in kinds.iter().enumerate() {
            assert_eq!(a == b, i == j);
        }
        assert_eq!(a.clone(), *a);
    }
}

#[test]
fn token_new_has_an_empty_range() {
    let t = Token::new(TokenType::Num(1));
    assert_eq!(t, Token { ty: TokenType::Num(1), start: 0, end: 0 });
    assert_eq!(t.clone(), t);
}

#[test]
fn parse_error_new_keeps_kind_and_position() {
    let e = ParseError::new(ErrorKind::VoidVariable, 3);
    assert_eq!(e, ParseError { kind: ErrorKind::VoidVariable, pos: 3 });
}

#[test]
fn env_finds_what_was_defined() {
    let mut env = Env::new(None);
    assert_eq!(env.find_typedef(&"t".to_string()), None);
    env.define_typedef("t".to_string(), Type::int_ty());
    assert_eq!(env.find_typedef(&"t".to_string()), Some(Type::int_ty()));
    assert_eq!(env.find_typedef(&"u".to_string()), None);
    let members = vec![Node::vardef("x".to_string(), None, Scope::Local(0), Type::int_ty())];
    env.define_tag("s".to_string(), clone_nodes(&members));
    assert_eq!(env.find_tag(&"s".to_string()), Some(members));
    assert_eq!(env.find_tag(&"t".to_string()), None);
}

#[test]
fn env_later_definition_replaces_earlier() {
    let mut env = Env::new(None);
    env.define_typedef("t".to_string(), Type::int_ty());
    env.define_typedef("t".to_string(), Type::char_ty());
    assert_eq!(env.find_typedef(&"t".to_string()), Some(Type::char_ty()));
}

#[test]
fn env_inner_block_sees_outer_and_shadows_it() {
    let mut env = Env::new(None);
    env.define_typedef("t".to_string(), Type::int_ty());
    env.push_frame();
    assert_eq!(env.find_typedef(&"t".to_string()), Some(Type::int_ty()));
    env.define_typedef("t".to_string(), Type::char_ty());
    env.define_typedef("u".to_string(), Type::void_ty());
    assert_eq!(env.find_typedef(&"t".to_string()), Some(Type::char_ty()));
    env.pop_frame();
    assert_eq!(env.find_typedef(&"t".to_string()), Some(Type::int_ty()));
    assert_eq!(env.find_typedef(&"u".to_string()), None);
}

#[test]
fn env_pop_at_the_outermost_scope_changes_nothing() {
    let mut env = Env::new(None);
    env.define_typedef("t".to_string(), Type::int_ty());
    env.pop_frame();
    assert_eq!(env.find_typedef(&"t".to_string()), Some(Type::int_ty()));
}

#[test]
fn env_new_with_outer_scope() {
    let mut outer = Env::new(None);
    outer.define_tag("s".to_string(), vec![]);
    let inner = Env::new(Some(Box::new(outer)));
    assert_eq!(inner.find_tag(&"s".to_string()), Some(vec![]));
    assert!(inner.tags.is_empty());
    assert!(inner.typedefs.is_empty());
}

#[test]
fn ctype_variants_differ() {
    assert_ne!(Ctype::Int, Ctype::Char);
    assert_ne!(Type::int_ty(), Type::ptr_to(Box::new(Type::int_ty())));
}
