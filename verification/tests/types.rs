use cparse::ast::{Ctype, Node, NodeType, Scope, Type};
use cparse::types::{checked_roundup, roundup};

fn member(name: &str, ty: Type) -> Node {
    Node::vardef(name.to_string(), None, Scope::Local(0), ty)
}

fn offset_of(node: &Node) -> usize {
    match &node.op {
        NodeType::Vardef(_, _, Scope::Local(off)) => *off,
        _ => panic!("not a member"),
    }
}

#[test]
fn scalar_types_have_their_sizes() {
    assert_eq!(Type::void_ty(), Type { ty: Ctype::Void, size: 0, align: 0 });
    assert_eq!(Type::char_ty(), Type { ty: Ctype::Char, size: 1, align: 1 });
    assert_eq!(Type::int_ty(), Type { ty: Ctype::Int, size: 4, align: 4 });
}

#[test]
fn new_type_is_aligned_to_its_size() {
    let t = Type::new(Ctype::Int, 4);
    assert_eq!(t.size, 4);
    assert_eq!(t.align, 4);
}

#[test]
fn default_type_is_the_placeholder() {
    assert_eq!(Type::default(), Type { ty: Ctype::Void, size: 0, align: 0 });
}

#[test]
fn pointer_is_eight_bytes() {
    let p = Type::ptr_to(Box::new(Type::char_ty()));
    assert_eq!(p.size, 8);
    assert_eq!(p.align, 8);
    assert_eq!(p.ty, Ctype::Ptr(Box::new(Type::char_ty())));
}

#[test]
fn array_size_is_element_size_times_length() {
    let a = Type::ary_of(Box::new(Type::int_ty()), 3);
    assert_eq!(a.size, 12);
    assert_eq!(a.align, 4);
    assert_eq!(a.ty, Ctype::Ary(Box::new(Type::int_ty()), 3));
}

#[test]
fn array_of_arrays() {
    let inner = Type::ary_of(Box::new(Type::char_ty()), 5);
    let outer = Type::ary_of(Box::new(inner), 2);
    assert_eq!(outer.size, 10);
    assert_eq!(outer.align, 1);
}

#[test]
fn checked_array_rejects_a_size_that_does_not_fit() {
    assert_eq!(Type::checked_ary_of(Box::new(Type::int_ty()), usize::MAX), None);
    let fits = Type::checked_ary_of(Box::new(Type::int_ty()), 2);
    assert_eq!(fits, Some(Type::ary_of(Box::new(Type::int_ty()), 2)));
}

#[test]
fn checked_array_of_void_has_size_zero() {
    let a = Type::checked_ary_of(Box::new(Type::void_ty()), usize::MAX).unwrap();
    assert_eq!(a.size, 0);
    assert_eq!(a.align, 0);
}

#[test]
fn roundup_gives_the_next_multiple() {
    assert_eq!(roundup(0, 4), 0);
    assert_eq!(roundup(1, 4), 4);
    assert_eq!(roundup(4, 4), 4);
    assert_eq!(roundup(5, 8), 8);
    assert_eq!(roundup(16, 8), 16);
    assert_eq!(roundup(17, 8), 24);
    assert_eq!(roundup(7, 1), 7);
    assert_eq!(roundup(10, 3), 12);
}

#[test]
fn roundup_with_no_alignment_keeps_the_value() {
    assert_eq!(roundup(0, 0), 0);
    assert_eq!(roundup(13, 0), 13);
}

#[test]
fn checked_roundup_reports_overflow() {
    assert_eq!(checked_roundup(usize::MAX, 8), None);
    assert_eq!(checked_roundup(usize::MAX - 7, 8), Some(usize::MAX - 7));
    assert_eq!(checked_roundup(5, 8), Some(8));
}

#[test]
fn struct_layout_int_char_pointer() {
    let members = vec![
        member("a", Type::int_ty()),
        member("b", Type::char_ty()),
        member("c", Type::ptr_to(Box::new(Type::int_ty()))),
    ];
    let s = Type::new_struct(members);
    assert_eq!(s.size, 16);
    assert_eq!(s.align, 8);
    match &s.ty {
        Ctype::Struct(ms) => {
            assert_eq!(ms.len(), 3);
            assert_eq!(offset_of(&ms[0]), 0);
            assert_eq!(offset_of(&ms[1]), 4);
            assert_eq!(offset_of(&ms[2]), 8);
            assert_eq!(ms[0].ty.size, 4);
            assert_eq!(ms[1].ty.size, 1);
            assert_eq!(ms[2].ty.size, 8);
        },
        _ => panic!("not a struct"),
    }
}

#[test]
fn struct_layout_pads_the_end() {
    let members = vec![member("p", Type::ptr_to(Box::new(Type::char_ty()))), member("c", Type::char_ty())];
    let s = Type::new_struct(members);
    assert_eq!(s.size, 16);
    assert_eq!(s.align, 8);
}

#[test]
fn struct_layout_char_then_int() {
    let members = vec![member("c", Type::char_ty()), member("i", Type::int_ty())];
    let s = Type::new_struct(members);
    assert_eq!(s.size, 8);
    assert_eq!(s.align, 4);
    match &s.ty {
        Ctype::Struct(ms) => {
            assert_eq!(offset_of(&ms[0]), 0);
            assert_eq!(offset_of(&ms[1]), 4);
        },
        _ => panic!("not a struct"),
    }
}

#[test]
fn struct_without_members_is_empty() {
    let s = Type::new_struct(vec![]);
    assert_eq!(s.size, 0);
    assert_eq!(s.align, 0);
}

#[test]
fn struct_layout_keeps_names_and_overwrites_offsets() {
    let stale = Node::vardef("x".to_string(), None, Scope::Local(99), Type::int_ty());
    let s = Type::new_struct(vec![member("c", Type::char_ty()), stale]);
    match &s.ty {
        Ctype::Struct(ms) => {
            assert_eq!(ms[1], Node::vardef("x".to_string(), None, Scope::Local(4), Type::int_ty()));
        },
        _ => panic!("not a struct"),
    }
}

#[test]
fn checked_struct_reports_overflow() {
    let huge = Type { ty: Ctype::Char, size: usize::MAX, align: 1 };
    let members = vec![member("a", huge), member("b", Type::char_ty())];
    assert_eq!(Type::checked_struct(members), None);
}

#[test]
fn member_list_is_recognised() {
    let good = vec![member("a", Type::int_ty())];
    assert!(Type::is_member_list(&good));
    let global = Node::vardef(
        "g".to_string(),
        None,
        Scope::Global(String::new(), 4, false),
        Type::int_ty(),
    );
    assert!(!Type::is_member_list(&vec![global]));
    assert!(!Type::is_member_list(&vec![Node::null()]));
    assert!(Type::is_member_list(&vec![]));
}

#[test]
fn type_clone_is_deep() {
    let s = Type::new_struct(vec![member("a", Type::ptr_to(Box::new(Type::int_ty())))]);
    assert_eq!(s.clone(), s);
}
