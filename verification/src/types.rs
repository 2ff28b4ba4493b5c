//! Sizes, alignments and the layout of structs.

use vstd::prelude::*;
use crate::ast::{Ctype, CtypeView, Node, NodeType, NodeTypeView, NodeView, Scope, ScopeView, Type, TypeView, ctype_view, node_view, nodes_view, op_view, opt_view, type_view};

verus! {

/// `x` rounded up to the next multiple of `align`; with no alignment to respect
/// (`align` 0) it is `x` itself.
pub open spec fn round_up(x: int, align: int) -> int {
    if align <= 0 {
        x
    } else {
        ((x + align - 1) / align) * align
    }
}

/// What `round_up` is in terms of the remainder of `x`.
pub proof fn lemma_round_up_by_remainder(x: int, align: int)
    requires
        0 <= x,
        0 < align,
    ensures
        x % align == 0 ==> round_up(x, align) == x,
        x % align != 0 ==> round_up(x, align) == x - x % align + align,
{
    let q = x / align;
    let r = x % align;
    assert(x == q * align + r && 0 <= r < align) by (nonlinear_arith)
        requires
            q == x / align,
            r == x % align,
            0 < align,
    ;
    if r == 0 {
        assert((q * align + align - 1) / align == q) by (nonlinear_arith)
            requires
                0 < align,
        ;
    } else {
        assert((q * align + r + align - 1) / align == q + 1) by (nonlinear_arith)
            requires
                0 < align,
                0 < r < align,
        ;
        assert((q + 1) * align == q * align + align) by (nonlinear_arith);
    }
}

/// `round_up(x, align)` is the least multiple of `align` that is not below `x`.
pub proof fn lemma_round_up_is_least_multiple(x: int, align: int)
    requires
        0 <= x,
        0 < align,
    ensures
        x <= round_up(x, align) < x + align,
        round_up(x, align) % align == 0,
{
    lemma_round_up_by_remainder(x, align);
    let r = x % align;
    assert(0 <= r < align) by (nonlinear_arith)
        requires
            r == x % align,
            0 < align,
    ;
    assert(round_up(x, align) % align == 0) by (nonlinear_arith)
        requires
            0 < align,
            round_up(x, align) == ((x + align - 1) / align) * align,
    ;
}

/// Rounding up never goes below the value.
pub proof fn lemma_round_up_not_below(x: int, align: int)
    requires
        0 <= x,
        0 <= align,
    ensures
        x <= round_up(x, align),
{
    if align > 0 {
        lemma_round_up_is_least_multiple(x, align);
    }
}

/// `x` rounded up to the next multiple of `align`, or `None` where that does not fit.
pub fn checked_roundup(x: usize, align: usize) -> (r: Option<usize>)
    ensures
        r is Some <==> round_up(x as int, align as int) <= usize::MAX,
        r matches Some(v) ==> v == round_up(x as int, align as int),
{
    if align == 0 {
        return Some(x);
    }
    proof {
        lemma_round_up_by_remainder(x as int, align as int);
    }
    let rem: usize = x % align;
    if rem == 0 {
        Some(x)
    } else {
        assert(rem <= x) by (nonlinear_arith)
            requires
                rem == x as int % align as int,
                0 < align,
                0 <= x,
        ;
        (x - rem).checked_add(align)
    }
}

/// `x` rounded up to the next multiple of `align`.
pub fn roundup(x: usize, align: usize) -> (r: usize)
    requires
        round_up(x as int, align as int) <= usize::MAX,
    ensures
        r == round_up(x as int, align as int),
{
    match checked_roundup(x, align) {
        Some(r) => r,
        None => x,
    }
}

/// Whether a node has the shape of a struct member: the definition of a local variable.
pub open spec fn is_member(n: NodeView) -> bool {
    n.op matches NodeTypeView::Vardef(_, _, ScopeView::Local(_))
}

/// Whether every node of a list has the shape of a struct member.
pub open spec fn are_members(ms: Seq<NodeView>) -> bool {
    forall|i: int| 0 <= i < ms.len() ==> is_member(#[trigger] ms[i])
}

/// A member with its byte offset set to `off`.
pub open spec fn with_offset(n: NodeView, off: usize) -> NodeView {
    match n.op {
        NodeTypeView::Vardef(name, init, ScopeView::Local(_)) => NodeView {
            op: NodeTypeView::Vardef(name, init, ScopeView::Local(off)),
            ty: n.ty,
        },
        _ => n,
    }
}

/// The byte offset just behind the first `k` members of a struct laid out in order.
pub open spec fn members_end(ms: Seq<NodeView>, k: nat) -> int
    decreases k, 0nat,
{
    if k == 0 {
        0
    } else {
        member_offset(ms, (k - 1) as nat) + ms[k - 1].ty.size
    }
}

/// The byte offset of member `i`: the end of the members before it, rounded up to its
/// own alignment.
pub open spec fn member_offset(ms: Seq<NodeView>, i: nat) -> int
    decreases i, 1nat,
{
    round_up(members_end(ms, i), ms[i as int].ty.align as int)
}

/// The largest alignment among the first `k` members; 0 where there is none.
pub open spec fn members_align(ms: Seq<NodeView>, k: nat) -> int
    decreases k,
{
    if k == 0 {
        0
    } else {
        let rest = members_align(ms, (k - 1) as nat);
        if rest < ms[k - 1].ty.align {
            ms[k - 1].ty.align as int
        } else {
            rest
        }
    }
}

/// The size of the struct with these members: the end of the last member, rounded up to
/// the struct's alignment.
pub open spec fn struct_size(ms: Seq<NodeView>) -> int {
    round_up(members_end(ms, ms.len()), members_align(ms, ms.len()))
}

/// The members with their byte offsets assigned.
pub open spec fn placed(ms: Seq<NodeView>) -> Seq<NodeView> {
    Seq::new(ms.len(), |i: int| with_offset(ms[i], member_offset(ms, i as nat) as usize))
}

/// The layout of the members grows with each member, and a member starts no earlier
/// than the one before it ends.
pub proof fn lemma_layout_monotone(ms: Seq<NodeView>, i: nat, k: nat)
    requires
        i <= k,
    ensures
        0 <= members_end(ms, i) <= members_end(ms, k),
        0 <= members_align(ms, i) <= members_align(ms, k),
        members_end(ms, k) <= member_offset(ms, k),
    decreases k,
{
    if k > 0 {
        let j = (k - 1) as nat;
        if i < k {
            lemma_layout_monotone(ms, i, j);
        } else {
            lemma_layout_monotone(ms, j, j);
        }
        lemma_round_up_not_below(members_end(ms, j), ms[j as int].ty.align as int);
    }
    lemma_round_up_not_below(members_end(ms, k), ms[k as int].ty.align as int);
}

/// The largest alignment is no smaller than that of any member.
pub proof fn lemma_align_is_largest(ms: Seq<NodeView>, i: nat, k: nat)
    requires
        i < k,
    ensures
        ms[i as int].ty.align <= members_align(ms, k),
    decreases k,
{
    if i + 1 < k {
        lemma_align_is_largest(ms, i, (k - 1) as nat);
    }
}

/// The layout of a struct: each member starts at a multiple of its alignment and
/// behind the member before it, and the struct, aligned as its most aligned member,
/// ends behind its last member at a multiple of its alignment.
pub proof fn law_struct_layout(ms: Seq<NodeView>, i: nat)
    requires
        i < ms.len(),
    ensures
        0 <= member_offset(ms, i),
        ms[i as int].ty.align > 0 ==> member_offset(ms, i) % (ms[i as int].ty.align as int) == 0,
        i > 0 ==> member_offset(ms, (i - 1) as nat) + ms[i - 1].ty.size <= member_offset(ms, i),
        member_offset(ms, i) + ms[i as int].ty.size <= struct_size(ms),
        ms[i as int].ty.align <= members_align(ms, ms.len()),
        members_align(ms, ms.len()) > 0 ==> struct_size(ms) % members_align(ms, ms.len()) == 0,
{
    let len = ms.len();
    lemma_layout_monotone(ms, i, i);
    lemma_layout_monotone(ms, (i + 1) as nat, len);
    lemma_layout_monotone(ms, len, len);
    lemma_align_is_largest(ms, i, len);
    lemma_round_up_not_below(members_end(ms, len), members_align(ms, len));
    if ms[i as int].ty.align > 0 {
        lemma_round_up_is_least_multiple(members_end(ms, i), ms[i as int].ty.align as int);
    }
    if members_align(ms, len) > 0 {
        lemma_round_up_is_least_multiple(members_end(ms, len), members_align(ms, len));
    }
    assert(members_end(ms, (i + 1) as nat) == member_offset(ms, i) + ms[i as int].ty.size);
    if i > 0 {
        assert(members_end(ms, i) == member_offset(ms, (i - 1) as nat) + ms[i - 1].ty.size);
    }
}

impl TypeView {
    /// The type of the given kind whose alignment is its size.
    pub open spec fn new(ty: CtypeView, size: usize) -> TypeView {
        TypeView { ty, size, align: size }
    }

    /// `void`.
    pub open spec fn void_ty() -> TypeView {
        TypeView::new(CtypeView::Void, 0)
    }

    /// `char`.
    pub open spec fn char_ty() -> TypeView {
        TypeView::new(CtypeView::Char, 1)
    }

    /// `int`.
    pub open spec fn int_ty() -> TypeView {
        TypeView::new(CtypeView::Int, 4)
    }

    /// Pointer to `base`.
    pub open spec fn ptr_to(base: TypeView) -> TypeView {
        TypeView::new(CtypeView::Ptr(Box::new(base)), 8)
    }

    /// Array of `len` elements of type `base`.
    pub open spec fn ary_of(base: TypeView, len: usize) -> TypeView {
        TypeView {
            ty: CtypeView::Ary(Box::new(base), len),
            size: (base.size * len) as usize,
            align: base.align,
        }
    }

    /// Struct with the given members, laid out in order.
    pub open spec fn new_struct(ms: Seq<NodeView>) -> TypeView {
        TypeView {
            ty: CtypeView::Struct(placed(ms)),
            size: struct_size(ms) as usize,
            align: members_align(ms, ms.len()) as usize,
        }
    }

    /// Whether size and alignment are those that the kind of the type calls for, here
    /// and in every type below it.
    pub open spec fn wf(self) -> bool
        decreases self,
    {
        match self.ty {
            CtypeView::Void => self.size == 0 && self.align == 0,
            CtypeView::Char => self.size == 1 && self.align == 1,
            CtypeView::Int => self.size == 4 && self.align == 4,
            CtypeView::Ptr(t) => self.size == 8 && self.align == 8 && t.wf(),
            CtypeView::Ary(t, n) => self.size == t.size * n && self.align == t.align && t.wf(),
            CtypeView::Struct(ms) => {
                &&& forall|i: int|
                    0 <= i < ms.len() ==> {
                        &&& (#[trigger] ms[i]).op matches NodeTypeView::Vardef(
                            _,
                            _,
                            ScopeView::Local(off),
                        )
                        &&& off == member_offset(ms, i as nat)
                        &&& ms[i].ty.wf()
                    }
                &&& self.align == members_align(ms, ms.len())
                &&& self.size == struct_size(ms)
            },
        }
    }
}

/// Assigning offsets changes neither the layout nor the shape of the members.
pub proof fn lemma_placed_layout(ms: Seq<NodeView>, k: nat)
    requires
        k <= ms.len(),
    ensures
        members_end(placed(ms), k) == members_end(ms, k),
        members_align(placed(ms), k) == members_align(ms, k),
        k < ms.len() ==> member_offset(placed(ms), k) == member_offset(ms, k),
    decreases k,
{
    if k > 0 {
        lemma_placed_layout(ms, (k - 1) as nat);
    }
}

/// Whether the type of every node of a list is well-formed.
pub open spec fn members_wf(ms: Seq<NodeView>) -> bool {
    forall|i: int| 0 <= i < ms.len() ==> (#[trigger] ms[i]).ty.wf()
}

/// A struct of members with well-formed types, laid out within `usize`, is well-formed.
pub proof fn lemma_new_struct_wf(ms: Seq<NodeView>)
    requires
        are_members(ms),
        members_wf(ms),
        struct_size(ms) <= usize::MAX,
    ensures
        TypeView::new_struct(ms).wf(),
{
    let ps = placed(ms);
    let len = ms.len();
    lemma_layout_monotone(ms, len, len);
    lemma_round_up_not_below(members_end(ms, len), members_align(ms, len));
    lemma_placed_layout(ms, len);
    assert forall|i: int| 0 <= i < ps.len() implies {
        &&& (#[trigger] ps[i]).op matches NodeTypeView::Vardef(_, _, ScopeView::Local(o))
        &&& o == member_offset(ps, i as nat)
        &&& ps[i].ty.wf()
    } by {
        lemma_placed_layout(ms, i as nat);
        lemma_layout_monotone(ms, (i + 1) as nat, len);
        lemma_layout_monotone(ms, i as nat, i as nat);
        assert(is_member(ms[i]));
        assert(ms[i].ty.wf());
    }
    lemma_align_fits(ms, len);
}

/// The largest alignment of members is the alignment of one of them, or 0.
pub proof fn lemma_align_fits(ms: Seq<NodeView>, k: nat)
    ensures
        0 <= members_align(ms, k) <= usize::MAX,
    decreases k,
{
    if k > 0 {
        lemma_align_fits(ms, (k - 1) as nat);
    }
}

impl Type {
    /// The type of the given kind and size, aligned to its size.
    pub fn new(ty: Ctype, size: usize) -> (t: Type)
        ensures
            t@ == TypeView::new(ty@, size),
            t.size == size,
            t.align == size,
    {
        proof {
            reveal_with_fuel(node_view, 1);
            reveal_with_fuel(nodes_view, 1);
            reveal_with_fuel(opt_view, 1);
            reveal_with_fuel(op_view, 1);
            reveal_with_fuel(type_view, 1);
            reveal_with_fuel(ctype_view, 1);
        }
        Type { ty, size, align: size }
    }

    /// `void`: size 0, alignment 0.
    pub fn void_ty() -> (t: Type)
        ensures
            t@ == TypeView::void_ty(),
            t@.wf(),
            t.size == 0,
    {
        proof {
            reveal_with_fuel(node_view, 1);
            reveal_with_fuel(nodes_view, 1);
            reveal_with_fuel(opt_view, 1);
            reveal_with_fuel(op_view, 1);
            reveal_with_fuel(type_view, 1);
            reveal_with_fuel(ctype_view, 1);
        }
        Type::new(Ctype::Void, 0)
    }

    /// `char`: size 1, alignment 1.
    pub fn char_ty() -> (t: Type)
        ensures
            t@ == TypeView::char_ty(),
            t@.wf(),
            t.size == 1,
    {
        proof {
            reveal_with_fuel(node_view, 1);
            reveal_with_fuel(nodes_view, 1);
            reveal_with_fuel(opt_view, 1);
            reveal_with_fuel(op_view, 1);
            reveal_with_fuel(type_view, 1);
            reveal_with_fuel(ctype_view, 1);
        }
        Type::new(Ctype::Char, 1)
    }

    /// `int`: size 4, alignment 4.
    pub fn int_ty() -> (t: Type)
        ensures
            t@ == TypeView::int_ty(),
            t@.wf(),
            t.size == 4,
    {
        proof {
            reveal_with_fuel(node_view, 1);
            reveal_with_fuel(nodes_view, 1);
            reveal_with_fuel(opt_view, 1);
            reveal_with_fuel(op_view, 1);
            reveal_with_fuel(type_view, 1);
            reveal_with_fuel(ctype_view, 1);
        }
        Type::new(Ctype::Int, 4)
    }

    /// Pointer to `base`: size 8, alignment 8.
    pub fn ptr_to(base: Box<Type>) -> (t: Type)
        ensures
            t@ == TypeView::ptr_to(base@),
            base@.wf() ==> t@.wf(),
    {
        proof {
            reveal_with_fuel(node_view, 1);
            reveal_with_fuel(nodes_view, 1);
            reveal_with_fuel(opt_view, 1);
            reveal_with_fuel(op_view, 1);
            reveal_with_fuel(type_view, 1);
            reveal_with_fuel(ctype_view, 1);
        }
        Type::new(Ctype::Ptr(base), 8)
    }

    /// Array of `len` elements of type `base`: `len` times the size of `base`, aligned
    /// as `base`.
    pub fn ary_of(base: Box<Type>, len: usize) -> (t: Type)
        requires
            base.size * len <= usize::MAX,
        ensures
            t@ == TypeView::ary_of(base@, len),
            base@.wf() ==> t@.wf(),
    {
        proof {
            reveal_with_fuel(node_view, 1);
            reveal_with_fuel(nodes_view, 1);
            reveal_with_fuel(opt_view, 1);
            reveal_with_fuel(op_view, 1);
            reveal_with_fuel(type_view, 1);
            reveal_with_fuel(ctype_view, 1);
        }
        let align = base.align;
        let size = base.size * len;
        let mut ty = Type::new(Ctype::Ary(base, len), size);
        ty.align = align;
        ty
    }

    /// Array of `len` elements of type `base`, or `None` where its size does not fit in
    /// `usize`.
    pub fn checked_ary_of(base: Box<Type>, len: usize) -> (r: Option<Type>)
        ensures
            r is Some <==> base.size * len <= usize::MAX,
            r is Some <==> base@.size * len <= usize::MAX,
            r matches Some(t) ==> t@ == TypeView::ary_of(base@, len) && (base@.wf() ==> t@.wf()),
    {
        proof {
            reveal_with_fuel(node_view, 1);
            reveal_with_fuel(nodes_view, 1);
            reveal_with_fuel(opt_view, 1);
            reveal_with_fuel(op_view, 1);
            reveal_with_fuel(type_view, 1);
            reveal_with_fuel(ctype_view, 1);
        }
        match base.size.checked_mul(len) {
            Some(_) => Some(Type::ary_of(base, len)),
            None => None,
        }
    }

    /// Whether the type is `void`.
    pub fn is_void(&self) -> (r: bool)
        ensures
            r == (self@.ty is Void),
    {
        proof {
            reveal_with_fuel(node_view, 1);
            reveal_with_fuel(nodes_view, 1);
            reveal_with_fuel(opt_view, 1);
            reveal_with_fuel(op_view, 1);
            reveal_with_fuel(type_view, 1);
            reveal_with_fuel(ctype_view, 1);
        }
        match self.ty {
            Ctype::Void => true,
            _ => false,
        }
    }

    /// The size of the type in bytes.
    pub fn size_of(&self) -> (r: usize)
        ensures
            r == self@.size,
    {
        proof {
            reveal_with_fuel(node_view, 1);
            reveal_with_fuel(nodes_view, 1);
            reveal_with_fuel(opt_view, 1);
            reveal_with_fuel(op_view, 1);
            reveal_with_fuel(type_view, 1);
            reveal_with_fuel(ctype_view, 1);
        }
        self.size
    }

    /// Whether every node of the list has the shape of a struct member.
    pub fn is_member_list(members: &Vec<Node>) -> (r: bool)
        ensures
            r == are_members(nodes_view(members@)),
    {
        let mut i: usize = 0;
        while i < members.len()
            invariant
                i <= members.len(),
                forall|j: int| 0 <= j < i ==> is_member(#[trigger] nodes_view(members@)[j]),
            decreases members.len() - i,
        {
            proof {
                reveal_with_fuel(node_view, 1);
                reveal_with_fuel(nodes_view, 1);
                reveal_with_fuel(opt_view, 1);
                reveal_with_fuel(op_view, 1);
                reveal_with_fuel(type_view, 1);
                reveal_with_fuel(ctype_view, 1);
            }
            match &members[i].op {
                NodeType::Vardef(_, _, Scope::Local(_)) => {},
                _ => {
                    assert(!is_member(nodes_view(members@)[i as int]));
                    return false;
                },
            }
            i += 1;
        }
        proof {
            reveal_with_fuel(nodes_view, 1);
        }
        true
    }

    /// Struct with the given members: each gets its byte offset, the struct is aligned
    /// as its most aligned member, and its size is the end of the last member rounded up
    /// to that alignment.
    pub fn new_struct(members: Vec<Node>) -> (t: Type)
        requires
            are_members(nodes_view(members@)),
            struct_size(nodes_view(members@)) <= usize::MAX,
        ensures
            t@ == TypeView::new_struct(nodes_view(members@)),
            (forall|i: int| 0 <= i < members@.len() ==> (#[trigger] members@[i])@.ty.wf())
                ==> t@.wf(),
    {
        proof {
            reveal_with_fuel(node_view, 1);
            reveal_with_fuel(nodes_view, 1);
            reveal_with_fuel(opt_view, 1);
            reveal_with_fuel(op_view, 1);
            reveal_with_fuel(type_view, 1);
            reveal_with_fuel(ctype_view, 1);
        }
        match Type::checked_struct(members) {
            Some(t) => t,
            None => vstd::pervasive::unreached(),
        }
    }

    /// Struct with the given members, or `None` where its size does not fit in `usize`.
    pub fn checked_struct(members: Vec<Node>) -> (r: Option<Type>)
        requires
            are_members(nodes_view(members@)),
        ensures
            r is Some <==> struct_size(nodes_view(members@)) <= usize::MAX,
            r matches Some(t) ==> {
                &&& t@ == TypeView::new_struct(nodes_view(members@))
                &&& (forall|i: int| 0 <= i < members@.len() ==> (#[trigger] members@[i])@.ty.wf())
                    ==> t@.wf()
            },
    {
        proof {
            reveal_with_fuel(node_view, 1);
            reveal_with_fuel(nodes_view, 1);
            reveal_with_fuel(opt_view, 1);
            reveal_with_fuel(op_view, 1);
            reveal_with_fuel(type_view, 1);
            reveal_with_fuel(ctype_view, 1);
        }
        let ghost ms = nodes_view(members@);
        let mut members = members;
        proof {
            lemma_layout_monotone(ms, ms.len(), ms.len());
            lemma_round_up_not_below(members_end(ms, ms.len()), members_align(ms, ms.len()));
        }
        match Type::set_offset(&mut members) {
            Some((off, align)) => {
                match checked_roundup(off, align) {
                    Some(size) => {
                        let mut ty = Type::new(Ctype::Struct(members), align);
                        ty.size = size;
                        proof {
                            let ps = placed(ms);
                            assert forall|i: int| 0 <= i < ps.len() implies {
                                &&& (#[trigger] ps[i]).op matches NodeTypeView::Vardef(
                                    _,
                                    _,
                                    ScopeView::Local(o),
                                )
                                &&& o == member_offset(ps, i as nat)
                            } by {
                                lemma_placed_layout(ms, i as nat);
                                lemma_layout_monotone(ms, (i + 1) as nat, ms.len());
                                lemma_layout_monotone(ms, i as nat, i as nat);
                                assert(is_member(ms[i]));
                            }
                            lemma_placed_layout(ms, ms.len());
                        }
                        Some(ty)
                    },
                    None => None,
                }
            },
            None => None,
        }
    }

    /// Assigns each member its byte offset, in order. Returns the end of the last member
    /// and the largest alignment, or `None` where an offset does not fit in `usize`.
    fn set_offset(members: &mut Vec<Node>) -> (r: Option<(usize, usize)>)
        requires
            are_members(nodes_view(old(members)@)),
        ensures
            r is Some <==> members_end(nodes_view(old(members)@), old(members)@.len()) <= usize::MAX,
            r matches Some((off, align)) ==> {
                &&& off == members_end(nodes_view(old(members)@), old(members)@.len())
                &&& align == members_align(nodes_view(old(members)@), old(members)@.len())
                &&& nodes_view(final(members)@) == placed(nodes_view(old(members)@))
            },
    {
        proof {
            reveal_with_fuel(node_view, 1);
            reveal_with_fuel(nodes_view, 1);
            reveal_with_fuel(opt_view, 1);
            reveal_with_fuel(op_view, 1);
            reveal_with_fuel(type_view, 1);
            reveal_with_fuel(ctype_view, 1);
        }
        let ghost ms = nodes_view(members@);
        let n = members.len();
        let mut off: usize = 0;
        let mut align: usize = 0;
        let mut i: usize = 0;
        while i < n
            invariant
                i <= n,
                n == ms.len(),
                ms == nodes_view(old(members)@),
                n == old(members)@.len(),
                members@.len() == n,
                are_members(ms),
                off == members_end(ms, i as nat),
                align == members_align(ms, i as nat),
                forall|j: int| 0 <= j < i ==> (#[trigger] members@[j])@ == placed(ms)[j],
                forall|j: int| i <= j < n ==> (#[trigger] members@[j])@ == ms[j],
            decreases n - i,
        {
            proof {
                reveal_with_fuel(node_view, 1);
                reveal_with_fuel(nodes_view, 1);
                reveal_with_fuel(opt_view, 1);
                reveal_with_fuel(op_view, 1);
                reveal_with_fuel(type_view, 1);
                reveal_with_fuel(ctype_view, 1);
                lemma_layout_monotone(ms, i as nat, i as nat);
                lemma_layout_monotone(ms, (i + 1) as nat, n as nat);
                assert(is_member(ms[i as int]));
                assert(members_end(ms, (i + 1) as nat) == member_offset(ms, i as nat)
                    + ms[i as int].ty.size);
                assert(member_offset(ms, i as nat) == round_up(
                    off as int,
                    ms[i as int].ty.align as int,
                ));
            }
            let node = &mut members[i];
            let size = node.ty.size;
            let a = node.ty.align;
            let start = match checked_roundup(off, a) {
                Some(v) => v,
                None => {
                    return None;
                },
            };
            match &mut node.op {
                NodeType::Vardef(_, _, Scope::Local(offset)) => {
                    *offset = start;
                },
                _ => {},
            }
            off = match start.checked_add(size) {
                Some(v) => v,
                None => {
                    return None;
                },
            };
            if align < a {
                align = a;
            }
            i += 1;
        }
        assert(nodes_view(members@) =~= placed(ms));
        Some((off, align))
    }
}

} // verus!
