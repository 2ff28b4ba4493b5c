//! The scope: typedefs and struct tags, block inside block.

use vstd::prelude::*;
use crate::ast::{Node, NodeView, Type, TypeView, clone_nodes, nodes_view};

verus! {

/// The map that a list of bindings stands for: each key bound to the value of its last
/// binding in the list.
pub open spec fn assoc<V>(keys: Seq<Seq<char>>, vals: Seq<V>) -> Map<Seq<char>, V>
    decreases keys.len(),
{
    if keys.len() == 0 {
        Map::empty()
    } else {
        assoc(keys.drop_last(), vals.drop_last()).insert(keys.last(), vals.last())
    }
}

/// The value that a map binds to a key, if any.
pub open spec fn lookup<V>(m: Map<Seq<char>, V>, name: Seq<char>) -> Option<V> {
    if m.contains_key(name) {
        Some(m[name])
    } else {
        None
    }
}

/// A binding that does not bind `name` can be left out when `name` is looked up.
proof fn lemma_assoc_skip<V>(keys: Seq<Seq<char>>, vals: Seq<V>, i: int, name: Seq<char>)
    requires
        0 <= i < keys.len(),
        keys.len() == vals.len(),
        keys[i] != name,
    ensures
        lookup(assoc(keys.take(i + 1), vals.take(i + 1)), name) == lookup(
            assoc(keys.take(i), vals.take(i)),
            name,
        ),
{
    assert(keys.take(i + 1).drop_last() =~= keys.take(i));
    assert(vals.take(i + 1).drop_last() =~= vals.take(i));
}

/// The last binding of a list decides what its key is bound to.
proof fn lemma_assoc_hit<V>(keys: Seq<Seq<char>>, vals: Seq<V>, i: int)
    requires
        0 <= i < keys.len(),
        keys.len() == vals.len(),
    ensures
        lookup(assoc(keys.take(i + 1), vals.take(i + 1)), keys[i]) == Some(vals[i]),
{
    assert(keys.take(i + 1).drop_last() =~= keys.take(i));
    assert(vals.take(i + 1).drop_last() =~= vals.take(i));
}

/// Mathematical model of a scope: the struct tags and typedefs of the innermost block,
/// and the scope around it.
pub struct EnvView {
    pub tags: Map<Seq<char>, Seq<NodeView>>,
    pub typedefs: Map<Seq<char>, TypeView>,
    pub next: Option<Box<EnvView>>,
}

impl EnvView {
    /// The scope of a new block inside `next`, or the outermost scope: nothing is
    /// defined in it yet.
    pub open spec fn new(next: Option<Box<EnvView>>) -> EnvView {
        EnvView { tags: Map::empty(), typedefs: Map::empty(), next }
    }

    /// The outermost scope with nothing defined.
    pub open spec fn root() -> EnvView {
        EnvView::new(None)
    }

    /// The type that `name` is a typedef of: the one of the nearest block that defines
    /// it.
    pub open spec fn find_typedef(self, name: Seq<char>) -> Option<TypeView>
        decreases self,
    {
        if self.typedefs.contains_key(name) {
            Some(self.typedefs[name])
        } else {
            match self.next {
                Some(outer) => outer.find_typedef(name),
                None => None,
            }
        }
    }

    /// The members of the struct with tag `name`: those of the nearest block that
    /// defines it.
    pub open spec fn find_tag(self, name: Seq<char>) -> Option<Seq<NodeView>>
        decreases self,
    {
        if self.tags.contains_key(name) {
            Some(self.tags[name])
        } else {
            match self.next {
                Some(outer) => outer.find_tag(name),
                None => None,
            }
        }
    }

    /// The scope with `name` a typedef of `ty` in the innermost block.
    pub open spec fn define_typedef(self, name: Seq<char>, ty: TypeView) -> EnvView {
        EnvView { typedefs: self.typedefs.insert(name, ty), ..self }
    }

    /// The scope with `name` the tag of a struct with the given members in the innermost
    /// block.
    pub open spec fn define_tag(self, name: Seq<char>, members: Seq<NodeView>) -> EnvView {
        EnvView { tags: self.tags.insert(name, members), ..self }
    }

    /// The scope of a new block inside this one.
    pub open spec fn push_frame(self) -> EnvView {
        EnvView::new(Some(Box::new(self)))
    }

    /// The scope around the innermost block; the outermost scope stays.
    pub open spec fn pop_frame(self) -> EnvView {
        match self.next {
            Some(outer) => *outer,
            None => self,
        }
    }
}

/// The scope of the parser: struct tags and typedefs of the innermost block, and the
/// scope around it. A later binding of a name in a block replaces an earlier one.
#[derive(Debug)]
pub struct Env {
    pub tags: Vec<(String, Vec<Node>)>,
    pub typedefs: Vec<(String, Type)>,
    pub next: Option<Box<Env>>,
}

/// The tags that a list of struct definitions binds, in order.
pub open spec fn tag_keys(bs: Seq<(String, Vec<Node>)>) -> Seq<Seq<char>> {
    Seq::new(bs.len(), |i: int| bs[i].0@)
}

/// The member lists that a list of struct definitions binds the tags to, in order.
pub open spec fn tag_vals(bs: Seq<(String, Vec<Node>)>) -> Seq<Seq<NodeView>> {
    Seq::new(bs.len(), |i: int| nodes_view(bs[i].1@))
}

/// The names that a list of typedefs binds, in order.
pub open spec fn typedef_keys(bs: Seq<(String, Type)>) -> Seq<Seq<char>> {
    Seq::new(bs.len(), |i: int| bs[i].0@)
}

/// The types that a list of typedefs binds the names to, in order.
pub open spec fn typedef_vals(bs: Seq<(String, Type)>) -> Seq<TypeView> {
    Seq::new(bs.len(), |i: int| bs[i].1@)
}

/// The model of a scope.
pub open spec fn env_view(e: Env) -> EnvView
    decreases e,
{
    EnvView {
        tags: assoc(tag_keys(e.tags@), tag_vals(e.tags@)),
        typedefs: assoc(typedef_keys(e.typedefs@), typedef_vals(e.typedefs@)),
        next: match e.next {
            Some(outer) => Some(Box::new(env_view(*outer))),
            None => None,
        },
    }
}

impl View for Env {
    type V = EnvView;

    open spec fn view(&self) -> EnvView {
        env_view(*self)
    }
}

impl Env {
    /// The scope of a new block inside `next`, or the outermost scope where `next` is
    /// `None`.
    pub fn new(next: Option<Box<Env>>) -> (e: Env)
        ensures
            e@ == EnvView::new(
                match next {
                    Some(outer) => Some(Box::new(outer@)),
                    None => None,
                },
            ),
    {
        let e = Env { next, tags: Vec::new(), typedefs: Vec::new() };
        assert(tag_keys(e.tags@) =~= Seq::empty());
        assert(typedef_keys(e.typedefs@) =~= Seq::empty());
        e
    }

    /// The typedef of `name` in the innermost block, if that block has one.
    fn local_typedef(&self, name: &String) -> (r: Option<Type>)
        ensures
            match r {
                Some(t) => lookup(self@.typedefs, name@) == Some(t@),
                None => lookup(self@.typedefs, name@) is None,
            },
    {
        let ghost keys = typedef_keys(self.typedefs@);
        let ghost vals = typedef_vals(self.typedefs@);
        let mut i: usize = self.typedefs.len();
        assert(keys.take(i as int) =~= keys && vals.take(i as int) =~= vals);
        while i > 0
            invariant
                i <= self.typedefs.len(),
                keys == typedef_keys(self.typedefs@),
                vals == typedef_vals(self.typedefs@),
                lookup(self@.typedefs, name@) == lookup(
                    assoc(keys.take(i as int), vals.take(i as int)),
                    name@,
                ),
            decreases i,
        {
            i -= 1;
            if self.typedefs[i].0 == *name {
                proof {
                    lemma_assoc_hit(keys, vals, i as int);
                }
                return Some(self.typedefs[i].1.clone());
            }
            proof {
                lemma_assoc_skip(keys, vals, i as int, name@);
            }
        }
        assert(keys.take(0) =~= Seq::empty());
        None
    }

    /// The members of the struct with tag `name` in the innermost block, if that block
    /// has one.
    fn local_tag(&self, name: &String) -> (r: Option<Vec<Node>>)
        ensures
            match r {
                Some(ms) => lookup(self@.tags, name@) == Some(nodes_view(ms@)),
                None => lookup(self@.tags, name@) is None,
            },
    {
        let ghost keys = tag_keys(self.tags@);
        let ghost vals = tag_vals(self.tags@);
        let mut i: usize = self.tags.len();
        assert(keys.take(i as int) =~= keys && vals.take(i as int) =~= vals);
        while i > 0
            invariant
                i <= self.tags.len(),
                keys == tag_keys(self.tags@),
                vals == tag_vals(self.tags@),
                lookup(self@.tags, name@) == lookup(
                    assoc(keys.take(i as int), vals.take(i as int)),
                    name@,
                ),
            decreases i,
        {
            i -= 1;
            if self.tags[i].0 == *name {
                proof {
                    lemma_assoc_hit(keys, vals, i as int);
                }
                return Some(clone_nodes(&self.tags[i].1));
            }
            proof {
                lemma_assoc_skip(keys, vals, i as int, name@);
            }
        }
        assert(keys.take(0) =~= Seq::empty());
        None
    }

    /// The type that `name` is a typedef of, searching from the innermost block
    /// outwards.
    pub fn find_typedef(&self, name: &String) -> (r: Option<Type>)
        ensures
            match r {
                Some(t) => self@.find_typedef(name@) == Some(t@),
                None => self@.find_typedef(name@) is None,
            },
        decreases self,
    {
        match self.local_typedef(name) {
            Some(t) => Some(t),
            None => match &self.next {
                Some(outer) => outer.find_typedef(name),
                None => None,
            },
        }
    }

    /// The members of the struct with tag `name`, searching from the innermost block
    /// outwards.
    pub fn find_tag(&self, name: &String) -> (r: Option<Vec<Node>>)
        ensures
            match r {
                Some(ms) => self@.find_tag(name@) == Some(nodes_view(ms@)),
                None => self@.find_tag(name@) is None,
            },
        decreases self,
    {
        match self.local_tag(name) {
            Some(ms) => Some(ms),
            None => match &self.next {
                Some(outer) => outer.find_tag(name),
                None => None,
            },
        }
    }

    /// Makes `name` a typedef of `ty` in the innermost block.
    pub fn define_typedef(&mut self, name: String, ty: Type)
        ensures
            final(self)@ == old(self)@.define_typedef(name@, ty@),
    {
        let ghost before = self.typedefs@;
        self.typedefs.push((name, ty));
        proof {
            assert(typedef_keys(self.typedefs@).drop_last() =~= typedef_keys(before));
            assert(typedef_vals(self.typedefs@).drop_last() =~= typedef_vals(before));
        }
    }

    /// Makes `name` the tag of the struct with the given members in the innermost block.
    pub fn define_tag(&mut self, name: String, members: Vec<Node>)
        ensures
            final(self)@ == old(self)@.define_tag(name@, nodes_view(members@)),
    {
        let ghost before = self.tags@;
        self.tags.push((name, members));
        proof {
            assert(tag_keys(self.tags@).drop_last() =~= tag_keys(before));
            assert(tag_vals(self.tags@).drop_last() =~= tag_vals(before));
        }
    }

    /// Enters a block: what is defined from now on is gone when the block is left.
    pub fn push_frame(&mut self)
        ensures
            final(self)@ == old(self)@.push_frame(),
    {
        let mut outer = Env::new(None);
        core::mem::swap(self, &mut outer);
        self.next = Some(Box::new(outer));
    }

    /// Leaves the innermost block; in the outermost scope nothing changes.
    pub fn pop_frame(&mut self)
        ensures
            final(self)@ == old(self)@.pop_frame(),
    {
        match self.next.take() {
            Some(outer) => {
                *self = *outer;
            },
            None => {},
        }
    }
}

} // verus!
