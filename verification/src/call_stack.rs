//! Interned call stacks: the provenance of every instruction.
//!
//! A call stack is an ordered sequence of source locations, innermost last.
//! Stacks are interned: each distinct stack is a node in a tree whose edges
//! carry one location each, and a [`CallStackId`] names a node.  Id `0` is the
//! root, the empty stack; adding a child to a stack produces a new node whose
//! parent is the old one.  Nodes are never removed, so ids stay valid for the
//! lifetime of the graph.

use vstd::prelude::*;

verus! {

/// Handle of an interned call stack; `0` is the empty stack.
pub type CallStackId = usize;

/// A source location: a file handle and the byte span inside it.
#[derive(Clone, Copy, PartialEq, Eq, Structural, Debug)]
pub struct Location {
    pub file: u32,
    pub span_start: u32,
    pub span_end: u32,
}

/// A materialized call stack, outermost location first.
pub type CallStack = Vec<Location>;

/// One interned node: the stack of `parent` extended by `location`.
#[derive(Clone, Copy, PartialEq, Eq, Structural, Debug)]
pub struct CallStackNode {
    pub parent: CallStackId,
    pub location: Location,
}

/// The call-stack interner.  Node `i` of `nodes` has id `i + 1`; id `0` is
/// the root and has no node.
pub struct CallStackHelper {
    pub nodes: Vec<CallStackNode>,
}

impl CallStackHelper {
    /// Every node's parent is an id issued before the node itself, so every
    /// parent chain descends to the root.
    pub open spec fn wf(self) -> bool {
        forall|i: int| 0 <= i < self.nodes@.len() ==> (#[trigger] self.nodes@[i]).parent <= i
    }

    /// Whether `id` names the root or an existing node.
    pub open spec fn is_valid_id(self, id: CallStackId) -> bool {
        id <= self.nodes@.len()
    }

    /// The sequence of locations stack `id` holds, outermost first.
    pub open spec fn spec_call_stack(self, id: CallStackId) -> Seq<Location>
        decreases id,
    {
        if id == 0 || id > self.nodes@.len() {
            Seq::empty()
        } else {
            let node = self.nodes@[id - 1];
            if node.parent < id {
                self.spec_call_stack(node.parent).push(node.location)
            } else {
                Seq::empty()
            }
        }
    }

    /// Creates an interner holding only the empty stack.
    pub fn new() -> (r: CallStackHelper)
        ensures
            r.wf(),
            r.nodes@.len() == 0,
    {
        CallStackHelper { nodes: Vec::new() }
    }

    /// Extends stack `parent` by one location and returns the id of the
    /// extended stack.  All previously issued ids keep their stacks.
    pub fn add_child(&mut self, parent: CallStackId, location: Location) -> (id: CallStackId)
        requires
            old(self).wf(),
            old(self).is_valid_id(parent),
            old(self).nodes@.len() < usize::MAX,
        ensures
            final(self).wf(),
            id == old(self).nodes@.len() + 1,
            final(self).nodes@ == old(self).nodes@.push(
                CallStackNode { parent, location },
            ),
            final(self).spec_call_stack(id) == old(self).spec_call_stack(parent).push(location),
            forall|other: CallStackId| #[trigger] old(self).is_valid_id(other)
                ==> final(self).spec_call_stack(other) == old(self).spec_call_stack(other),
    {
        let id = self.nodes.len() + 1;
        self.nodes.push(CallStackNode { parent, location });
        proof {
            lemma_push_preserves_stacks(*old(self), *self);
            assert(self.spec_call_stack(id) == self.spec_call_stack(parent).push(location));
        }
        id
    }

    /// Materializes stack `id` as a vector of locations, outermost first.
    pub fn get_call_stack(&self, id: CallStackId) -> (r: CallStack)
        requires
            self.wf(),
            self.is_valid_id(id),
        ensures
            r@ == self.spec_call_stack(id),
        decreases id,
    {
        if id == 0 {
            Vec::new()
        } else {
            let node = self.nodes[id - 1];
            let mut r = self.get_call_stack(node.parent);
            r.push(node.location);
            r
        }
    }
}

/// Appending a node leaves the stack of every id issued before unchanged:
/// a stack only reads nodes below its own id.
proof fn lemma_push_preserves_stacks(pre: CallStackHelper, post: CallStackHelper)
    requires
        pre.wf(),
        post.nodes@.len() == pre.nodes@.len() + 1,
        forall|i: int| 0 <= i < pre.nodes@.len() ==> post.nodes@[i] == pre.nodes@[i],
        post.wf(),
    ensures
        forall|id: CallStackId| #[trigger] pre.is_valid_id(id)
            ==> post.spec_call_stack(id) == pre.spec_call_stack(id),
{
    assert forall|id: CallStackId| #[trigger] pre.is_valid_id(id)
        implies post.spec_call_stack(id) == pre.spec_call_stack(id) by {
        lemma_push_preserves_one_stack(pre, post, id);
    }
}

proof fn lemma_push_preserves_one_stack(pre: CallStackHelper, post: CallStackHelper, id: CallStackId)
    requires
        pre.wf(),
        post.nodes@.len() == pre.nodes@.len() + 1,
        forall|i: int| 0 <= i < pre.nodes@.len() ==> post.nodes@[i] == pre.nodes@[i],
        post.wf(),
        pre.is_valid_id(id),
    ensures
        post.spec_call_stack(id) == pre.spec_call_stack(id),
    decreases id,
{
    if id > 0 {
        let node = pre.nodes@[id - 1];
        lemma_push_preserves_one_stack(pre, post, node.parent);
    }
}

} // verus!
