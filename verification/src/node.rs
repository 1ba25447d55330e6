//! Nodes that share their downstream neighbour through reference counting.
use std::rc::Rc;
use vstd::prelude::*;

verus! {

/// A node with an id and an optional shared link to the next node.
#[derive(Debug)]
pub struct Node {
    id: usize,
    downstream: Option<Rc<Node>>,
}

/// Clones the reference-counted pointer; the clone points at the same node.
#[verifier::external_body]
fn rc_clone(r: &Rc<Node>) -> (c: Rc<Node>)
    ensures
        c == *r,
{
    Rc::clone(r)
}

impl Node {
    /// The node's id.
    pub closed spec fn spec_id(self) -> usize {
        self.id
    }

    /// The node's link to its downstream node.
    pub closed spec fn spec_next(self) -> Option<Rc<Node>> {
        self.downstream
    }

    /// The ids met when following the links from this node, this node first.
    pub closed spec fn chain(self) -> Seq<usize>
        decreases self,
    {
        match self.downstream {
            Some(next) => seq![self.id].add((*next).chain()),
            None => seq![self.id],
        }
    }

    /// A node with the given id and no downstream node.
    pub fn new(id: usize) -> (r: Self)
        ensures
            r.spec_id() == id,
            r.spec_next() is None,
            r.chain() == seq![id],
    {
        Node { id, downstream: None }
    }

    /// Links this node to `downstream`, replacing any earlier link.
    pub fn update_downstream(&mut self, downsteram: Rc<Node>)
        ensures
            final(self).spec_id() == old(self).spec_id(),
            final(self).spec_next() == Some(downsteram),
            final(self).chain() == seq![old(self).spec_id()] + (*downsteram).chain(),
    {
        self.downstream = Some(downsteram);
    }

    /// A shared pointer to the downstream node, if there is one.
    pub fn get_downstream(&self) -> (r: Option<Rc<Node>>)
        ensures
            r == self.spec_next(),
    {
        match &self.downstream {
            Some(next) => Some(rc_clone(next)),
            None => None,
        }
    }
}

/// Builds the chains 1 -> 3 -> 4 and 2 -> 3 -> 4, where both first nodes
/// share the node 3 (and through it node 4).
pub fn linked_pair() -> (r: (Node, Node))
    ensures
        r.0.chain() == seq![1usize, 3, 4],
        r.1.chain() == seq![2usize, 3, 4],
{
    let mut node1 = Node::new(1);
    let mut node2 = Node::new(2);
    let mut node3 = Node::new(3);
    let node4 = Node::new(4);
    node3.update_downstream(Rc::new(node4));
    node1.update_downstream(Rc::new(node3));
    let shared = node1.get_downstream();
    match shared {
        Some(three) => {
            node2.update_downstream(three);
        },
        None => {},
    }
    assert(node1.chain() =~= seq![1usize, 3, 4]);
    assert(node2.chain() =~= seq![2usize, 3, 4]);
    (node1, node2)
}

} // verus!
