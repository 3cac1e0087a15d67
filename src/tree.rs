//! The syntax tree that the walker reads: an arena of nodes in which every
//! node refers to its children by index, and every child stands before its
//! parent.

use vstd::prelude::*;

verus! {

/// One node of the tree. Children are indices into the owning [`Tree`].
pub enum Node {
    /// `module Name; body; end`
    Module { name: usize, body: Option<usize> },
    /// `class Name < Superclass; body; end`
    Class { name: usize, superclass: Option<usize>, body: Option<usize> },
    /// `def name; ...; end`
    Def { name: String },
    /// `def self.name; ...; end`
    Defs { name: String },
    /// `NAME = value`
    Casgn { name: String },
    /// A method call, `recv.method_name(args)`.
    Send { recv: Option<usize>, method_name: String, args: Vec<usize> },
    /// A sequence of statements.
    Begin { statements: Vec<usize> },
    /// A call with a block attached, `call { body }`.
    Block { call: usize, body: Option<usize> },
    /// A constant reference, `scope::name`.
    Const { scope: Option<usize>, name: String },
    /// A symbol literal, `:name`, holding the symbol's bytes.
    Sym { name: Vec<u8> },
    /// Keyword arguments, `k1: v1, k2: v2`.
    Kwargs { pairs: Vec<usize> },
    /// One `key: value` pair.
    Pair { key: usize, value: usize },
    /// Any node kind that the walker does not read.
    Other,
}

/// Every child index of `n` is below `i`.
pub open spec fn children_below(n: Node, i: int) -> bool {
    match n {
        Node::Module { name, body } => name < i && (body matches Some(b) ==> b < i),
        Node::Class { name, superclass, body } => name < i && (superclass matches Some(c) ==> c
            < i) && (body matches Some(b) ==> b < i),
        Node::Send { recv, args, .. } => (recv matches Some(r) ==> r < i) && (forall|k: int|
            0 <= k < args@.len() ==> args@[k] < i),
        Node::Begin { statements } => forall|k: int|
            0 <= k < statements@.len() ==> statements@[k] < i,
        Node::Block { call, body } => call < i && (body matches Some(b) ==> b < i),
        Node::Const { scope, .. } => scope matches Some(s) ==> s < i,
        Node::Kwargs { pairs } => forall|k: int| 0 <= k < pairs@.len() ==> pairs@[k] < i,
        Node::Pair { key, value } => key < i && value < i,
        _ => true,
    }
}

/// A tree is well formed when each node's children stand before it.
pub open spec fn well_formed(t: Seq<Node>) -> bool {
    forall|i: int| 0 <= i < t.len() ==> children_below(#[trigger] t[i], i)
}

/// An arena of nodes, built bottom-up.
pub struct Tree {
    nodes: Vec<Node>,
}

impl View for Tree {
    type V = Seq<Node>;

    closed spec fn view(&self) -> Seq<Node> {
        self.nodes@
    }
}

impl Tree {
    #[verifier::type_invariant]
    spec fn inv(&self) -> bool {
        well_formed(self.nodes@)
    }

    /// An empty tree.
    pub fn new() -> (r: Tree)
        ensures
            r@ == Seq::<Node>::empty(),
    {
        Tree { nodes: Vec::new() }
    }

    /// The number of nodes.
    pub fn len(&self) -> (r: usize)
        ensures
            r == self@.len(),
    {
        self.nodes.len()
    }

    /// The nodes, each of whose children stands before it.
    pub fn nodes(&self) -> (r: &Vec<Node>)
        ensures
            r@ == self@,
            well_formed(r@),
    {
        proof {
            use_type_invariant(self);
        }
        &self.nodes
    }

    /// Adds `node` and returns its index, or `None` (leaving the tree as it
    /// was) when one of its children is not already in the tree.
    pub fn add(&mut self, node: Node) -> (r: Option<usize>)
        ensures
            children_below(node, old(self)@.len() as int) ==> (r == Some(old(self)@.len() as usize)
                && final(self)@ == old(self)@.push(node)),
            !children_below(node, old(self)@.len() as int) ==> (r is None && final(self)@ == old(
                self,
            )@),
    {
        let n = self.nodes.len();
        if Self::fits(&node, n) {
            proof {
                use_type_invariant(&*self);
            }
            let mut nodes = Vec::new();
            std::mem::swap(&mut nodes, &mut self.nodes);
            let ghost prev = nodes@;
            nodes.push(node);
            proof {
                assert forall|i: int| 0 <= i < nodes@.len() implies children_below(
                    #[trigger] nodes@[i],
                    i,
                ) by {
                    if i < n {
                        assert(nodes@[i] == prev[i]);
                    }
                }
            }
            std::mem::swap(&mut nodes, &mut self.nodes);
            Some(n)
        } else {
            None
        }
    }

    fn all_below(v: &Vec<usize>, n: usize) -> (r: bool)
        ensures
            r == (forall|k: int| 0 <= k < v@.len() ==> v@[k] < n),
    {
        let mut j: usize = 0;
        while j < v.len()
            invariant
                j <= v@.len(),
                forall|k: int| 0 <= k < j ==> v@[k] < n,
            decreases v@.len() - j,
        {
            if v[j] >= n {
                return false;
            }
            j = j + 1;
        }
        true
    }

    fn opt_below(o: &Option<usize>, n: usize) -> (r: bool)
        ensures
            r == (o matches Some(c) ==> c < n),
    {
        match o {
            Some(c) => *c < n,
            None => true,
        }
    }

    fn fits(node: &Node, n: usize) -> (r: bool)
        ensures
            r == children_below(*node, n as int),
    {
        match node {
            Node::Module { name, body } => *name < n && Self::opt_below(body, n),
            Node::Class { name, superclass, body } => *name < n && Self::opt_below(superclass, n)
                && Self::opt_below(body, n),
            Node::Send { recv, args, .. } => Self::opt_below(recv, n) && Self::all_below(args, n),
            Node::Begin { statements } => Self::all_below(statements, n),
            Node::Block { call, body } => *call < n && Self::opt_below(body, n),
            Node::Const { scope, .. } => Self::opt_below(scope, n),
            Node::Kwargs { pairs } => Self::all_below(pairs, n),
            Node::Pair { key, value } => *key < n && *value < n,
            _ => true,
        }
    }
}

} // verus!
