//! The walker: a lazy, depth-first enumeration of the definitions in a
//! tree, which carries each `sig` block to the definition that follows it.

use vstd::prelude::*;
use crate::tree::{Node, Tree, well_formed, children_below};
use crate::types::{
    AttrType,
    PropType,
    Sig,
    SigModel,
    Type,
    NamedItem,
    ItemView,
    sig_of,
    qualified_name,
    opt_sig_view,
    is_named,
    const_name,
    copy_bytes,
};

verus! {

/// The state of a walk: definitions not yet handed out (the last is handed
/// out next), and the signature waiting for the next method-like
/// definition.
pub struct WalkState {
    pub stack: Seq<ItemView>,
    pub pending: Option<SigModel>,
}

/// The call `method(args)` declares an accessor, and so takes the waiting
/// signature.
pub open spec fn takes_sig(method: Seq<char>) -> bool {
    method == "attr_reader"@ || method == "attr_writer"@ || method == "attr_accessor"@
}

/// The definition that the call `method(args)` introduces, if it is one of
/// the recognised defining calls with a symbol as first argument.
pub open spec fn defining_item(
    t: Seq<Node>,
    method: Seq<char>,
    args: Seq<usize>,
    pending: Option<SigModel>,
) -> Option<ItemView> {
    if args.len() >= 1 && args[0] < t.len() {
        match t[args[0] as int] {
            Node::Sym { name } => if method == "attr_reader"@ {
                Some(ItemView::Attr(AttrType::Reader, name@, pending))
            } else if method == "attr_writer"@ {
                Some(ItemView::Attr(AttrType::Writer, name@, pending))
            } else if method == "attr_accessor"@ {
                Some(ItemView::Attr(AttrType::Accessor, name@, pending))
            } else if method == "prop"@ {
                if args.len() >= 2 {
                    Some(ItemView::Prop(PropType::Prop, name@, Type { node: args[1] }))
                } else {
                    None
                }
            } else if method == "const"@ {
                if args.len() >= 2 {
                    Some(ItemView::Prop(PropType::Const, name@, Type { node: args[1] }))
                } else {
                    None
                }
            } else {
                None
            },
            _ => None,
        }
    } else {
        None
    }
}

/// The node is a call named `sig`.
pub open spec fn is_sig_call(n: Node) -> bool {
    match n {
        Node::Send { method_name, .. } => method_name@ == "sig"@,
        _ => false,
    }
}

/// `s` with `d` added on top of the stack.
pub open spec fn pushed(s: WalkState, d: ItemView, pending: Option<SigModel>) -> WalkState {
    WalkState { stack: s.stack.push(d), pending }
}

/// The walk state after reading node `i`. Classes and modules clear the
/// waiting signature and are stacked with their bodies left for later;
/// methods and accessors take the waiting signature; statement sequences
/// are read in order at once; a `sig` block replaces the waiting
/// signature; other nodes change nothing.
pub open spec fn advance(t: Seq<Node>, i: usize, s: WalkState) -> WalkState
    decreases i, 1nat, 0nat,
{
    if i < t.len() {
        match t[i as int] {
            Node::Module { name, .. } => pushed(
                s,
                ItemView::Module(qualified_name(t, name), i),
                None,
            ),
            Node::Class { name, .. } => pushed(s, ItemView::Class(qualified_name(t, name), i), None),
            Node::Def { name } => pushed(s, ItemView::Def(name@, s.pending), None),
            Node::Defs { name } => pushed(s, ItemView::Defs(name@, s.pending), None),
            Node::Casgn { name } => pushed(s, ItemView::Casgn(name@, None), s.pending),
            Node::Send { method_name, args, .. } => match defining_item(
                t,
                method_name@,
                args@,
                s.pending,
            ) {
                Some(d) => pushed(
                    s,
                    d,
                    if takes_sig(method_name@) {
                        None
                    } else {
                        s.pending
                    },
                ),
                None => s,
            },
            Node::Begin { statements } => advance_all(t, i, statements@, s),
            Node::Block { call, body } => match body {
                Some(b) => if call < t.len() && is_sig_call(t[call as int]) {
                    WalkState { stack: s.stack, pending: Some(sig_of(t, b)) }
                } else {
                    s
                },
                None => s,
            },
            _ => s,
        }
    } else {
        s
    }
}

/// The walk state after reading the statements `stmts` of node `parent`
/// in order.
pub open spec fn advance_all(t: Seq<Node>, parent: usize, stmts: Seq<usize>, s: WalkState) -> WalkState
    decreases parent, 0nat, stmts.len(),
{
    if stmts.len() == 0 {
        s
    } else {
        let s1 = advance_all(t, parent, stmts.drop_last(), s);
        if stmts.last() < parent {
            advance(t, stmts.last(), s1)
        } else {
            s1
        }
    }
}

/// The walk state after a definition has been taken off the stack: the
/// body of a class or module is read now.
pub open spec fn expand(t: Seq<Node>, d: ItemView, s: WalkState) -> WalkState {
    match d {
        ItemView::Class(_, n) => if n < t.len() {
            match t[n as int] {
                Node::Class { body: Some(b), .. } => advance(t, b, s),
                _ => s,
            }
        } else {
            s
        },
        ItemView::Module(_, n) => if n < t.len() {
            match t[n as int] {
                Node::Module { body: Some(b), .. } => advance(t, b, s),
                _ => s,
            }
        } else {
            s
        },
        _ => s,
    }
}

/// One pull: the definition on top of the stack, if any, and the state
/// after it has been taken off and expanded.
pub open spec fn step(t: Seq<Node>, s: WalkState) -> (Option<ItemView>, WalkState) {
    if s.stack.len() == 0 {
        (None, s)
    } else {
        let d = s.stack.last();
        (Some(d), expand(t, d, WalkState { stack: s.stack.drop_last(), pending: s.pending }))
    }
}

/// The state of a walk that starts at node `root`.
pub open spec fn start(t: Seq<Node>, root: usize) -> WalkState {
    advance(t, root, WalkState { stack: Seq::empty(), pending: None })
}

/// What the first `n` pulls from state `s` hand out.
pub open spec fn pulled(t: Seq<Node>, s: WalkState, n: nat) -> Seq<Option<ItemView>>
    decreases n,
{
    if n == 0 {
        Seq::empty()
    } else {
        let p = step(t, s);
        seq![p.0] + pulled(t, p.1, (n - 1) as nat)
    }
}

pub open spec fn opt_item_view(o: Option<NamedItem>) -> Option<ItemView> {
    match o {
        Some(d) => Some(d@),
        None => None,
    }
}

/// A walk over the definitions of a tree, handing them out one at a time.
/// A class or module comes before the definitions of its body, and
/// statements of one sequence come last to first.
pub struct Definitions<'a> {
    tree: &'a Tree,
    stashed_sig: Option<Sig>,
    context: Vec<NamedItem>,
}

impl<'a> Definitions<'a> {
    /// The nodes of the tree being walked.
    pub closed spec fn nodes(&self) -> Seq<Node> {
        self.tree@
    }

    /// Where the walk stands.
    pub closed spec fn state(&self) -> WalkState {
        WalkState {
            stack: self.context@.map_values(|d: NamedItem| d@),
            pending: opt_sig_view(self.stashed_sig),
        }
    }

    /// A walk over `tree` from node `root`; a root outside the tree gives
    /// an empty walk.
    pub fn new(tree: &'a Tree, root: usize) -> (r: Definitions<'a>)
        ensures
            r.nodes() == tree@,
            r.state() == start(tree@, root),
    {
        let mut iter = Definitions { tree, stashed_sig: None, context: Vec::new() };
        assert(iter.state().stack =~= Seq::<ItemView>::empty());
        if root < tree.len() {
            iter.push_next(root);
        }
        iter
    }

    /// Hands out the next definition, or `None` once the walk is over.
    pub fn next(&mut self) -> (r: Option<NamedItem>)
        ensures
            final(self).nodes() == old(self).nodes(),
            (opt_item_view(r), final(self).state()) == step(old(self).nodes(), old(self).state()),
    {
        let ghost s0 = self.state();
        match self.context.pop() {
            None => None,
            Some(item) => {
                assert(self.context@.map_values(|d: NamedItem| d@) =~= s0.stack.drop_last());
                self.push_children(&item);
                Some(item)
            },
        }
    }

    fn push_item(&mut self, d: NamedItem)
        ensures
            final(self).tree == old(self).tree,
            final(self).stashed_sig == old(self).stashed_sig,
            final(self).state().stack == old(self).state().stack.push(d@),
    {
        self.context.push(d);
        assert(self.state().stack =~= old(self).state().stack.push(d@));
    }

    /// Reads node `idx`, stacking the definitions it gives.
    fn push_next(&mut self, idx: usize)
        requires
            idx < old(self).tree@.len(),
        ensures
            final(self).tree == old(self).tree,
            final(self).state() == advance(old(self).tree@, idx, old(self).state()),
        decreases idx,
    {
        let tree = self.tree;
        let nodes = tree.nodes();
        assert(children_below(nodes@[idx as int], idx as int));
        match &nodes[idx] {
            Node::Module { name, .. } => {
                self.stashed_sig = None;
                let q = const_name(tree, *name);
                self.push_item(NamedItem::Module(q, idx));
            },
            Node::Class { name, .. } => {
                self.stashed_sig = None;
                let q = const_name(tree, *name);
                self.push_item(NamedItem::Class(q, idx));
            },
            Node::Def { name } => {
                let sig = self.stashed_sig.take();
                self.push_item(NamedItem::Def(name.clone(), sig));
            },
            Node::Defs { name } => {
                let sig = self.stashed_sig.take();
                self.push_item(NamedItem::Defs(name.clone(), sig));
            },
            Node::Casgn { name } => {
                self.push_item(NamedItem::Casgn(name.clone(), None));
            },
            Node::Send { method_name, args, .. } => {
                match self.known_defining_method(method_name, args) {
                    Some(d) => self.push_item(d),
                    None => {},
                }
            },
            Node::Begin { statements } => {
                let ghost s0 = self.state();
                let mut j: usize = 0;
                while j < statements.len()
                    invariant
                        self.tree == tree,
                        nodes@ == tree@,
                        well_formed(nodes@),
                        idx < nodes@.len(),
                        forall|k: int| 0 <= k < statements@.len() ==> statements@[k] < idx,
                        j <= statements@.len(),
                        self.state() == advance_all(
                            nodes@,
                            idx,
                            statements@.take(j as int),
                            s0,
                        ),
                    decreases statements@.len() - j,
                {
                    assert(statements@.take(j + 1).drop_last() =~= statements@.take(j as int));
                    self.push_next(statements[j]);
                    j = j + 1;
                }
                assert(statements@.take(statements@.len() as int) =~= statements@);
            },
            Node::Block { call, body } => {
                match body {
                    Some(b) => {
                        match &nodes[*call] {
                            Node::Send { method_name, .. } => {
                                if is_named(method_name, "sig") {
                                    self.stashed_sig = Some(Sig::parse_sig(tree, *b));
                                }
                            },
                            _ => {},
                        }
                    },
                    None => {},
                }
            },
            _ => {},
        }
    }

    /// Reads the body of a class or module that has just been taken off the
    /// stack.
    fn push_children(&mut self, item: &NamedItem)
        ensures
            final(self).tree == old(self).tree,
            final(self).state() == expand(old(self).tree@, item@, old(self).state()),
    {
        let nodes = self.tree.nodes();
        match item {
            NamedItem::Class(_, n) => {
                if *n < nodes.len() {
                    assert(children_below(nodes@[*n as int], *n as int));
                    match &nodes[*n] {
                        Node::Class { body: Some(b), .. } => self.push_next(*b),
                        _ => {},
                    }
                }
            },
            NamedItem::Module(_, n) => {
                if *n < nodes.len() {
                    assert(children_below(nodes@[*n as int], *n as int));
                    match &nodes[*n] {
                        Node::Module { body: Some(b), .. } => self.push_next(*b),
                        _ => {},
                    }
                }
            },
            _ => {},
        }
    }

    /// The definition that the call `method_name(args)` introduces, if it
    /// is an `attr_reader`, `attr_writer` or `attr_accessor` call, or a
    /// `prop` or `const` call with a second argument, whose first argument
    /// is a symbol. An accessor takes the waiting signature.
    fn known_defining_method(&mut self, method_name: &String, args: &Vec<usize>) -> (r: Option<
        NamedItem,
    >)
        requires
            forall|k: int| 0 <= k < args@.len() ==> args@[k] < old(self).tree@.len(),
        ensures
            final(self).tree == old(self).tree,
            final(self).context == old(self).context,
            opt_item_view(r) == defining_item(
                old(self).tree@,
                method_name@,
                args@,
                old(self).state().pending,
            ),
            opt_sig_view(final(self).stashed_sig) == if r is Some && takes_sig(method_name@) {
                None
            } else {
                old(self).state().pending
            },
    {
        if args.len() < 1 {
            return None;
        }
        let nodes = self.tree.nodes();
        match &nodes[args[0]] {
            Node::Sym { name } => {
                if is_named(method_name, "attr_reader") {
                    let sig = self.stashed_sig.take();
                    Some(NamedItem::Attr(AttrType::Reader, copy_bytes(name), sig))
                } else if is_named(method_name, "attr_writer") {
                    let sig = self.stashed_sig.take();
                    Some(NamedItem::Attr(AttrType::Writer, copy_bytes(name), sig))
                } else if is_named(method_name, "attr_accessor") {
                    let sig = self.stashed_sig.take();
                    Some(NamedItem::Attr(AttrType::Accessor, copy_bytes(name), sig))
                } else if is_named(method_name, "prop") {
                    if args.len() >= 2 {
                        Some(NamedItem::Prop(PropType::Prop, copy_bytes(name), Type::from_node(args[1])))
                    } else {
                        None
                    }
                } else if is_named(method_name, "const") {
                    if args.len() >= 2 {
                        Some(NamedItem::Prop(PropType::Const, copy_bytes(name), Type::from_node(args[1])))
                    } else {
                        None
                    }
                } else {
                    None
                }
            },
            _ => None,
        }
    }
}

} // verus!
