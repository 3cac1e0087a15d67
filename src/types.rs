//! The values that the walker yields: definitions, with the signatures and
//! type expressions attached to them, and their display form.

use vstd::prelude::*;
use vstd::string::*;
use crate::tree::{Node, Tree, well_formed};

verus! {

/// The kind of `attr_` helper a member was declared with.
#[derive(Clone, Copy, Debug, PartialEq, Eq, Structural)]
pub enum AttrType {
    Reader,
    Writer,
    Accessor,
}

/// The kind of typed property declaration: `prop` (mutable) or `const`
/// (immutable).
#[derive(Clone, Copy, Debug, PartialEq, Eq, Structural)]
pub enum PropType {
    Prop,
    Const,
}

/// A type expression, kept as the index of its node in the tree.
#[derive(Clone, Copy, Debug, PartialEq, Eq, Structural)]
pub struct Type {
    pub node: usize,
}

impl Type {
    /// The type expression written at node `node`.
    pub fn from_node(node: usize) -> (r: Type)
        ensures
            r.node == node,
    {
        Type { node }
    }
}

/// A parsed `sig` block: the type of each named parameter, and the return
/// type, absent for `void` or when none was given.
#[derive(Debug)]
pub struct Sig {
    pub params: Vec<(Vec<u8>, Type)>,
    pub returns: Option<Type>,
}

/// What a [`Sig`] means: parameter names mapped to their types.
pub struct SigModel {
    pub params: Map<Seq<u8>, Type>,
    pub returns: Option<Type>,
}

/// The mapping that a list of parameter entries stands for; of two entries
/// with one name, the later one counts.
pub open spec fn params_map(s: Seq<(Vec<u8>, Type)>) -> Map<Seq<u8>, Type>
    decreases s.len(),
{
    if s.len() == 0 {
        Map::empty()
    } else {
        params_map(s.drop_last()).insert(s.last().0@, s.last().1)
    }
}

/// No two entries share a name.
pub open spec fn keys_unique(s: Seq<(Vec<u8>, Type)>) -> bool {
    forall|i: int, j: int| 0 <= i < j < s.len() ==> s[i].0@ != s[j].0@
}

impl View for Sig {
    type V = SigModel;

    open spec fn view(&self) -> SigModel {
        SigModel { params: params_map(self.params@), returns: self.returns }
    }
}

pub open spec fn empty_sig() -> SigModel {
    SigModel { params: Map::empty(), returns: None }
}

/// The parameter entry that the node at `p` gives, if it is a pair keyed by
/// a symbol.
pub open spec fn pair_entry(t: Seq<Node>, p: usize) -> Option<(Seq<u8>, Type)> {
    if p < t.len() {
        match t[p as int] {
            Node::Pair { key, value } => if key < t.len() {
                match t[key as int] {
                    Node::Sym { name } => Some((name@, Type { node: value })),
                    _ => None,
                }
            } else {
                None
            },
            _ => None,
        }
    } else {
        None
    }
}

/// `m` with the entries of the pairs at `pairs` inserted in order.
pub open spec fn with_pairs(t: Seq<Node>, pairs: Seq<usize>, m: Map<Seq<u8>, Type>) -> Map<
    Seq<u8>,
    Type,
>
    decreases pairs.len(),
{
    if pairs.len() == 0 {
        m
    } else {
        let m1 = with_pairs(t, pairs.drop_last(), m);
        match pair_entry(t, pairs.last()) {
            Some(e) => m1.insert(e.0, e.1),
            None => m1,
        }
    }
}

/// What the call `method(args)` of a signature chain does to `sig`.
/// `settled` records that an outer `returns` or `void` has already fixed the
/// return type, which calls further in then leave alone.
pub open spec fn call_effect(
    t: Seq<Node>,
    method: Seq<char>,
    args: Seq<usize>,
    sig: SigModel,
    settled: bool,
) -> (SigModel, bool) {
    if method == "params"@ {
        if args.len() > 0 && args.last() < t.len() {
            match t[args.last() as int] {
                Node::Kwargs { pairs } => (
                    SigModel { params: with_pairs(t, pairs@, sig.params), returns: sig.returns },
                    settled,
                ),
                _ => (sig, settled),
            }
        } else {
            (sig, settled)
        }
    } else if method == "returns"@ {
        if !settled && args.len() > 0 {
            (SigModel { params: sig.params, returns: Some(Type { node: args[0] }) }, true)
        } else {
            (sig, settled)
        }
    } else if method == "void"@ {
        if !settled {
            (SigModel { params: sig.params, returns: None }, true)
        } else {
            (sig, settled)
        }
    } else {
        (sig, settled)
    }
}

/// The signature built by walking the call chain from node `i` inward
/// through receivers, starting from `sig`.
pub open spec fn chain_sig(t: Seq<Node>, i: usize, sig: SigModel, settled: bool) -> SigModel
    decreases i,
{
    if i < t.len() {
        match t[i as int] {
            Node::Send { recv, method_name, args } => {
                let e = call_effect(t, method_name@, args@, sig, settled);
                match recv {
                    Some(r) => if r < i {
                        chain_sig(t, r, e.0, e.1)
                    } else {
                        e.0
                    },
                    None => e.0,
                }
            },
            _ => sig,
        }
    } else {
        sig
    }
}

/// The signature that the body of a `sig` block at node `i` declares.
pub open spec fn sig_of(t: Seq<Node>, i: usize) -> SigModel {
    chain_sig(t, i, empty_sig(), false)
}

proof fn lemma_params_update(s: Seq<(Vec<u8>, Type)>, j: int, p: (Vec<u8>, Type))
    requires
        keys_unique(s),
        0 <= j < s.len(),
        s[j].0@ == p.0@,
    ensures
        params_map(s.update(j, p)) == params_map(s).insert(p.0@, p.1),
    decreases s.len(),
{
    let u = s.update(j, p);
    if j == s.len() - 1 {
        assert(u.drop_last() =~= s.drop_last());
        assert(params_map(u) =~= params_map(s).insert(p.0@, p.1));
    } else {
        lemma_params_update(s.drop_last(), j, p);
        assert(u.drop_last() =~= s.drop_last().update(j, p));
        assert(params_map(u) =~= params_map(s).insert(p.0@, p.1));
    }
}

/// The byte strings `a` and `b` are equal.
fn bytes_eq(a: &Vec<u8>, b: &Vec<u8>) -> (r: bool)
    ensures
        r == (a@ == b@),
{
    if a.len() != b.len() {
        return false;
    }
    let mut i: usize = 0;
    while i < a.len()
        invariant
            a@.len() == b@.len(),
            i <= a@.len(),
            forall|k: int| 0 <= k < i ==> a@[k] == b@[k],
        decreases a@.len() - i,
    {
        if a[i] != b[i] {
            return false;
        }
        i = i + 1;
    }
    assert(a@ =~= b@);
    true
}

/// A copy of the byte string `a`.
pub(crate) fn copy_bytes(a: &Vec<u8>) -> (r: Vec<u8>)
    ensures
        r@ == a@,
{
    let mut r: Vec<u8> = Vec::new();
    let mut i: usize = 0;
    while i < a.len()
        invariant
            i <= a@.len(),
            r@ == a@.take(i as int),
        decreases a@.len() - i,
    {
        r.push(a[i]);
        i = i + 1;
        assert(r@ =~= a@.take(i as int));
    }
    assert(a@.take(a@.len() as int) =~= a@);
    r
}

/// The string `s` reads `lit`.
pub(crate) fn is_named(s: &String, lit: &str) -> (r: bool)
    ensures
        r == (s@ == lit@),
{
    let l = String::from_str(lit);
    *s == l
}

impl Sig {
    /// Sets the type of parameter `name` to `ty`, in place of any earlier one.
    fn insert_param(&mut self, name: &Vec<u8>, ty: Type)
        requires
            keys_unique(old(self).params@),
        ensures
            keys_unique(final(self).params@),
            final(self)@.params == old(self)@.params.insert(name@, ty),
            final(self).returns == old(self).returns,
    {
        let mut i: usize = 0;
        while i < self.params.len()
            invariant
                i <= self.params@.len(),
                self.params@ == old(self).params@,
                self.returns == old(self).returns,
                keys_unique(self.params@),
                forall|k: int| 0 <= k < i ==> self.params@[k].0@ != name@,
            decreases self.params@.len() - i,
        {
            if bytes_eq(&self.params[i].0, name) {
                let entry = (copy_bytes(name), ty);
                proof {
                    lemma_params_update(self.params@, i as int, entry);
                }
                self.params[i] = entry;
                assert(self.params@ == old(self).params@.update(i as int, entry));
                return;
            }
            i = i + 1;
        }
        let entry = (copy_bytes(name), ty);
        let ghost before = self.params@;
        self.params.push(entry);
        assert(self.params@.drop_last() =~= before);
    }

    /// Adds the parameter types of the keyword pairs at `pairs`, in order.
    fn extract_params(&mut self, nodes: &Vec<Node>, pairs: &Vec<usize>)
        requires
            well_formed(nodes@),
            forall|k: int| 0 <= k < pairs@.len() ==> pairs@[k] < nodes@.len(),
            keys_unique(old(self).params@),
        ensures
            keys_unique(final(self).params@),
            final(self)@.params == with_pairs(nodes@, pairs@, old(self)@.params),
            final(self).returns == old(self).returns,
    {
        let mut j: usize = 0;
        while j < pairs.len()
            invariant
                well_formed(nodes@),
                forall|k: int| 0 <= k < pairs@.len() ==> pairs@[k] < nodes@.len(),
                j <= pairs@.len(),
                keys_unique(self.params@),
                self@.params == with_pairs(nodes@, pairs@.take(j as int), old(self)@.params),
                self.returns == old(self).returns,
            decreases pairs@.len() - j,
        {
            let p = pairs[j];
            assert(pairs@.take(j + 1).drop_last() =~= pairs@.take(j as int));
            match &nodes[p] {
                Node::Pair { key, value } => {
                    assert(crate::tree::children_below(nodes@[p as int], p as int));
                    match &nodes[*key] {
                        Node::Sym { name } => self.insert_param(name, Type::from_node(*value)),
                        _ => {},
                    }
                },
                _ => {},
            }
            j = j + 1;
        }
        assert(pairs@.take(pairs@.len() as int) =~= pairs@);
    }

    /// Reads the signature declared by a `sig` block whose body is the call
    /// chain at node `send`. Calls are read from the outermost inward:
    /// `params(k: T, ...)` adds parameter types, and the outermost of
    /// `returns(T)` and `void` sets the return type. Other calls are
    /// ignored, and an index outside the tree gives the empty signature.
    pub fn parse_sig(tree: &Tree, send: usize) -> (r: Sig)
        ensures
            r@ == sig_of(tree@, send),
            keys_unique(r.params@),
    {
        let nodes = tree.nodes();
        let mut sig = Sig { params: Vec::new(), returns: None };
        assert(sig@.params =~= Map::empty());
        if send >= nodes.len() {
            return sig;
        }
        let mut settled = false;
        let mut node = send;
        loop
            invariant_except_break
                chain_sig(nodes@, node, sig@, settled) == sig_of(tree@, send),
            invariant
                well_formed(nodes@),
                nodes@ == tree@,
                node < nodes@.len(),
                keys_unique(sig.params@),
            ensures
                keys_unique(sig.params@),
                sig@ == sig_of(tree@, send),
            decreases node,
        {
            assert(crate::tree::children_below(nodes@[node as int], node as int));
            match &nodes[node] {
                Node::Send { recv, method_name, args } => {
                    if is_named(method_name, "params") {
                        if args.len() > 0 {
                            let last = args[args.len() - 1];
                            match &nodes[last] {
                                Node::Kwargs { pairs } => {
                                    assert(crate::tree::children_below(
                                        nodes@[last as int],
                                        last as int,
                                    ));
                                    sig.extract_params(nodes, pairs);
                                },
                                _ => {},
                            }
                        }
                    } else if is_named(method_name, "returns") {
                        if !settled && args.len() > 0 {
                            sig.returns = Some(Type::from_node(args[0]));
                            settled = true;
                        }
                    } else if is_named(method_name, "void") {
                        if !settled {
                            sig.returns = None;
                            settled = true;
                        }
                    }
                    match recv {
                        Some(r) => {
                            node = *r;
                        },
                        None => {
                            break ;
                        },
                    }
                },
                _ => {
                    break ;
                },
            }
        }
        sig
    }
}

/// The node is a constant reference.
pub open spec fn is_const(n: Node) -> bool {
    n matches Node::Const { .. }
}

/// The qualified name of the constant reference at node `i`, outermost
/// scope first, its parts joined by `::`; empty when `i` is no constant.
pub open spec fn qualified_name(t: Seq<Node>, i: usize) -> Seq<char>
    decreases i,
{
    if i < t.len() {
        match t[i as int] {
            Node::Const { scope, name } => match scope {
                Some(s) => if s < i && s < t.len() && is_const(t[s as int]) {
                    qualified_name(t, s) + "::"@ + name@
                } else {
                    name@
                },
                None => name@,
            },
            _ => Seq::empty(),
        }
    } else {
        Seq::empty()
    }
}

/// The qualified name of the constant reference at node `node`, such as
/// `Outer::Inner`: the names met walking inward through the scopes, in
/// reverse, joined by `::`.
pub fn const_name(tree: &Tree, node: usize) -> (r: String)
    ensures
        r@ == qualified_name(tree@, node),
    decreases node,
{
    let nodes = tree.nodes();
    if node >= nodes.len() {
        return String::new();
    }
    assert(crate::tree::children_below(nodes@[node as int], node as int));
    match &nodes[node] {
        Node::Const { scope, name } => match scope {
            Some(s) => match &nodes[*s] {
                Node::Const { .. } => {
                    let mut r = const_name(tree, *s);
                    r.append("::");
                    r.append(name.as_str());
                    r
                },
                _ => name.clone(),
            },
            None => name.clone(),
        },
        _ => String::new(),
    }
}

/// A definition found in the tree.
#[derive(Debug)]
pub enum NamedItem {
    /// A class, by qualified name, with the index of its `class` node.
    Class(String, usize),
    /// A module, by qualified name, with the index of its `module` node.
    Module(String, usize),
    /// An instance method, with the signature declared before it.
    Def(String, Option<Sig>),
    /// A singleton method (`def self.x`), with the signature declared before it.
    Defs(String, Option<Sig>),
    /// A member declared with `attr_reader`, `attr_writer` or
    /// `attr_accessor`, with the signature declared before it.
    Attr(AttrType, Vec<u8>, Option<Sig>),
    /// A member declared with `prop` or `const`, with its type expression.
    Prop(PropType, Vec<u8>, Type),
    /// A constant assignment; no type is ever attached to it.
    Casgn(String, Option<Type>),
}

/// What a [`NamedItem`] means, with names and signatures as plain values.
pub enum ItemView {
    Class(Seq<char>, usize),
    Module(Seq<char>, usize),
    Def(Seq<char>, Option<SigModel>),
    Defs(Seq<char>, Option<SigModel>),
    Attr(AttrType, Seq<u8>, Option<SigModel>),
    Prop(PropType, Seq<u8>, Type),
    Casgn(Seq<char>, Option<Type>),
}

pub open spec fn opt_sig_view(o: Option<Sig>) -> Option<SigModel> {
    match o {
        Some(s) => Some(s@),
        None => None,
    }
}

impl View for NamedItem {
    type V = ItemView;

    open spec fn view(&self) -> ItemView {
        match *self {
            NamedItem::Class(n, i) => ItemView::Class(n@, i),
            NamedItem::Module(n, i) => ItemView::Module(n@, i),
            NamedItem::Def(n, s) => ItemView::Def(n@, opt_sig_view(s)),
            NamedItem::Defs(n, s) => ItemView::Defs(n@, opt_sig_view(s)),
            NamedItem::Attr(k, n, s) => ItemView::Attr(k, n@, opt_sig_view(s)),
            NamedItem::Prop(k, n, t) => ItemView::Prop(k, n@, t),
            NamedItem::Casgn(n, t) => ItemView::Casgn(n@, t),
        }
    }
}

/// The text that `lib_ruby_parser::Bytes::to_string_lossy` makes of `b`.
pub uninterp spec fn lossy_text(b: Seq<u8>) -> Seq<char>;

/// Relies on `lib_ruby_parser::Bytes::to_string_lossy`: the bytes read as
/// UTF-8, each invalid sequence replaced by U+FFFD; a function of the bytes
/// alone, and empty for no bytes.
#[verifier::external_body]
fn bytes_text(b: &Vec<u8>) -> (r: String)
    ensures
        r@ == lossy_text(b@),
        b@.len() == 0 ==> r@.len() == 0,
{
    lib_ruby_parser::Bytes::new(b.clone()).to_string_lossy()
}

pub open spec fn attr_prefix(k: AttrType) -> Seq<char> {
    match k {
        AttrType::Reader => "attr_reader "@,
        AttrType::Writer => "attr_writer "@,
        AttrType::Accessor => "attr_accessor "@,
    }
}

pub open spec fn prop_prefix(k: PropType) -> Seq<char> {
    match k {
        PropType::Prop => "prop "@,
        PropType::Const => "const "@,
    }
}

impl AttrType {
    /// The display form of a member named `name` declared with this helper,
    /// such as `attr_reader name`.
    pub fn label(&self, name: &str) -> (r: String)
        ensures
            r@ == attr_prefix(*self) + name@,
    {
        let mut r = match self {
            AttrType::Reader => String::from_str("attr_reader "),
            AttrType::Writer => String::from_str("attr_writer "),
            AttrType::Accessor => String::from_str("attr_accessor "),
        };
        r.append(name);
        r
    }
}

impl PropType {
    /// The display form of a property named `name` of this kind, such as
    /// `prop name`.
    pub fn label(&self, name: &str) -> (r: String)
        ensures
            r@ == prop_prefix(*self) + name@,
    {
        let mut r = match self {
            PropType::Prop => String::from_str("prop "),
            PropType::Const => String::from_str("const "),
        };
        r.append(name);
        r
    }
}

/// The display form of a definition.
pub open spec fn label_of(d: ItemView) -> Seq<char> {
    match d {
        ItemView::Class(n, _) => "class "@ + n,
        ItemView::Module(n, _) => "module "@ + n,
        ItemView::Def(n, _) => "def "@ + n,
        ItemView::Defs(n, _) => "def self."@ + n,
        ItemView::Attr(k, n, _) => attr_prefix(k) + lossy_text(n),
        ItemView::Prop(k, n, _) => prop_prefix(k) + lossy_text(n),
        ItemView::Casgn(n, _) => n,
    }
}

/// Prepends `prefix` to `s`.
fn prefixed(prefix: &str, s: &String) -> (r: String)
    ensures
        r@ == prefix@ + s@,
{
    let mut r = String::from_str(prefix);
    r.append(s.as_str());
    r
}

impl NamedItem {
    /// A human-readable form of this definition: `class A::B`,
    /// `module A`, `def foo`, `def self.foo`, `attr_reader bar`,
    /// `prop baz`, or a constant's name.
    pub fn to_string(&self) -> (r: String)
        ensures
            r@ == label_of(self@),
    {
        match self {
            NamedItem::Class(n, _) => prefixed("class ", n),
            NamedItem::Module(n, _) => prefixed("module ", n),
            NamedItem::Def(n, _) => prefixed("def ", n),
            NamedItem::Defs(n, _) => prefixed("def self.", n),
            NamedItem::Attr(k, n, _) => {
                let text = bytes_text(n);
                k.label(text.as_str())
            },
            NamedItem::Prop(k, n, _) => {
                let text = bytes_text(n);
                k.label(text.as_str())
            },
            NamedItem::Casgn(n, _) => n.clone(),
        }
    }
}

} // verus!
