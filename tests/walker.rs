use sard::definitions::Definitions;
use sard::tree::{Node, Tree};
use sard::types::{const_name, AttrType, NamedItem, PropType, Sig, Type};

fn add(t: &mut Tree, n: Node) -> usize {
    t.add(n).expect("children must already be in the tree")
}

fn konst(t: &mut Tree, scope: Option<usize>, name: &str) -> usize {
    add(t, Node::Const { scope, name: name.to_string() })
}

fn sym(t: &mut Tree, name: &str) -> usize {
    add(t, Node::Sym { name: name.as_bytes().to_vec() })
}

fn send(t: &mut Tree, recv: Option<usize>, name: &str, args: Vec<usize>) -> usize {
    add(t, Node::Send { recv, method_name: name.to_string(), args })
}

fn def(t: &mut Tree, name: &str) -> usize {
    add(t, Node::Def { name: name.to_string() })
}

/// `sig { params(<name>: <ty>).returns(<ret>) }`, returning the block and
/// the indices of the parameter type and the return type.
fn sig_block(t: &mut Tree, name: &str, ty: &str, ret: &str) -> (usize, usize, usize) {
    let k = sym(t, name);
    let v = konst(t, None, ty);
    let pair = add(t, Node::Pair { key: k, value: v });
    let kw = add(t, Node::Kwargs { pairs: vec![pair] });
    let params = send(t, None, "params", vec![kw]);
    let r = konst(t, None, ret);
    let returns = send(t, Some(params), "returns", vec![r]);
    let call = send(t, None, "sig", vec![]);
    let block = add(t, Node::Block { call, body: Some(returns) });
    (block, v, r)
}

fn collect(t: &Tree, root: usize) -> Vec<NamedItem> {
    let mut w = Definitions::new(t, root);
    let mut out = Vec::new();
    while let Some(d) = w.next() {
        out.push(d);
    }
    out
}

fn labels(items: &[NamedItem]) -> Vec<String> {
    items.iter().map(|d| d.to_string()).collect()
}

fn sig_of(d: &NamedItem) -> Option<&Sig> {
    match d {
        NamedItem::Def(_, s) | NamedItem::Defs(_, s) | NamedItem::Attr(_, _, s) => s.as_ref(),
        _ => None,
    }
}

#[test]
fn module_class_and_methods_in_walk_order() {
    let mut t = Tree::new();
    let a = konst(&mut t, None, "A");
    let b = konst(&mut t, None, "B");
    let (block, int_ty, string_ty) = sig_block(&mut t, "x", "IntType", "StringType");
    let foo = def(&mut t, "foo");
    let bar = def(&mut t, "bar");
    let body = add(&mut t, Node::Begin { statements: vec![block, foo, bar] });
    let class = add(&mut t, Node::Class { name: b, superclass: None, body: Some(body) });
    let module = add(&mut t, Node::Module { name: a, body: Some(class) });
    let items = collect(&t, module);
    assert_eq!(items.len(), 4);
    assert!(matches!(&items[0], NamedItem::Module(n, i) if n == "A" && *i == module));
    assert!(matches!(&items[1], NamedItem::Class(n, i) if n == "B" && *i == class));
    assert!(matches!(&items[2], NamedItem::Def(n, None) if n == "bar"));
    match &items[3] {
        NamedItem::Def(n, Some(s)) => {
            assert_eq!(n, "foo");
            assert_eq!(s.params, vec![(b"x".to_vec(), Type { node: int_ty })]);
            assert_eq!(s.returns, Some(Type { node: string_ty }));
        }
        other => panic!("unexpected {:?}", other),
    }
    assert_eq!(labels(&items), vec!["module A", "class B", "def bar", "def foo"]);
}

#[test]
fn signature_before_class_is_discarded() {
    let mut t = Tree::new();
    let (block, _, _) = sig_block(&mut t, "x", "Int", "Str");
    let c = konst(&mut t, None, "C");
    let m = def(&mut t, "m");
    let class = add(&mut t, Node::Class { name: c, superclass: None, body: Some(m) });
    let root = add(&mut t, Node::Begin { statements: vec![block, class] });
    let items = collect(&t, root);
    assert_eq!(labels(&items), vec!["class C", "def m"]);
    assert!(sig_of(&items[1]).is_none());
}

#[test]
fn signature_before_module_is_discarded() {
    let mut t = Tree::new();
    let (block, _, _) = sig_block(&mut t, "x", "Int", "Str");
    let name = konst(&mut t, None, "M");
    let m = add(&mut t, Node::Defs { name: "m".to_string() });
    let module = add(&mut t, Node::Module { name, body: Some(m) });
    let root = add(&mut t, Node::Begin { statements: vec![block, module] });
    let items = collect(&t, root);
    assert_eq!(labels(&items), vec!["module M", "def self.m"]);
    assert!(sig_of(&items[1]).is_none());
}

#[test]
fn signature_attaches_once() {
    let mut t = Tree::new();
    let (block, _, _) = sig_block(&mut t, "x", "Int", "Str");
    let first = def(&mut t, "first");
    let second = def(&mut t, "second");
    let root = add(&mut t, Node::Begin { statements: vec![block, first, second] });
    let items = collect(&t, root);
    assert_eq!(labels(&items), vec!["def second", "def first"]);
    assert!(sig_of(&items[0]).is_none());
    assert!(sig_of(&items[1]).is_some());
}

#[test]
fn accessor_takes_signature_and_prop_does_not() {
    let mut t = Tree::new();
    let (block, _, _) = sig_block(&mut t, "x", "Int", "Str");
    let name = sym(&mut t, "size");
    let ty = konst(&mut t, None, "Integer");
    let prop = send(&mut t, None, "prop", vec![name, ty]);
    let reader = send(&mut t, None, "attr_reader", vec![name]);
    let after = def(&mut t, "after");
    let root = add(&mut t, Node::Begin { statements: vec![block, prop, reader, after] });
    let items = collect(&t, root);
    assert_eq!(labels(&items), vec!["def after", "attr_reader size", "prop size"]);
    assert!(sig_of(&items[0]).is_none());
    assert!(matches!(&items[1], NamedItem::Attr(AttrType::Reader, n, Some(_)) if n == b"size"));
    assert!(matches!(&items[2], NamedItem::Prop(PropType::Prop, n, ty2) if n == b"size" && ty2.node == ty));
}

#[test]
fn malformed_declarations_yield_nothing() {
    let mut t = Tree::new();
    let no_args = send(&mut t, None, "attr_reader", vec![]);
    let not_sym = add(&mut t, Node::Other);
    let bad_first = send(&mut t, None, "attr_writer", vec![not_sym]);
    let name = sym(&mut t, "p");
    let one_arg_prop = send(&mut t, None, "prop", vec![name]);
    let one_arg_const = send(&mut t, None, "const", vec![name]);
    let other_call = send(&mut t, None, "delegate", vec![name]);
    let root = add(&mut t, Node::Begin {
        statements: vec![no_args, bad_first, one_arg_prop, one_arg_const, other_call],
    });
    assert!(collect(&t, root).is_empty());
}

#[test]
fn every_accessor_and_property_kind() {
    let mut t = Tree::new();
    let a = sym(&mut t, "a");
    let ty = konst(&mut t, None, "T");
    let r = send(&mut t, None, "attr_reader", vec![a]);
    let w = send(&mut t, None, "attr_writer", vec![a]);
    let acc = send(&mut t, None, "attr_accessor", vec![a]);
    let p = send(&mut t, None, "prop", vec![a, ty]);
    let c = send(&mut t, None, "const", vec![a, ty]);
    let cas = add(&mut t, Node::Casgn { name: "LIMIT".to_string() });
    let root = add(&mut t, Node::Begin { statements: vec![r, w, acc, p, c, cas] });
    let items = collect(&t, root);
    assert_eq!(
        labels(&items),
        vec!["LIMIT", "const a", "prop a", "attr_accessor a", "attr_writer a", "attr_reader a"]
    );
    assert!(matches!(&items[0], NamedItem::Casgn(n, None) if n == "LIMIT"));
}

#[test]
fn triple_nested_constant_name() {
    let mut t = Tree::new();
    let x = konst(&mut t, None, "X");
    let y = konst(&mut t, Some(x), "Y");
    let z = konst(&mut t, Some(y), "Z");
    assert_eq!(const_name(&t, z), "X::Y::Z");
    assert_eq!(const_name(&t, y), "X::Y");
    assert_eq!(const_name(&t, x), "X");
    let class = add(&mut t, Node::Class { name: z, superclass: None, body: None });
    assert_eq!(labels(&collect(&t, class)), vec!["class X::Y::Z"]);
}

#[test]
fn constant_name_stops_at_non_constant_scope() {
    let mut t = Tree::new();
    let base = add(&mut t, Node::Other);
    let c = konst(&mut t, Some(base), "Top");
    assert_eq!(const_name(&t, c), "Top");
    assert_eq!(const_name(&t, base), "");
    assert_eq!(const_name(&t, 99), "");
}

#[test]
fn chain_with_params_and_returns() {
    let mut t = Tree::new();
    let (block, int_ty, string_ty) = sig_block(&mut t, "x", "IntType", "StringType");
    let body = match t.nodes()[block] {
        Node::Block { body: Some(b), .. } => b,
        _ => unreachable!(),
    };
    let sig = Sig::parse_sig(&t, body);
    assert_eq!(sig.params, vec![(b"x".to_vec(), Type { node: int_ty })]);
    assert_eq!(sig.returns, Some(Type { node: string_ty }));
}

#[test]
fn outermost_void_wins_over_inner_returns() {
    let mut t = Tree::new();
    let (block, int_ty, _) = sig_block(&mut t, "x", "IntType", "StringType");
    let returns = match t.nodes()[block] {
        Node::Block { body: Some(b), .. } => b,
        _ => unreachable!(),
    };
    let void = send(&mut t, Some(returns), "void", vec![]);
    let sig = Sig::parse_sig(&t, void);
    assert_eq!(sig.params, vec![(b"x".to_vec(), Type { node: int_ty })]);
    assert_eq!(sig.returns, None);
}

#[test]
fn outermost_returns_wins_over_inner_void() {
    let mut t = Tree::new();
    let v = send(&mut t, None, "void", vec![]);
    let r = konst(&mut t, None, "R");
    let outer = send(&mut t, Some(v), "returns", vec![r]);
    let sig = Sig::parse_sig(&t, outer);
    assert!(sig.params.is_empty());
    assert_eq!(sig.returns, Some(Type { node: r }));
}

#[test]
fn later_duplicate_parameter_overwrites() {
    let mut t = Tree::new();
    let k = sym(&mut t, "x");
    let k2 = sym(&mut t, "y");
    let v1 = konst(&mut t, None, "A");
    let v2 = konst(&mut t, None, "B");
    let v3 = konst(&mut t, None, "C");
    let p1 = add(&mut t, Node::Pair { key: k, value: v1 });
    let p2 = add(&mut t, Node::Pair { key: k2, value: v2 });
    let p3 = add(&mut t, Node::Pair { key: k, value: v3 });
    let other = add(&mut t, Node::Other);
    let kw = add(&mut t, Node::Kwargs { pairs: vec![p1, p2, other, p3] });
    let params = send(&mut t, None, "params", vec![kw]);
    let sig = Sig::parse_sig(&t, params);
    assert_eq!(
        sig.params,
        vec![(b"x".to_vec(), Type { node: v3 }), (b"y".to_vec(), Type { node: v2 })]
    );
    assert_eq!(sig.returns, None);
}

#[test]
fn chain_without_known_calls_is_empty() {
    let mut t = Tree::new();
    let a = send(&mut t, None, "checked", vec![]);
    let b = send(&mut t, Some(a), "override", vec![]);
    let sig = Sig::parse_sig(&t, b);
    assert!(sig.params.is_empty());
    assert!(sig.returns.is_none());
    let other = add(&mut t, Node::Other);
    assert!(Sig::parse_sig(&t, other).params.is_empty());
}

#[test]
fn two_walks_agree() {
    let mut t = Tree::new();
    let a = konst(&mut t, None, "A");
    let (block, _, _) = sig_block(&mut t, "x", "Int", "Str");
    let foo = def(&mut t, "foo");
    let body = add(&mut t, Node::Begin { statements: vec![block, foo] });
    let module = add(&mut t, Node::Module { name: a, body: Some(body) });
    let first = collect(&t, module);
    let second = collect(&t, module);
    assert_eq!(labels(&first), labels(&second));
    assert_eq!(first.len(), 2);
    assert_eq!(sig_of(&first[1]).map(|s| s.params.clone()), sig_of(&second[1]).map(|s| s.params.clone()));
}

#[test]
fn descendants_of_a_sibling_come_before_earlier_siblings() {
    let mut t = Tree::new();
    let one = def(&mut t, "one");
    let cn = konst(&mut t, None, "Inner");
    let two = def(&mut t, "two");
    let three = def(&mut t, "three");
    let inner_body = add(&mut t, Node::Begin { statements: vec![two, three] });
    let class = add(&mut t, Node::Class { name: cn, superclass: None, body: Some(inner_body) });
    let root = add(&mut t, Node::Begin { statements: vec![one, class] });
    assert_eq!(
        labels(&collect(&t, root)),
        vec!["class Inner", "def three", "def two", "def one"]
    );
}

#[test]
fn non_sig_blocks_and_empty_bodies_are_inert() {
    let mut t = Tree::new();
    let (sig_body_block, _, _) = sig_block(&mut t, "x", "Int", "Str");
    let body = match t.nodes()[sig_body_block] {
        Node::Block { body: Some(b), .. } => b,
        _ => unreachable!(),
    };
    let each = send(&mut t, None, "each", vec![]);
    let each_block = add(&mut t, Node::Block { call: each, body: Some(body) });
    let sig_call = send(&mut t, None, "sig", vec![]);
    let empty_sig = add(&mut t, Node::Block { call: sig_call, body: None });
    let m = def(&mut t, "m");
    let cn = konst(&mut t, None, "E");
    let empty_class = add(&mut t, Node::Class { name: cn, superclass: None, body: None });
    let root = add(&mut t, Node::Begin { statements: vec![each_block, empty_sig, m, empty_class] });
    let items = collect(&t, root);
    assert_eq!(labels(&items), vec!["class E", "def m"]);
    assert!(sig_of(&items[1]).is_none());
}

#[test]
fn exhausted_walk_stays_exhausted() {
    let mut t = Tree::new();
    let m = def(&mut t, "m");
    let mut w = Definitions::new(&t, m);
    assert!(w.next().is_some());
    assert!(w.next().is_none());
    assert!(w.next().is_none());
    let mut outside = Definitions::new(&t, 5);
    assert!(outside.next().is_none());
}

#[test]
fn tree_refuses_forward_children() {
    let mut t = Tree::new();
    assert_eq!(t.add(Node::Begin { statements: vec![0] }), None);
    assert_eq!(t.len(), 0);
    assert_eq!(t.add(Node::Other), Some(0));
    assert_eq!(t.add(Node::Begin { statements: vec![0] }), Some(1));
    assert_eq!(t.add(Node::Pair { key: 1, value: 2 }), None);
    assert_eq!(t.len(), 2);
}

#[test]
fn labels_of_every_kind() {
    assert_eq!(NamedItem::Class("A::B".to_string(), 0).to_string(), "class A::B");
    assert_eq!(NamedItem::Module("A".to_string(), 0).to_string(), "module A");
    assert_eq!(NamedItem::Def("foo".to_string(), None).to_string(), "def foo");
    assert_eq!(NamedItem::Defs("foo".to_string(), None).to_string(), "def self.foo");
    assert_eq!(NamedItem::Attr(AttrType::Writer, b"w".to_vec(), None).to_string(), "attr_writer w");
    assert_eq!(
        NamedItem::Prop(PropType::Const, b"c".to_vec(), Type { node: 0 }).to_string(),
        "const c"
    );
    assert_eq!(NamedItem::Casgn("MAX".to_string(), None).to_string(), "MAX");
    assert_eq!(AttrType::Accessor.label("z"), "attr_accessor z");
    assert_eq!(PropType::Prop.label("q"), "prop q");
}

#[test]
fn symbol_bytes_are_read_lossily() {
    let d = NamedItem::Attr(AttrType::Reader, vec![b'a', 0xff, b'b'], None);
    assert_eq!(d.to_string(), "attr_reader a\u{FFFD}b");
    let e = NamedItem::Prop(PropType::Prop, "gr\u{f6}\u{df}e".as_bytes().to_vec(), Type { node: 1 });
    assert_eq!(e.to_string(), "prop gr\u{f6}\u{df}e");
}
