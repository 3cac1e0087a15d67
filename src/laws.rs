//! Properties of the walk, the signature reader and the name resolver,
//! stated over their models and proved.

use vstd::prelude::*;
use crate::tree::Node;
use crate::types::{SigModel, Type, ItemView, sig_of, chain_sig, with_pairs, pair_entry, qualified_name};
use crate::definitions::{WalkState, advance, pulled, start, defining_item, is_sig_call, takes_sig};

verus! {

/// The signature that a definition carries, if it is one that can carry one.
pub open spec fn carried_sig(d: ItemView) -> Option<SigModel> {
    match d {
        ItemView::Def(_, s) => s,
        ItemView::Defs(_, s) => s,
        ItemView::Attr(_, _, s) => s,
        _ => None,
    }
}

/// The node is a class or a module.
pub open spec fn is_scope(n: Node) -> bool {
    n matches Node::Class { .. } || n matches Node::Module { .. }
}

/// The node is a method definition, instance or singleton.
pub open spec fn is_method(n: Node) -> bool {
    n matches Node::Def { .. } || n matches Node::Defs { .. }
}

/// A `sig` block written directly before a class or module statement is
/// discarded at that scope boundary: reading the two leaves the walk
/// exactly as reading the class or module alone would, with no signature
/// waiting, so nothing inside the new scope (or after it) can receive it.
pub proof fn law_scope_discards_signature(t: Seq<Node>, block: usize, scope: usize, s: WalkState)
    requires
        block < t.len(),
        scope < t.len(),
        t[block as int] matches Node::Block { call, body: Some(_) } && call < t.len()
            && is_sig_call(t[call as int]),
        is_scope(t[scope as int]),
    ensures
        advance(t, scope, advance(t, block, s)) == advance(t, scope, s),
        advance(t, scope, s).pending is None,
{
}

/// A signature attaches to one definition at most: of two method
/// definitions read in turn, the first takes whatever signature was
/// waiting and the second, with no `sig` block between them, gets none.
pub proof fn law_signature_consumed_once(t: Seq<Node>, first: usize, second: usize, s: WalkState)
    requires
        first < t.len(),
        second < t.len(),
        is_method(t[first as int]),
        is_method(t[second as int]),
    ensures
        ({
            let s2 = advance(t, second, advance(t, first, s));
            &&& s2.stack.len() == s.stack.len() + 2
            &&& s2.stack.take(s.stack.len() as int) == s.stack
            &&& carried_sig(s2.stack[s.stack.len() as int]) == s.pending
            &&& carried_sig(s2.stack[s.stack.len() + 1int]) is None
            &&& s2.pending is None
        }),
{
    let s2 = advance(t, second, advance(t, first, s));
    assert(s2.stack.take(s.stack.len() as int) =~= s.stack);
}

/// A call named `attr_reader`, `attr_writer`, `attr_accessor`, `prop` or
/// `const` with no arguments, or whose first argument is not a symbol,
/// introduces nothing and leaves the walk as it was; so does a `prop` or
/// `const` call with a single argument.
pub proof fn law_malformed_declarations_are_inert(t: Seq<Node>, i: usize, s: WalkState)
    requires
        i < t.len(),
        t[i as int] matches Node::Send { method_name, args, .. } && ({
            let m = method_name@;
            let a = args@;
            &&& takes_sig(m) || m == "prop"@ || m == "const"@
            &&& (a.len() == 0 || !(t[a[0] as int] matches Node::Sym { .. }) || ((m == "prop"@ || m
                == "const"@) && a.len() == 1))
        }),
    ensures
        advance(t, i, s) == s,
{
    reveal_strlit("attr_reader");
    reveal_strlit("attr_writer");
    reveal_strlit("attr_accessor");
    reveal_strlit("prop");
    reveal_strlit("const");
    let m = t[i as int]->Send_method_name@;
    let a = t[i as int]->Send_args@;
    if a.len() == 0 {
        assert(defining_item(t, m, a, s.pending) is None);
    } else if !(t[a[0] as int] matches Node::Sym { .. }) {
        assert(defining_item(t, m, a, s.pending) is None);
    } else {
        assert("prop"@.len() == 4 && "const"@.len() == 5);
        assert("attr_reader"@.len() == 11 && "attr_writer"@.len() == 11);
        assert("attr_accessor"@.len() == 13);
        assert(defining_item(t, m, a, s.pending) is None);
    }
}

/// A constant reference nested three deep, `X::Y::Z`, resolves to the
/// names outermost first, joined by `::`.
pub proof fn law_triple_qualified_name(t: Seq<Node>, a: usize, b: usize, c: usize)
    requires
        a < b < c < t.len(),
        t[a as int] matches Node::Const { scope: None, .. },
        t[b as int] matches Node::Const { scope: Some(sb), .. } && sb == a,
        t[c as int] matches Node::Const { scope: Some(sc), .. } && sc == b,
    ensures
        qualified_name(t, c) == t[a as int]->Const_name@ + "::"@ + t[b as int]->Const_name@
            + "::"@ + t[c as int]->Const_name@,
{
    let x = t[a as int]->Const_name@;
    let y = t[b as int]->Const_name@;
    assert(qualified_name(t, a) == x);
    assert(qualified_name(t, b) == x + "::"@ + y);
}

/// `params(x: T).returns(R)` declares the parameter `x` of type `T` and the
/// return type `R`; with `.void` called on that chain, so that it is the
/// outermost call, the return type is absent although `returns(R)` stands
/// further in.
pub proof fn law_signature_chain(
    t: Seq<Node>,
    sym: usize,
    value: usize,
    pair: usize,
    kwargs: usize,
    params_call: usize,
    ret_ty: usize,
    returns_call: usize,
    void_call: usize,
)
    requires
        sym < pair < kwargs < params_call < returns_call < void_call < t.len(),
        value < pair,
        t[sym as int] matches Node::Sym { .. },
        t[pair as int] matches Node::Pair { key, value: v } && key == sym && v == value,
        t[kwargs as int] matches Node::Kwargs { pairs } && pairs@ == seq![pair],
        t[params_call as int] matches Node::Send { recv: None, method_name, args } && method_name@
            == "params"@ && args@ == seq![kwargs],
        t[returns_call as int] matches Node::Send { recv: Some(r), method_name, args } && r == params_call
            && method_name@ == "returns"@ && args@ == seq![ret_ty],
        t[void_call as int] matches Node::Send { recv: Some(r), method_name, args } && r == returns_call
            && method_name@ == "void"@ && args@.len() == 0,
    ensures
        sig_of(t, returns_call) == (SigModel {
            params: map![t[sym as int]->Sym_name@ => Type { node: value }],
            returns: Some(Type { node: ret_ty }),
        }),
        sig_of(t, void_call) == (SigModel {
            params: map![t[sym as int]->Sym_name@ => Type { node: value }],
            returns: None,
        }),
{
    reveal_strlit("params");
    reveal_strlit("returns");
    reveal_strlit("void");
    assert("params"@.len() == 6 && "returns"@.len() == 7 && "void"@.len() == 4);
    let name = t[sym as int]->Sym_name@;
    let pairs = seq![pair];
    let one = map![name => Type { node: value }];
    assert(pairs.drop_last() =~= Seq::<usize>::empty());
    assert(pair_entry(t, pair) == Some((name, Type { node: value })));
    assert(with_pairs(t, pairs.drop_last(), Map::empty()) == Map::<Seq<u8>, Type>::empty());
    assert(with_pairs(t, pairs, Map::empty()) =~= one);
    let with_ret = SigModel { params: Map::empty(), returns: Some(Type { node: ret_ty }) };
    let done = SigModel { params: one, returns: Some(Type { node: ret_ty }) };
    assert(chain_sig(t, params_call, with_ret, true) == done);
    assert(sig_of(t, returns_call) == done);
    let no_ret = SigModel { params: Map::empty(), returns: None };
    assert(chain_sig(t, params_call, no_ret, true) == (SigModel { params: one, returns: None }));
    assert(chain_sig(t, returns_call, no_ret, true) == chain_sig(t, params_call, no_ret, true));
}

/// The walk reads the tree and nothing else: two walks from one root over
/// trees with the same nodes hand out the same definitions, pull for pull.
pub proof fn law_walks_agree(t1: Seq<Node>, t2: Seq<Node>, root: usize, n: nat)
    requires
        t1 == t2,
    ensures
        pulled(t1, start(t1, root), n) == pulled(t2, start(t2, root), n),
{
}

} // verus!
