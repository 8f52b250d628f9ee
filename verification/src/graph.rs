//! The model of the processing graph: named nodes exposing typed attributes,
//! where an attribute is either a scalar leaf or a reference to another node.
//!
//! A node's identity is its name. An `AttributeHandle` is a pair of indices
//! (owning node, attribute slot) identifying one settable and gettable scalar
//! field; its invariant is that the slot holds a scalar whose stored value
//! matches the declared type descriptor.

use vstd::prelude::*;
use vstd::pervasive::unreached;
use crate::errors::EngineError;
use crate::value::{ScalarType, Value, ValueView, enum_member, parse_scalar, spec_scalar_ok,
    spec_value_matches};

verus! {

/// What one attribute slot holds: a scalar leaf, or an object reference to
/// another node of the same graph (an index into the graph's node store).
#[derive(Debug, Clone, PartialEq, Eq)]
pub enum AttrKind {
    Scalar { ty: ScalarType, value: Value },
    Object { node: usize },
}

/// One named attribute slot on a node.
#[derive(Debug, Clone, PartialEq, Eq)]
pub struct Attribute {
    pub name: String,
    pub kind: AttrKind,
}

/// A named unit of the processing graph.
#[derive(Debug, Clone, PartialEq, Eq)]
pub struct Node {
    pub name: String,
    pub attrs: Vec<Attribute>,
}

/// The composed processing graph: a store of nodes. Object-typed attributes
/// point into the store by index.
#[derive(Debug, Clone, PartialEq, Eq)]
pub struct NodeGraph {
    pub nodes: Vec<Node>,
}

/// A resolved scalar attribute: the owning node and the attribute slot.
#[derive(Debug, Clone, Copy, PartialEq, Eq, Structural)]
pub struct AttributeHandle {
    pub node: usize,
    pub attr: usize,
}

/// Whether a value inhabits a declared scalar type. An enumerated value must
/// be one of the declared names.
pub open spec fn value_has_type(v: ValueView, ty: &ScalarType) -> bool {
    match ty {
        ScalarType::Bool => v is Bool,
        ScalarType::Int => v is Int,
        ScalarType::Uint => v is Uint,
        ScalarType::Str => v is Str,
        ScalarType::Enum { names } => v matches ValueView::EnumName { s }
            && enum_member(names@, s),
    }
}

impl Node {
    /// Well-formedness of one node within a graph of `bound` nodes: attribute
    /// names are distinct, object references stay inside the graph, and every
    /// scalar value matches its declared type.
    pub open spec fn wf_in(self, bound: int) -> bool {
        &&& forall|a1: int, a2: int|
            0 <= a1 < a2 < self.attrs@.len()
                ==> (#[trigger] self.attrs@[a1]).name@ != (#[trigger] self.attrs@[a2]).name@
        &&& forall|a: int| 0 <= a < self.attrs@.len() ==> match (#[trigger] self.attrs@[a]).kind {
            AttrKind::Object { node } => node < bound,
            AttrKind::Scalar { ty, value } => value_has_type(value@, &ty),
        }
    }
}

impl NodeGraph {
    /// Well-formedness of the graph: node names are distinct (identity is the
    /// name) and every node is well formed.
    pub open spec fn wf(self) -> bool {
        &&& forall|n: int| 0 <= n < self.nodes@.len()
            ==> (#[trigger] self.nodes@[n]).wf_in(self.nodes@.len() as int)
        &&& forall|n1: int, n2: int|
            0 <= n1 < n2 < self.nodes@.len()
                ==> (#[trigger] self.nodes@[n1]).name@ != (#[trigger] self.nodes@[n2]).name@
    }

    /// Whether a handle points at a scalar attribute slot of this graph.
    pub open spec fn handle_ok(self, h: AttributeHandle) -> bool {
        &&& h.node < self.nodes@.len()
        &&& h.attr < self.nodes@[h.node as int].attrs@.len()
        &&& self.nodes@[h.node as int].attrs@[h.attr as int].kind is Scalar
    }

    /// The declared type at a handle.
    pub open spec fn attr_ty(self, h: AttributeHandle) -> ScalarType {
        self.nodes@[h.node as int].attrs@[h.attr as int].kind->Scalar_ty
    }

    /// The stored value at a handle.
    pub open spec fn attr_value(self, h: AttributeHandle) -> Value {
        self.nodes@[h.node as int].attrs@[h.attr as int].kind->Scalar_value
    }
}

/// The first node whose name is `name`, searching the store in order.
pub open spec fn spec_find_node(nodes: Seq<Node>, name: Seq<char>, i: int) -> Option<int>
    decreases nodes.len() - i when 0 <= i <= nodes.len()
{
    if i >= nodes.len() {
        None
    } else if nodes[i].name@ == name {
        Some(i)
    } else {
        spec_find_node(nodes, name, i + 1)
    }
}

/// The first attribute slot of `attrs` whose name is `name`.
pub open spec fn spec_find_attr(attrs: Seq<Attribute>, name: Seq<char>, i: int) -> Option<int>
    decreases attrs.len() - i when 0 <= i <= attrs.len()
{
    if i >= attrs.len() {
        None
    } else if attrs[i].name@ == name {
        Some(i)
    } else {
        spec_find_attr(attrs, name, i + 1)
    }
}

/// Looks a node up by name, the way the graph's own lookup does: the first
/// node carrying that name.
pub fn find_node(g: &NodeGraph, name: &String) -> (r: Option<usize>)
    ensures
        match r {
            Some(n) => spec_find_node(g.nodes@, name@, 0) == Some(n as int),
            None => spec_find_node(g.nodes@, name@, 0) is None,
        },
{
    let count = g.nodes.len();
    let mut i: usize = 0;
    while i < count
        invariant
            i <= count,
            count == g.nodes@.len(),
            spec_find_node(g.nodes@, name@, 0) == spec_find_node(g.nodes@, name@, i as int),
        decreases count - i,
    {
        if g.nodes[i].name.eq(name) {
            return Some(i);
        }
        i = i + 1;
    }
    None
}

/// Looks an attribute slot up by name on one node.
pub fn find_attr(node: &Node, name: &String) -> (r: Option<usize>)
    ensures
        match r {
            Some(a) => spec_find_attr(node.attrs@, name@, 0) == Some(a as int),
            None => spec_find_attr(node.attrs@, name@, 0) is None,
        },
{
    let count = node.attrs.len();
    let mut i: usize = 0;
    while i < count
        invariant
            i <= count,
            count == node.attrs@.len(),
            spec_find_attr(node.attrs@, name@, 0) == spec_find_attr(node.attrs@, name@, i as int),
        decreases count - i,
    {
        if node.attrs[i].name.eq(name) {
            return Some(i);
        }
        i = i + 1;
    }
    None
}

/// Reads the value stored at a resolved attribute. The read has no side
/// effect and returns exactly the stored value.
pub fn get_attribute<'a>(g: &'a NodeGraph, h: AttributeHandle) -> (r: &'a Value)
    requires
        g.handle_ok(h),
    ensures
        *r == g.attr_value(h),
{
    let node = &g.nodes[h.node];
    let attr = &node.attrs[h.attr];
    match &attr.kind {
        AttrKind::Scalar { ty: _, value } => value,
        AttrKind::Object { .. } => unreached(),
    }
}

/// Everything outside the one attribute slot `h` is the same in `g1` and
/// `g2`, and the slot itself kept its name and declared type.
pub open spec fn graph_unchanged_except(g1: NodeGraph, g2: NodeGraph, h: AttributeHandle) -> bool {
    &&& g2.nodes@.len() == g1.nodes@.len()
    &&& forall|n: int| 0 <= n < g1.nodes@.len() && n != h.node as int
        ==> #[trigger] g2.nodes@[n] == g1.nodes@[n]
    &&& g2.nodes@[h.node as int].name@ == g1.nodes@[h.node as int].name@
    &&& g2.nodes@[h.node as int].attrs@.len() == g1.nodes@[h.node as int].attrs@.len()
    &&& forall|a: int| 0 <= a < g1.nodes@[h.node as int].attrs@.len() && a != h.attr as int
        ==> #[trigger] g2.nodes@[h.node as int].attrs@[a]
            == g1.nodes@[h.node as int].attrs@[a]
    &&& g2.nodes@[h.node as int].attrs@[h.attr as int].name@
        == g1.nodes@[h.node as int].attrs@[h.attr as int].name@
    &&& g2.attr_ty(h) == g1.attr_ty(h)
}

/// Writes an attribute: parses `input` at the slot's declared type and stores
/// the parsed value, mutating the live graph immediately. A string with no
/// reading at that type is a `TypeMismatch` and the graph is untouched.
pub fn set_attribute(g: &mut NodeGraph, h: AttributeHandle, input: &str) -> (r: Result<
    (),
    EngineError,
>)
    requires
        old(g).wf(),
        old(g).handle_ok(h),
    ensures
        final(g).wf(),
        final(g).handle_ok(h),
        match r {
            Ok(()) => {
                &&& spec_scalar_ok(&old(g).attr_ty(h), input@)
                &&& spec_value_matches(&old(g).attr_ty(h), input@, final(g).attr_value(h)@)
                &&& graph_unchanged_except(*old(g), *final(g), h)
            },
            Err(e) => {
                &&& *final(g) == *old(g)
                &&& !spec_scalar_ok(&old(g).attr_ty(h), input@)
                &&& (e matches EngineError::TypeMismatch { input: i } && i@ == input@)
            },
        },
{
    let node_ref = &g.nodes[h.node];
    let attr_ref = &node_ref.attrs[h.attr];
    let parsed = match &attr_ref.kind {
        AttrKind::Scalar { ty, value: _ } => parse_scalar(ty, input),
        AttrKind::Object { .. } => unreached(),
    };
    match parsed {
        Err(e) => Err(e),
        Ok(v) => {
            let ghost g0 = *g;
            let node = &mut g.nodes[h.node];
            let attr = &mut node.attrs[h.attr];
            match &mut attr.kind {
                AttrKind::Scalar { ty: _, value } => {
                    *value = v;
                },
                AttrKind::Object { .. } => unreached(),
            }
            proof {
                lemma_matched_value_has_type(&g0.attr_ty(h), input@, v@);
                assert(g.nodes@ =~= g0.nodes@.update(
                    h.node as int,
                    g.nodes@[h.node as int],
                ));
                assert forall|n: int| 0 <= n < g.nodes@.len() implies (#[trigger] g.nodes@[n])
                    .wf_in(g.nodes@.len() as int) by {
                    if n != h.node as int {
                        assert(g.nodes@[n] == g0.nodes@[n]);
                    } else {
                        let old_node = g0.nodes@[n];
                        let new_node = g.nodes@[n];
                        assert forall|a: int| 0 <= a < new_node.attrs@.len() implies match (
                        #[trigger] new_node.attrs@[a]).kind {
                            AttrKind::Object { node } => node < g.nodes@.len(),
                            AttrKind::Scalar { ty, value } => value_has_type(value@, &ty),
                        } by {
                            if a != h.attr as int {
                                assert(new_node.attrs@[a] == old_node.attrs@[a]);
                            }
                        }
                    }
                }
            }
            Ok(())
        },
    }
}

/// A value that is the canonical reading of some input at a type inhabits
/// that type.
pub proof fn lemma_matched_value_has_type(ty: &ScalarType, input: Seq<char>, v: ValueView)
    requires
        spec_value_matches(ty, input, v),
    ensures
        value_has_type(v, ty),
{
}

/// Law: a `set` followed by a `get` on the same handle yields a value
/// canonically equal to the parsed input, for every supported scalar type.
/// `g2` is the graph a successful `set` of `input` left behind; any canonical
/// reading `v` of the same input at the slot's declared type is exactly what
/// `get` returns.
pub proof fn lemma_set_get_round_trip(
    g1: NodeGraph,
    g2: NodeGraph,
    h: AttributeHandle,
    input: Seq<char>,
    v: ValueView,
)
    requires
        spec_value_matches(&g1.attr_ty(h), input, g2.attr_value(h)@),
        spec_value_matches(&g1.attr_ty(h), input, v),
    ensures
        g2.attr_value(h)@ == v,
{
    crate::value::lemma_canonical_reading_unique(&g1.attr_ty(h), input, g2.attr_value(h)@, v);
}

} // verus!
