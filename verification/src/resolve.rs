//! Dotted-path resolution through the node graph.
//!
//! A property path is split on the fixed `::` delimiter. The first token names
//! a node of the graph; each further token names an attribute of the current
//! object. An object-typed attribute is only a stepping stone: resolution
//! continues inside it and the pending handle is cleared. Resolution succeeds
//! exactly when the tokens end with a scalar attribute pending; a path that
//! ends on an object hop, or that puts tokens after a scalar, is malformed.

use vstd::prelude::*;
use crate::errors::EngineError;
use crate::graph::{AttrKind, AttributeHandle, NodeGraph, find_attr, find_node, spec_find_attr,
    spec_find_node};
use crate::value::{Value, spec_scalar_ok, spec_value_matches};
use crate::graph::{get_attribute, graph_unchanged_except, set_attribute};

verus! {

/// Whether the two-character delimiter sits at position `i` of `s`.
pub open spec fn delim_at(s: Seq<char>, i: int) -> bool {
    0 <= i && i + 2 <= s.len() && s[i] == ':' && s[i + 1] == ':'
}

/// The position of the leftmost delimiter of `s`, if any.
pub open spec fn find_delim(s: Seq<char>) -> Option<int>
    decreases s.len(),
{
    if s.len() < 2 {
        None
    } else if s[0] == ':' && s[1] == ':' {
        Some(0)
    } else {
        match find_delim(s.skip(1)) {
            Some(i) => Some(i + 1),
            None => None,
        }
    }
}

/// The leftmost delimiter is a delimiter, and nothing before it is one; when
/// there is none, no position holds one.
pub proof fn lemma_find_delim_char(s: Seq<char>)
    ensures
        match find_delim(s) {
            Some(i) => delim_at(s, i) && forall|j: int| 0 <= j < i ==> !delim_at(s, j),
            None => forall|j: int| !delim_at(s, j),
        },
    decreases s.len(),
{
    if s.len() < 2 {
        assert forall|j: int| !delim_at(s, j) by {}
    } else if s[0] == ':' && s[1] == ':' {
    } else {
        lemma_find_delim_char(s.skip(1));
        assert forall|j: int| #[trigger] delim_at(s, j) == delim_at(s.skip(1), j - 1) by {
            if 0 <= j - 1 && j + 1 <= s.len() {
                assert(s.skip(1)[j - 1] == s[j]);
                if j + 2 <= s.len() {
                    assert(s.skip(1)[j] == s[j + 1]);
                }
            }
        }
        assert(!delim_at(s, 0));
        match find_delim(s.skip(1)) {
            Some(i) => {
                assert(delim_at(s.skip(1), i));
                assert(delim_at(s, i + 1));
                assert forall|j: int| 0 <= j < i + 1 implies !delim_at(s, j) by {
                    if j > 0 {
                        assert(!delim_at(s.skip(1), j - 1));
                    }
                }
            },
            None => {
                assert forall|j: int| !delim_at(s, j) by {
                    if j > 0 {
                        assert(!delim_at(s.skip(1), j - 1));
                    }
                }
            },
        }
    }
}

/// A leftmost delimiter leaves room for itself.
pub proof fn lemma_find_delim_bounds(s: Seq<char>)
    ensures
        match find_delim(s) {
            Some(i) => 0 <= i && i + 2 <= s.len(),
            None => true,
        },
{
    lemma_find_delim_char(s);
}

/// The tokens of a property path: the text split on every leftmost `::`, in
/// order. A path with no delimiter is one token; splitting never drops text.
pub open spec fn spec_split(s: Seq<char>) -> Seq<Seq<char>>
    decreases s.len() via spec_split_decreases
{
    match find_delim(s) {
        None => seq![s],
        Some(i) => seq![s.take(i)] + spec_split(s.skip(i + 2)),
    }
}

#[via_fn]
proof fn spec_split_decreases(s: Seq<char>) {
    lemma_find_delim_bounds(s);
}

/// Scans for the leftmost delimiter at or after `start`.
fn find_delim_from(s: &str, start: usize, len: usize) -> (r: Option<usize>)
    requires
        len == s@.len(),
        start <= len,
    ensures
        match r {
            Some(p) => start <= p && delim_at(s@, p as int) && forall|j: int|
                start <= j < p ==> !delim_at(s@, j),
            None => forall|j: int| j >= start ==> !delim_at(s@, j),
        },
{
    if len < 2 || start > len - 2 {
        proof {
            assert forall|j: int| j >= start implies !delim_at(s@, j) by {}
        }
        return None;
    }
    let mut p: usize = start;
    while p <= len - 2
        invariant
            start <= p,
            p <= len - 1,
            len >= 2,
            len == s@.len(),
            forall|j: int| start <= j < p ==> !delim_at(s@, j),
        decreases len - p,
    {
        let c0 = s.get_char(p);
        let c1 = s.get_char(p + 1);
        if c0 == ':' && c1 == ':' {
            return Some(p);
        }
        p = p + 1;
    }
    proof {
        assert forall|j: int| j >= start implies !delim_at(s@, j) by {}
    }
    None
}

/// Splits a property path on the fixed `::` delimiter, leftmost first.
pub fn split_path(s: &str) -> (tokens: Vec<String>)
    ensures
        tokens@.map_values(|t: String| t@) == spec_split(s@),
        tokens@.len() >= 1,
{
    let len = s.unicode_len();
    let mut tokens: Vec<String> = Vec::new();
    let mut start: usize = 0;
    proof {
        assert(s@.skip(0) =~= s@);
        assert(tokens@.map_values(|t: String| t@) =~= Seq::<Seq<char>>::empty());
    }
    loop
        invariant
            start <= len,
            len == s@.len(),
            tokens@.map_values(|t: String| t@) + spec_split(s@.skip(start as int))
                == spec_split(s@),
        decreases len - start,
    {
        let ghost rest = s@.skip(start as int);
        let found = find_delim_from(s, start, len);
        proof {
            lemma_find_delim_char(rest);
            assert forall|k: int| k >= 0 implies #[trigger] delim_at(rest, k) == delim_at(
                s@,
                start + k,
            ) by {
                if k + 2 <= rest.len() {
                    assert(rest[k] == s@[start + k]);
                    assert(rest[k + 1] == s@[start + k + 1]);
                }
            }
        }
        match found {
            None => {
                proof {
                    assert forall|k: int| !delim_at(rest, k) by {
                        if k >= 0 {
                            assert(!delim_at(s@, start + k));
                        }
                    }
                    assert(find_delim(rest) is None) by {
                        match find_delim(rest) {
                            Some(i2) => {
                                assert(delim_at(rest, i2));
                            },
                            None => {},
                        }
                    }
                    assert(spec_split(rest) == seq![rest]);
                }
                let tail = s.substring_char(start, len);
                tokens.push(tail.to_owned());
                proof {
                    assert(tail@ == rest) by {
                        assert(s@.subrange(start as int, len as int) =~= rest);
                    }
                    assert(tokens@.map_values(|t: String| t@) =~= tokens@.drop_last()
                        .map_values(|t: String| t@).push(rest));
                }
                return tokens;
            },
            Some(p) => {
                proof {
                    let prel = p - start;
                    assert(delim_at(rest, prel)) by {
                        assert(delim_at(s@, start + prel));
                    }
                    assert forall|j: int| 0 <= j < prel implies !delim_at(rest, j) by {
                        assert(!delim_at(s@, start + j));
                    }
                    assert(find_delim(rest) == Some(prel)) by {
                        match find_delim(rest) {
                            Some(i) => {
                                if i < prel {
                                    assert(delim_at(rest, i));
                                } else if i > prel {
                                    assert(!delim_at(rest, prel));
                                }
                            },
                            None => {
                                assert(!delim_at(rest, prel));
                            },
                        }
                    }
                    assert(spec_split(rest) == seq![rest.take(prel)] + spec_split(
                        rest.skip(prel + 2),
                    ));
                }
                let token = s.substring_char(start, p);
                tokens.push(token.to_owned());
                proof {
                    assert(token@ == rest.take(p - start)) by {
                        assert(s@.subrange(start as int, p as int) =~= rest.take(p - start));
                    }
                    assert(rest.skip(p - start + 2) =~= s@.skip(p as int + 2));
                    assert(tokens@.map_values(|t: String| t@) =~= tokens@.drop_last()
                        .map_values(|t: String| t@).push(rest.take(p - start)));
                }
                start = p + 2;
            },
        }
    }
}

/// A resolution failure, over mathematical values.
pub enum ResolveErr {
    /// No node or attribute carries the token's name.
    NotFound { token: Seq<char> },
    /// The path ended on an object hop, or continued past a scalar.
    Malformed,
}

/// Resolution from token `i` onward, standing at node `cur`, with `pending`
/// holding the scalar attribute the previous token resolved to, if any.
///
/// A pending scalar followed by another token is malformed; an object-typed
/// attribute moves the walk into the referenced node and clears the pending
/// handle; tokens ending with nothing pending is malformed.
pub open spec fn spec_resolve_from(
    nodes: Seq<crate::graph::Node>,
    cur: int,
    tokens: Seq<Seq<char>>,
    i: int,
    pending: Option<AttributeHandle>,
) -> Result<AttributeHandle, ResolveErr>
    decreases tokens.len() - i when 0 <= i <= tokens.len()
{
    if i >= tokens.len() {
        match pending {
            Some(h) => Ok(h),
            None => Err(ResolveErr::Malformed),
        }
    } else if pending is Some {
        Err(ResolveErr::Malformed)
    } else {
        match spec_find_attr(nodes[cur].attrs@, tokens[i], 0) {
            None => Err(ResolveErr::NotFound { token: tokens[i] }),
            Some(a) => match nodes[cur].attrs@[a].kind {
                AttrKind::Object { node } => spec_resolve_from(nodes, node as int, tokens, i + 1, None),
                AttrKind::Scalar { .. } => spec_resolve_from(
                    nodes,
                    cur,
                    tokens,
                    i + 1,
                    Some(AttributeHandle { node: cur as usize, attr: a as usize }),
                ),
            },
        }
    }
}

/// Full resolution of a path against a graph: split the path, look the first
/// token up as a node of the graph, then walk the remaining tokens.
pub open spec fn spec_resolve(nodes: Seq<crate::graph::Node>, path: Seq<char>) -> Result<
    AttributeHandle,
    ResolveErr,
> {
    let tokens = spec_split(path);
    match spec_find_node(nodes, tokens[0], 0) {
        None => Err(ResolveErr::NotFound { token: tokens[0] }),
        Some(n) => spec_resolve_from(nodes, n, tokens, 1, None),
    }
}

/// Whether the engine error `e` renders the resolution failure `se`.
pub open spec fn resolve_err_matches(se: ResolveErr, e: EngineError) -> bool {
    match se {
        ResolveErr::NotFound { token } => e matches EngineError::NotFound { token: t }
            && t@ == token,
        ResolveErr::Malformed => e == EngineError::MalformedPath,
    }
}

/// Resolves a dotted property path to a scalar attribute handle.
///
/// A token that names nothing fails with `NotFound` carrying that exact
/// token; a path that ends on an object hop, or continues past a scalar,
/// fails with `MalformedPath`. A returned handle is always a valid scalar
/// slot of the graph.
pub fn resolve(g: &NodeGraph, path: &str) -> (r: Result<AttributeHandle, EngineError>)
    requires
        g.wf(),
    ensures
        match r {
            Ok(h) => spec_resolve(g.nodes@, path@) == Ok::<AttributeHandle, ResolveErr>(h)
                && g.handle_ok(h),
            Err(e) => spec_resolve(g.nodes@, path@) matches Err(se) && resolve_err_matches(se, e),
        },
{
    let tokens = split_path(path);
    let ghost toks = tokens@.map_values(|t: String| t@);
    proof {
        assert(toks[0] == tokens@[0]@);
    }
    let first = find_node(g, &tokens[0]);
    let mut cur: usize = match first {
        None => {
            return Err(EngineError::NotFound { token: tokens[0].clone() });
        },
        Some(n) => n,
    };
    proof {
        lemma_find_node_in_range(g.nodes@, toks[0], 0);
    }
    let count = tokens.len();
    let mut i: usize = 1;
    let mut pending: Option<AttributeHandle> = None;
    while i < count
        invariant
            1 <= i <= count,
            count == tokens@.len(),
            toks == tokens@.map_values(|t: String| t@),
            g.wf(),
            cur < g.nodes@.len(),
            match pending {
                Some(h) => g.handle_ok(h),
                None => true,
            },
            spec_resolve(g.nodes@, path@) == spec_resolve_from(
                g.nodes@,
                cur as int,
                toks,
                i as int,
                pending,
            ),
        decreases count - i,
    {
        proof {
            assert(toks[i as int] == tokens@[i as int]@);
        }
        if pending.is_some() {
            return Err(EngineError::MalformedPath);
        }
        let node_ref = &g.nodes[cur];
        let found = find_attr(node_ref, &tokens[i]);
        match found {
            None => {
                return Err(EngineError::NotFound { token: tokens[i].clone() });
            },
            Some(a) => {
                proof {
                    lemma_find_attr_in_range(node_ref.attrs@, toks[i as int], 0);
                }
                let is_object = match &node_ref.attrs[a].kind {
                    AttrKind::Object { node } => Some(*node),
                    AttrKind::Scalar { .. } => None,
                };
                match is_object {
                    Some(next) => {
                        proof {
                            assert(node_ref.wf_in(g.nodes@.len() as int));
                        }
                        cur = next;
                        pending = None;
                    },
                    None => {
                        pending = Some(AttributeHandle { node: cur, attr: a });
                    },
                }
            },
        }
        i = i + 1;
    }
    match pending {
        Some(h) => Ok(h),
        None => Err(EngineError::MalformedPath),
    }
}

/// Law: resolution is deterministic. Two resolutions of the same path against
/// the same, unmodified graph return handles to the same attribute slot.
pub proof fn lemma_resolution_deterministic(
    g: NodeGraph,
    path: Seq<char>,
    r1: Result<AttributeHandle, ResolveErr>,
    r2: Result<AttributeHandle, ResolveErr>,
)
    requires
        r1 == spec_resolve(g.nodes@, path),
        r2 == spec_resolve(g.nodes@, path),
    ensures
        r1 == r2,
{
}

/// Law: a path whose first token names no node fails with `NotFound` carrying
/// exactly that token, whatever its depth.
pub proof fn lemma_first_token_not_found(g: NodeGraph, path: Seq<char>)
    requires
        spec_find_node(g.nodes@, spec_split(path)[0], 0) is None,
    ensures
        spec_resolve(g.nodes@, path) == Err::<AttributeHandle, ResolveErr>(
            ResolveErr::NotFound { token: spec_split(path)[0] },
        ),
{
}

/// Law: a resolution can only succeed with a handle to a scalar slot of the
/// graph: a path that ends on an object hop never yields a handle.
pub proof fn lemma_resolved_handle_is_scalar(
    nodes: Seq<crate::graph::Node>,
    cur: int,
    tokens: Seq<Seq<char>>,
    i: int,
    pending: Option<AttributeHandle>,
    g: NodeGraph,
)
    requires
        g.nodes@ == nodes,
        g.wf(),
        0 <= i <= tokens.len(),
        0 <= cur < nodes.len(),
        pending matches Some(h) ==> g.handle_ok(h),
    ensures
        spec_resolve_from(nodes, cur, tokens, i, pending) matches Ok(h) ==> g.handle_ok(h),
    decreases tokens.len() - i,
{
    if i >= tokens.len() {
    } else if pending is Some {
    } else {
        match spec_find_attr(nodes[cur].attrs@, tokens[i], 0) {
            None => {},
            Some(a) => {
                lemma_find_attr_in_range(nodes[cur].attrs@, tokens[i], 0);
                assert(nodes[cur].wf_in(nodes.len() as int));
                assert(g.nodes.len() == g.nodes@.len());
                assert(nodes[cur].attrs.len() == nodes[cur].attrs@.len());
                match nodes[cur].attrs@[a].kind {
                    AttrKind::Object { node } => {
                        lemma_resolved_handle_is_scalar(nodes, node as int, tokens, i + 1, None, g);
                    },
                    AttrKind::Scalar { .. } => {
                        lemma_resolved_handle_is_scalar(
                            nodes,
                            cur,
                            tokens,
                            i + 1,
                            Some(AttributeHandle { node: cur as usize, attr: a as usize }),
                            g,
                        );
                    },
                }
            },
        }
    }
}

/// A found node index lies inside the store.
pub proof fn lemma_find_node_in_range(nodes: Seq<crate::graph::Node>, name: Seq<char>, i: int)
    requires
        0 <= i <= nodes.len(),
    ensures
        spec_find_node(nodes, name, i) matches Some(n) ==> i <= n < nodes.len(),
    decreases nodes.len() - i,
{
    if i < nodes.len() && nodes[i].name@ != name {
        lemma_find_node_in_range(nodes, name, i + 1);
    }
}

/// A found attribute index lies inside the node's slots.
pub proof fn lemma_find_attr_in_range(attrs: Seq<crate::graph::Attribute>, name: Seq<char>, i: int)
    requires
        0 <= i <= attrs.len(),
    ensures
        spec_find_attr(attrs, name, i) matches Some(a) ==> i <= a < attrs.len(),
    decreases attrs.len() - i,
{
    if i < attrs.len() && attrs[i].name@ != name {
        lemma_find_attr_in_range(attrs, name, i + 1);
    }
}

/// Resolves a path and writes the attribute it names: the `set` of the
/// engine's contract surface. Parsing and the write follow `set_attribute`;
/// the mutation hits the live graph immediately.
pub fn set_property(g: &mut NodeGraph, path: &str, input: &str) -> (r: Result<(), EngineError>)
    requires
        old(g).wf(),
    ensures
        final(g).wf(),
        match r {
            Ok(()) => {
                &&& spec_resolve(old(g).nodes@, path@) matches Ok(h)
                &&& spec_scalar_ok(&old(g).attr_ty(h), input@)
                &&& spec_value_matches(&old(g).attr_ty(h), input@, final(g).attr_value(h)@)
                &&& graph_unchanged_except(*old(g), *final(g), h)
            },
            Err(e) => match spec_resolve(old(g).nodes@, path@) {
                Err(se) => *final(g) == *old(g) && resolve_err_matches(se, e),
                Ok(h) => *final(g) == *old(g) && !spec_scalar_ok(&old(g).attr_ty(h), input@)
                    && (e matches EngineError::TypeMismatch { input: s } && s@ == input@),
            },
        },
{
    let h = match resolve(g, path) {
        Ok(h) => h,
        Err(e) => {
            return Err(e);
        },
    };
    set_attribute(g, h, input)
}

/// Resolves a path and reads the attribute it names: the `get` of the
/// engine's contract surface. The read returns exactly the stored value.
pub fn get_property<'a>(g: &'a NodeGraph, path: &str) -> (r: Result<&'a Value, EngineError>)
    requires
        g.wf(),
    ensures
        match r {
            Ok(v) => spec_resolve(g.nodes@, path@) matches Ok(h) && *v == g.attr_value(h),
            Err(e) => spec_resolve(g.nodes@, path@) matches Err(se) && resolve_err_matches(se, e),
        },
{
    let h = match resolve(g, path) {
        Ok(h) => h,
        Err(e) => {
            return Err(e);
        },
    };
    Ok(get_attribute(g, h))
}

} // verus!
