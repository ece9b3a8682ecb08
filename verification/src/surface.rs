//! The data model: declaration records, surface trees, and their
//! mathematical views.

use vstd::prelude::*;

verus! {

broadcast use vstd::std_specs::vec::axiom_vec_index_decreases;

/// The kind of a public declaration.
#[derive(Clone, Copy, PartialEq, Eq, Structural, Debug)]
pub enum DeclKind {
    Module,
    Function,
    Struct,
    Trait,
}

/// One public declaration as supplied by an external front-end: its kind, its
/// fully-qualified `::`-separated path, the lines of its doc comment, and its
/// generic parameter names in declaration order.
#[derive(Debug)]
pub struct Declaration {
    pub kind: DeclKind,
    pub qualified_path: String,
    pub doc_lines: Vec<String>,
    pub generics: Vec<String>,
}

/// A structured build error, carrying the offending qualified path.
#[derive(PartialEq, Eq, Debug)]
pub enum BuildError {
    /// A path segment is empty or holds a character that cannot appear in an
    /// identifier.
    MalformedPath(String),
    /// Two declarations claim the same kind and fully-qualified path.
    DuplicateDeclaration(String),
}

/// A node of the surface tree. Only `Module` nodes own children; the other
/// kinds are leaves.
#[derive(Debug)]
pub struct SurfaceNode {
    pub kind: DeclKind,
    pub name: String,
    pub doc_lines: Vec<String>,
    pub generics: Vec<String>,
    pub children: Vec<SurfaceNode>,
}

/// A whole surface: the synthetic root module, which exclusively owns every
/// descendant node. A root with an empty name is rendered without braces.
#[derive(Debug)]
pub struct SurfaceTree {
    pub root: SurfaceNode,
}

/// The mathematical view of a [`SurfaceNode`].
pub ghost struct NodeV {
    pub kind: DeclKind,
    pub name: Seq<char>,
    pub docs: Seq<String>,
    pub gens: Seq<String>,
    pub children: Seq<NodeV>,
}

/// The view of a node: its fields abstracted, children viewed recursively.
pub open spec fn node_view(n: SurfaceNode) -> NodeV
    decreases n, 1int, 0int,
{
    NodeV {
        kind: n.kind,
        name: n.name@,
        docs: n.doc_lines@,
        gens: n.generics@,
        children: children_view(n, 0),
    }
}

/// The views of `n`'s children from index `i` on.
pub open spec fn children_view(n: SurfaceNode, i: int) -> Seq<NodeV>
    decreases n, 0int, n.children@.len() - i,
{
    if i < 0 || i >= n.children@.len() {
        Seq::empty()
    } else {
        seq![node_view(n.children@[i])] + children_view(n, i + 1)
    }
}

/// `children_view(n, i)` lists exactly the views of `n.children[i..]`.
pub proof fn lemma_children_view(n: SurfaceNode, i: int)
    requires
        0 <= i <= n.children@.len(),
    ensures
        children_view(n, i).len() == n.children@.len() - i,
        forall|j: int|
            0 <= j < children_view(n, i).len() ==> children_view(n, i)[j] == node_view(
                n.children@[i + j],
            ),
    decreases n.children@.len() - i,
{
    if i < n.children@.len() {
        lemma_children_view(n, i + 1);
    }
}

/// Well-formedness: only `Module` nodes own children, recursively.
pub open spec fn wf_node(v: NodeV) -> bool
    decreases v, 1int,
{
    &&& (v.kind != DeclKind::Module ==> v.children.len() == 0)
    &&& wf_children(v.children, 0)
}

/// Well-formedness of every node of `cs[k..]`.
pub open spec fn wf_children(cs: Seq<NodeV>, k: int) -> bool
    decreases cs, cs.len() - k,
{
    if k < 0 || k >= cs.len() {
        true
    } else {
        wf_node(cs[k]) && wf_children(cs, k + 1)
    }
}

/// `wf_children` holds exactly when every listed node is well-formed.
pub proof fn lemma_wf_children(cs: Seq<NodeV>, k: int)
    requires
        0 <= k <= cs.len(),
    ensures
        wf_children(cs, k) <==> (forall|j: int| k <= j < cs.len() ==> wf_node(#[trigger] cs[j])),
    decreases cs.len() - k,
{
    if k < cs.len() {
        lemma_wf_children(cs, k + 1);
    }
}

/// The view of a node's children depends only on the child vector.
pub proof fn lemma_same_children(a: SurfaceNode, b: SurfaceNode)
    requires
        a.children@ == b.children@,
    ensures
        children_view(a, 0) == children_view(b, 0),
{
    lemma_children_view(a, 0);
    lemma_children_view(b, 0);
    assert(children_view(a, 0) =~= children_view(b, 0));
}

impl View for SurfaceNode {
    type V = NodeV;

    open spec fn view(&self) -> NodeV {
        node_view(*self)
    }
}

impl View for SurfaceTree {
    type V = NodeV;

    open spec fn view(&self) -> NodeV {
        node_view(self.root)
    }
}

} // verus!
