//! Proved properties that relate the builder and the renderer.

use vstd::prelude::*;
use crate::builder::{
    build_from, decl_node, find_module_child, fresh_module, lemma_find_module_child, root_node,
    seen_contains, spec_build, spec_insert, BuildOutcome,
};
use crate::path::{lemma_seg_end, path_segments, seg_end, segs_from, valid_path};
use crate::render::{children_text, decl_text, doc_text, node_text, tree_text};
use crate::surface::{lemma_wf_children, wf_children, wf_node, DeclKind, Declaration, NodeV};

verus! {

/// Rendering is deterministic: the rendered text is a function of the tree
/// alone, so any two renderings of the same tree are byte-identical.
pub proof fn lemma_render_deterministic(v: NodeV, s1: Seq<char>, s2: Seq<char>)
    requires
        s1 == tree_text(v),
        s2 == tree_text(v),
    ensures
        s1 == s2,
{
}

/// Doc comment fidelity: a node with a single doc line renders exactly one
/// `/// <line>` line, at the node's own indentation, immediately above its
/// declaration text.
pub proof fn lemma_doc_comment_fidelity(v: NodeV, pre: Seq<char>, line: String)
    requires
        v.docs == seq![line],
    ensures
        node_text(v, pre) == pre + "/// "@ + line@ + "\n"@ + decl_text(v, pre),
{
    assert(doc_text(v.docs, 1, pre) =~= Seq::<char>::empty());
    assert(node_text(v, pre) =~= pre + "/// "@ + line@ + "\n"@ + decl_text(v, pre));
}

/// A path whose segment list is a singleton is that one segment, whole.
proof fn lemma_single_segment(p: Seq<char>)
    requires
        path_segments(p).len() == 1,
    ensures
        path_segments(p)[0] == p,
{
    lemma_seg_end(p, 0);
    let e = seg_end(p, 0);
    if e < p.len() {
        lemma_seg_end(p, e + 2);
        assert(segs_from(p, e + 2).len() >= 1);
        assert(false);
    }
    assert(p.subrange(0, p.len() as int) =~= p);
}

/// Folding top-level module declarations with pairwise-distinct fresh names
/// appends one root child per declaration, in declaration order.
proof fn lemma_order_from(
    t: NodeV,
    seen: Seq<(DeclKind, Seq<char>)>,
    decls: Seq<Declaration>,
    c: int,
)
    requires
        0 <= c <= decls.len(),
        forall|k: int| c <= k < decls.len() ==> (#[trigger] decls[k]).kind == DeclKind::Module,
        forall|k: int|
            c <= k < decls.len() ==> valid_path((#[trigger] decls[k]).qualified_path@),
        forall|k: int|
            c <= k < decls.len() ==> path_segments((#[trigger] decls[k]).qualified_path@).len()
                == 1,
        forall|k1: int, k2: int|
            c <= k1 < k2 < decls.len() ==> (#[trigger] decls[k1]).qualified_path@ != (
            #[trigger] decls[k2]).qualified_path@,
        forall|k: int, j: int|
            c <= k < decls.len() && 0 <= j < t.children.len() ==> (#[trigger] t.children[j]).name
                != (#[trigger] decls[k]).qualified_path@,
        forall|k: int|
            c <= k < decls.len() ==> !seen_contains(
                seen,
                DeclKind::Module,
                (#[trigger] decls[k]).qualified_path@,
            ),
    ensures
        match build_from(t, seen, decls, c) {
            BuildOutcome::Built(v) => {
                &&& v.name == t.name
                &&& v.children.len() == t.children.len() + (decls.len() - c)
                &&& forall|j: int|
                    0 <= j < t.children.len() ==> #[trigger] v.children[j] == t.children[j]
                &&& forall|k: int|
                    c <= k < decls.len() ==> (#[trigger] v.children[t.children.len() + (k
                        - c)]).kind == DeclKind::Module && v.children[t.children.len() + (k
                        - c)].name == decls[k].qualified_path@
            },
            _ => false,
        },
    decreases decls.len() - c,
{
    if c < decls.len() {
        let d = decls[c];
        let p = d.qualified_path@;
        lemma_single_segment(p);
        lemma_find_module_child(t.children, p);
        assert(find_module_child(t.children, p) == -1);
        let t2 = NodeV { children: t.children.push(decl_node(d, p)), ..t };
        assert(spec_insert(t, path_segments(p), 0, d) == t2);
        let seen2 = seen.push((DeclKind::Module, p));
        assert forall|k: int| c + 1 <= k < decls.len() implies !seen_contains(
            seen2,
            DeclKind::Module,
            (#[trigger] decls[k]).qualified_path@,
        ) by {
            let q = decls[k].qualified_path@;
            if seen_contains(seen2, DeclKind::Module, q) {
                let j = choose|j: int| 0 <= j < seen2.len() && seen2[j] == (DeclKind::Module, q);
                if j < seen.len() {
                    assert(seen_contains(seen, DeclKind::Module, q));
                } else {
                    assert(q == p);
                }
                assert(false);
            }
        }
        lemma_order_from(t2, seen2, decls, c + 1);
        let r2 = build_from(t2, seen2, decls, c + 1);
        assert(build_from(t, seen, decls, c) == r2);
        match r2 {
            BuildOutcome::Built(v) => {
                assert forall|jj: int| 0 <= jj < t.children.len() implies #[trigger] v.children[jj]
                    == t.children[jj] by {
                    assert(v.children[jj] == t2.children[jj]);
                }
                assert forall|k: int| c <= k < decls.len() implies (#[trigger] v.children[
                    t.children.len() + (k - c)
                ]).kind == DeclKind::Module && v.children[t.children.len() + (k - c)].name
                    == decls[k].qualified_path@ by {
                    if k == c {
                        assert(v.children[t.children.len() as int] == t2.children[
                            t.children.len() as int
                        ]);
                        assert(t2.children[t.children.len() as int] == decl_node(d, p));
                    } else {
                        assert((v.children[t2.children.len() + (k - (c + 1))]).kind
                            == DeclKind::Module && v.children[t2.children.len() + (k - (c
                            + 1))].name == decls[k].qualified_path@);
                        assert(t2.children.len() + (k - (c + 1)) == t.children.len() + (k - c));
                    }
                }
            },
            _ => {
                assert(false);
            },
        }
    }
}

/// Round-trip ordering: a list of top-level module declarations with
/// pairwise-distinct valid single-segment paths builds to a root whose
/// children stand in declaration order, one per declaration, under the
/// declared names; since the root keeps its empty name, its rendered text is
/// `children_text` of those children, which concatenates their texts
/// strictly in that order, not in any sorted order.
pub proof fn lemma_declaration_order(decls: Seq<Declaration>)
    requires
        forall|k: int| 0 <= k < decls.len() ==> (#[trigger] decls[k]).kind == DeclKind::Module,
        forall|k: int|
            0 <= k < decls.len() ==> valid_path((#[trigger] decls[k]).qualified_path@),
        forall|k: int|
            0 <= k < decls.len() ==> path_segments((#[trigger] decls[k]).qualified_path@).len()
                == 1,
        forall|k1: int, k2: int|
            0 <= k1 < k2 < decls.len() ==> (#[trigger] decls[k1]).qualified_path@ != (
            #[trigger] decls[k2]).qualified_path@,
    ensures
        match spec_build(decls) {
            BuildOutcome::Built(v) => {
                &&& v.children.len() == decls.len()
                &&& forall|k: int|
                    0 <= k < decls.len() ==> (#[trigger] v.children[k]).kind == DeclKind::Module
                        && v.children[k].name == decls[k].qualified_path@
                &&& tree_text(v) == children_text(v.children, 0, Seq::empty())
            },
            _ => false,
        },
{
    lemma_order_from(root_node(), Seq::empty(), decls, 0);
    match spec_build(decls) {
        BuildOutcome::Built(v) => {
            assert forall|k: int| 0 <= k < decls.len() implies (#[trigger] v.children[k]).kind
                == DeclKind::Module && v.children[k].name == decls[k].qualified_path@ by {
                assert((v.children[root_node().children.len() + (k - 0)]).kind == DeclKind::Module
                    && v.children[root_node().children.len() + (k - 0)].name
                    == decls[k].qualified_path@);
            }
        },
        _ => {
            assert(false);
        },
    }
}

/// Inserting below a well-formed module keeps the tree well-formed.
proof fn lemma_insert_wf(t: NodeV, segs: Seq<Seq<char>>, i: int, d: Declaration)
    requires
        wf_node(t),
        t.kind == DeclKind::Module,
        0 <= i < segs.len(),
    ensures
        wf_node(spec_insert(t, segs, i, d)),
        spec_insert(t, segs, i, d).kind == DeclKind::Module,
    decreases segs.len() - i,
{
    lemma_find_module_child(t.children, segs[i]);
    lemma_wf_children(t.children, 0);
    let j = find_module_child(t.children, segs[i]);
    let r = spec_insert(t, segs, i, d);
    if i == segs.len() - 1 {
        if d.kind == DeclKind::Module && j >= 0 {
            let c2 = NodeV { docs: d.doc_lines@, gens: d.generics@, ..t.children[j] };
            assert(wf_children(c2.children, 0) == wf_children(t.children[j].children, 0));
            assert(wf_node(c2));
            lemma_wf_children(r.children, 0);
        } else {
            assert(wf_children(decl_node(d, segs[i]).children, 0));
            assert(wf_node(decl_node(d, segs[i])));
            lemma_wf_children(r.children, 0);
        }
    } else {
        if j >= 0 {
            lemma_insert_wf(t.children[j], segs, i + 1, d);
            lemma_wf_children(r.children, 0);
        } else {
            let fresh = fresh_module(segs[i]);
            assert(wf_children(fresh.children, 0));
            assert(wf_node(fresh));
            lemma_insert_wf(fresh, segs, i + 1, d);
            lemma_wf_children(r.children, 0);
        }
    }
}

/// The fold from a well-formed module root only builds well-formed modules.
proof fn lemma_build_wf(
    t: NodeV,
    seen: Seq<(DeclKind, Seq<char>)>,
    decls: Seq<Declaration>,
    c: int,
)
    requires
        0 <= c <= decls.len(),
        wf_node(t),
        t.kind == DeclKind::Module,
    ensures
        match build_from(t, seen, decls, c) {
            BuildOutcome::Built(v) => wf_node(v) && v.kind == DeclKind::Module,
            _ => true,
        },
    decreases decls.len() - c,
{
    if c < decls.len() {
        let d = decls[c];
        let p = d.qualified_path@;
        if valid_path(p) && !seen_contains(seen, d.kind, p) {
            assert(path_segments(p).len() >= 1);
            lemma_insert_wf(t, path_segments(p), 0, d);
            lemma_build_wf(spec_insert(t, path_segments(p), 0, d), seen.push((d.kind, p)), decls, c + 1);
        }
    }
}

/// Structural invariant: whatever declaration list a surface is built from,
/// every non-module node of the result is a leaf.
pub proof fn lemma_built_tree_well_formed(decls: Seq<Declaration>)
    ensures
        match spec_build(decls) {
            BuildOutcome::Built(v) => wf_node(v) && v.kind == DeclKind::Module,
            _ => true,
        },
{
    assert(wf_children(root_node().children, 0));
    lemma_build_wf(root_node(), Seq::empty(), decls, 0);
}

/// A key in `seen` stays in `seen` after a push.
proof fn lemma_seen_push(
    seen: Seq<(DeclKind, Seq<char>)>,
    entry: (DeclKind, Seq<char>),
    kind: DeclKind,
    path: Seq<char>,
)
    requires
        seen_contains(seen, kind, path),
    ensures
        seen_contains(seen.push(entry), kind, path),
{
    let j = choose|j: int| 0 <= j < seen.len() && seen[j] == (kind, path);
    assert(seen.push(entry)[j] == (kind, path));
}

/// Once the key of `decls[j]` stands in `seen` and every path up to `j` is
/// valid, the fold ends in `DuplicateDeclaration`.
proof fn lemma_duplicate_from(
    t: NodeV,
    seen: Seq<(DeclKind, Seq<char>)>,
    decls: Seq<Declaration>,
    c: int,
    j: int,
)
    requires
        0 <= c <= j < decls.len(),
        seen_contains(seen, decls[j].kind, decls[j].qualified_path@),
        forall|k: int| c <= k <= j ==> valid_path((#[trigger] decls[k]).qualified_path@),
    ensures
        build_from(t, seen, decls, c) is Duplicate,
    decreases j - c,
{
    let d = decls[c];
    let p = d.qualified_path@;
    if !seen_contains(seen, d.kind, p) {
        let t2 = spec_insert(t, path_segments(p), 0, d);
        lemma_seen_push(seen, (d.kind, p), decls[j].kind, decls[j].qualified_path@);
        lemma_duplicate_from(t2, seen.push((d.kind, p)), decls, c + 1, j);
    }
}

/// Duplicate detection: when two declarations share a kind and a
/// fully-qualified path, and every path up to the second of them is valid,
/// the build fails with `DuplicateDeclaration`.
pub proof fn lemma_duplicate_detected(decls: Seq<Declaration>, i: int, j: int)
    requires
        0 <= i < j < decls.len(),
        decls[i].kind == decls[j].kind,
        decls[i].qualified_path@ == decls[j].qualified_path@,
        forall|k: int| 0 <= k < j ==> valid_path((#[trigger] decls[k]).qualified_path@),
    ensures
        spec_build(decls) is Duplicate,
{
    lemma_duplicate_entered(root_node(), Seq::empty(), decls, 0, i, j);
}

/// Walking the fold up to declaration `i`, whose key declaration `j` will
/// repeat: from there `lemma_duplicate_from` takes over.
proof fn lemma_duplicate_entered(
    t: NodeV,
    seen: Seq<(DeclKind, Seq<char>)>,
    decls: Seq<Declaration>,
    c: int,
    i: int,
    j: int,
)
    requires
        0 <= c <= i < j < decls.len(),
        decls[i].kind == decls[j].kind,
        decls[i].qualified_path@ == decls[j].qualified_path@,
        forall|k: int| c <= k < j ==> valid_path((#[trigger] decls[k]).qualified_path@),
    ensures
        build_from(t, seen, decls, c) is Duplicate,
    decreases i - c,
{
    let d = decls[c];
    let p = d.qualified_path@;
    if seen_contains(seen, d.kind, p) {
    } else {
        let t2 = spec_insert(t, path_segments(p), 0, d);
        let seen2 = seen.push((d.kind, p));
        if c == i {
            assert(seen2[seen.len() as int] == (decls[j].kind, decls[j].qualified_path@));
            assert(seen_contains(seen2, decls[j].kind, decls[j].qualified_path@));
            lemma_duplicate_from(t2, seen2, decls, c + 1, j);
        } else {
            lemma_duplicate_entered(t2, seen2, decls, c + 1, i, j);
        }
    }
}

} // verus!
