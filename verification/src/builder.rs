//! Folding an ordered list of declarations into a surface tree.

use vstd::prelude::*;
use crate::path::{path_segments, split_path, valid_path};
use crate::surface::{
    children_view, lemma_children_view, lemma_same_children, node_view, BuildError, DeclKind,
    Declaration, NodeV, SurfaceNode, SurfaceTree,
};

verus! {

broadcast use vstd::std_specs::vec::axiom_vec_index_decreases;

/// A module node with no documentation and no children yet.
pub open spec fn fresh_module(name: Seq<char>) -> NodeV {
    NodeV {
        kind: DeclKind::Module,
        name,
        docs: Seq::empty(),
        gens: Seq::empty(),
        children: Seq::empty(),
    }
}

/// The node a declaration itself contributes, before any children.
pub open spec fn decl_node(d: Declaration, name: Seq<char>) -> NodeV {
    NodeV { kind: d.kind, name, docs: d.doc_lines@, gens: d.generics@, children: Seq::empty() }
}

/// The synthetic unnamed root module of an empty surface.
pub open spec fn root_node() -> NodeV {
    fresh_module(Seq::empty())
}

/// The index of the first `Module` child named `name`, or `-1`.
pub open spec fn find_module_child(cs: Seq<NodeV>, name: Seq<char>) -> int
    decreases cs.len(),
{
    if cs.len() == 0 {
        -1
    } else if cs[0].kind == DeclKind::Module && cs[0].name == name {
        0
    } else {
        let r = find_module_child(cs.drop_first(), name);
        if r < 0 {
            -1
        } else {
            r + 1
        }
    }
}

/// `find_module_child` returns the first matching index, or `-1` when no
/// child matches.
pub proof fn lemma_find_module_child(cs: Seq<NodeV>, name: Seq<char>)
    ensures
        ({
            let r = find_module_child(cs, name);
            &&& -1 <= r < cs.len()
            &&& r >= 0 ==> cs[r].kind == DeclKind::Module && cs[r].name == name
            &&& forall|j: int|
                0 <= j < cs.len() && (r == -1 || j < r) ==> !((#[trigger] cs[j]).kind
                    == DeclKind::Module && cs[j].name == name)
        }),
    decreases cs.len(),
{
    if cs.len() > 0 {
        lemma_find_module_child(cs.drop_first(), name);
        assert(forall|j: int| 1 <= j < cs.len() ==> cs.drop_first()[j - 1] == #[trigger] cs[j]);
    }
}

/// Inserts declaration `d` below `t`, walking `segs` from index `i`:
/// intermediate segments reuse the first module child of that name or create
/// a fresh one; the final segment attaches the declaration itself, filling in
/// the documentation of an already-created module rather than duplicating it.
pub open spec fn spec_insert(t: NodeV, segs: Seq<Seq<char>>, i: int, d: Declaration) -> NodeV
    recommends
        0 <= i < segs.len(),
    decreases segs.len() - i,
{
    if i < 0 || i >= segs.len() {
        t
    } else {
        let j = find_module_child(t.children, segs[i]);
        if i == segs.len() - 1 {
            if d.kind == DeclKind::Module && j >= 0 {
                NodeV {
                    children: t.children.update(
                        j,
                        NodeV { docs: d.doc_lines@, gens: d.generics@, ..t.children[j] },
                    ),
                    ..t
                }
            } else {
                NodeV { children: t.children.push(decl_node(d, segs[i])), ..t }
            }
        } else {
            if j >= 0 {
                NodeV { children: t.children.update(j, spec_insert(t.children[j], segs, i + 1, d)), ..t }
            } else {
                NodeV {
                    children: t.children.push(spec_insert(fresh_module(segs[i]), segs, i + 1, d)),
                    ..t
                }
            }
        }
    }
}

/// The keys held against later declarations: kind and qualified path.
pub open spec fn seen_contains(
    seen: Seq<(DeclKind, Seq<char>)>,
    kind: DeclKind,
    path: Seq<char>,
) -> bool {
    exists|j: int| 0 <= j < seen.len() && seen[j] == (kind, path)
}

/// The outcome of building a surface from a declaration list.
pub ghost enum BuildOutcome {
    Built(NodeV),
    Malformed(Seq<char>),
    Duplicate(Seq<char>),
}

/// Folds `decls[i..]` into `t`: the first declaration with an invalid path
/// or an already-seen key stops the build with its path.
pub open spec fn build_from(
    t: NodeV,
    seen: Seq<(DeclKind, Seq<char>)>,
    decls: Seq<Declaration>,
    i: int,
) -> BuildOutcome
    recommends
        0 <= i <= decls.len(),
    decreases decls.len() - i,
{
    if i < 0 || i >= decls.len() {
        BuildOutcome::Built(t)
    } else {
        let d = decls[i];
        let p = d.qualified_path@;
        if !valid_path(p) {
            BuildOutcome::Malformed(p)
        } else if seen_contains(seen, d.kind, p) {
            BuildOutcome::Duplicate(p)
        } else {
            build_from(
                spec_insert(t, path_segments(p), 0, d),
                seen.push((d.kind, p)),
                decls,
                i + 1,
            )
        }
    }
}

/// What building a whole declaration list yields.
pub open spec fn spec_build(decls: Seq<Declaration>) -> BuildOutcome {
    build_from(root_node(), Seq::empty(), decls, 0)
}

/// Removing an element and inserting another at the same index is an update.
proof fn lemma_remove_insert<A>(s: Seq<A>, j: int, x: A)
    requires
        0 <= j < s.len(),
    ensures
        s.remove(j).insert(j, x) == s.update(j, x),
{
    assert(s.remove(j).insert(j, x) =~= s.update(j, x));
}

/// Clones a vector of strings; the clones equal the originals.
fn clone_strings(v: &Vec<String>) -> (r: Vec<String>)
    ensures
        r@ == v@,
{
    let mut r: Vec<String> = Vec::new();
    let mut i: usize = 0;
    while i < v.len()
        invariant
            i <= v@.len(),
            r@ == v@.subrange(0, i as int),
        decreases v@.len() - i,
    {
        r.push(v[i].clone());
        assert(r@ =~= v@.subrange(0, i + 1 as int));
        i += 1;
    }
    assert(v@.subrange(0, v@.len() as int) =~= v@);
    r
}

/// Finds the first `Module` child of `node` named `name`.
fn find_child(node: &SurfaceNode, name: &String) -> (r: Option<usize>)
    ensures
        ({
            let cs = node_view(*node).children;
            match r {
                Some(j) => j < cs.len() && find_module_child(cs, name@) == j,
                None => find_module_child(cs, name@) == -1,
            }
        }),
{
    let ghost cs = node_view(*node).children;
    proof {
        lemma_children_view(*node, 0);
    }
    let mut j: usize = 0;
    while j < node.children.len()
        invariant
            j <= node.children@.len(),
            cs == node_view(*node).children,
            cs.len() == node.children@.len(),
            forall|k: int| 0 <= k < cs.len() ==> #[trigger] cs[k] == node_view(node.children@[k]),
            forall|k: int|
                0 <= k < j ==> !((#[trigger] cs[k]).kind == DeclKind::Module && cs[k].name
                    == name@),
        decreases node.children@.len() - j,
    {
        let c = &node.children[j];
        if c.kind == DeclKind::Module && c.name == *name {
            proof {
                lemma_find_module_child(cs, name@);
                assert(cs[j as int].kind == DeclKind::Module && cs[j as int].name == name@);
            }
            return Some(j);
        }
        assert(!(cs[j as int].kind == DeclKind::Module && cs[j as int].name == name@));
        j += 1;
    }
    proof {
        lemma_find_module_child(cs, name@);
    }
    None
}

/// Inserts `d` below `node` along `segs[i..]`, mirroring `spec_insert`.
fn insert_decl(node: &mut SurfaceNode, segs: &Vec<String>, i: usize, d: &Declaration)
    requires
        i < segs@.len(),
    ensures
        node_view(*final(node)) == spec_insert(
            node_view(*old(node)),
            segs@.map_values(|x: String| x@),
            i as int,
            *d,
        ),
    decreases segs@.len() - i,
{
    let ghost t = node_view(*old(node));
    let ghost sv = segs@.map_values(|x: String| x@);
    proof {
        lemma_children_view(*old(node), 0);
    }
    let found = find_child(node, &segs[i]);
    let n = segs.len();
    let last = i == n - 1;
    if last {
        let is_module = d.kind == DeclKind::Module;
        match found {
            Some(j) if is_module => {
                let ghost old_child = node.children@[j as int];
                let mut child = node.children.remove(j);
                child.doc_lines = clone_strings(&d.doc_lines);
                child.generics = clone_strings(&d.generics);
                proof {
                    lemma_same_children(child, old_child);
                    let expect = NodeV {
                        docs: d.doc_lines@,
                        gens: d.generics@,
                        ..t.children[j as int]
                    };
                    assert(node_view(child) == expect);
                }
                let ghost cv = child;
                node.children.insert(j, child);
                proof {
                    lemma_remove_insert(old(node).children@, j as int, cv);
                    lemma_children_view(*node, 0);
                    assert(children_view(*node, 0) =~= t.children.update(
                        j as int,
                        NodeV { docs: d.doc_lines@, gens: d.generics@, ..t.children[j as int] },
                    ));
                }
            },
            _ => {
                let leaf = SurfaceNode {
                    kind: d.kind,
                    name: segs[i].clone(),
                    doc_lines: clone_strings(&d.doc_lines),
                    generics: clone_strings(&d.generics),
                    children: Vec::new(),
                };
                proof {
                    lemma_children_view(leaf, 0);
                    assert(children_view(leaf, 0) =~= Seq::<NodeV>::empty());
                    assert(node_view(leaf) == decl_node(*d, sv[i as int]));
                }
                node.children.push(leaf);
                proof {
                    lemma_children_view(*node, 0);
                    assert(children_view(*node, 0) =~= t.children.push(
                        decl_node(*d, sv[i as int]),
                    ));
                }
            },
        }
    } else {
        match found {
            Some(j) => {
                let mut child = node.children.remove(j);
                insert_decl(&mut child, segs, i + 1, d);
                let ghost cv = child;
                node.children.insert(j, child);
                proof {
                    lemma_remove_insert(old(node).children@, j as int, cv);
                    lemma_children_view(*node, 0);
                    assert(children_view(*node, 0) =~= t.children.update(
                        j as int,
                        spec_insert(t.children[j as int], sv, i + 1, *d),
                    ));
                }
            },
            None => {
                let mut fresh = SurfaceNode {
                    kind: DeclKind::Module,
                    name: segs[i].clone(),
                    doc_lines: Vec::new(),
                    generics: Vec::new(),
                    children: Vec::new(),
                };
                proof {
                    lemma_children_view(fresh, 0);
                    assert(children_view(fresh, 0) =~= Seq::<NodeV>::empty());
                    assert(node_view(fresh) == fresh_module(sv[i as int]));
                }
                insert_decl(&mut fresh, segs, i + 1, d);
                node.children.push(fresh);
                proof {
                    lemma_children_view(*node, 0);
                    assert(children_view(*node, 0) =~= t.children.push(
                        spec_insert(fresh_module(sv[i as int]), sv, i + 1, *d),
                    ));
                }
            },
        }
    }
}

/// Whether `(kind, path)` was already declared.
fn seen_contains_exec(seen: &Vec<(DeclKind, String)>, kind: DeclKind, path: &String) -> (b: bool)
    ensures
        b == seen_contains(seen@.map_values(|p: (DeclKind, String)| (p.0, p.1@)), kind, path@),
{
    let ghost sv = seen@.map_values(|p: (DeclKind, String)| (p.0, p.1@));
    let mut j: usize = 0;
    while j < seen.len()
        invariant
            j <= seen@.len(),
            sv == seen@.map_values(|p: (DeclKind, String)| (p.0, p.1@)),
            forall|k: int| 0 <= k < j ==> #[trigger] sv[k] != (kind, path@),
        decreases seen@.len() - j,
    {
        let entry = &seen[j];
        if entry.0 == kind && entry.1 == *path {
            assert(sv[j as int] == (kind, path@));
            return true;
        }
        assert(sv[j as int] != (kind, path@));
        j += 1;
    }
    false
}

/// Builds a surface tree from an ordered declaration list. The result is
/// pinned down by `spec_build`: the exact tree on success, and the exact
/// offending path inside `MalformedPath` or `DuplicateDeclaration` on
/// failure.
pub fn build_tree(decls: &Vec<Declaration>) -> (r: Result<SurfaceTree, BuildError>)
    ensures
        match r {
            Ok(t) => spec_build(decls@) == BuildOutcome::Built(t@),
            Err(BuildError::MalformedPath(p)) => spec_build(decls@) == BuildOutcome::Malformed(p@),
            Err(BuildError::DuplicateDeclaration(p)) => spec_build(decls@)
                == BuildOutcome::Duplicate(p@),
        },
{
    let mut root = SurfaceNode {
        kind: DeclKind::Module,
        name: String::new(),
        doc_lines: Vec::new(),
        generics: Vec::new(),
        children: Vec::new(),
    };
    proof {
        lemma_children_view(root, 0);
        assert(children_view(root, 0) =~= Seq::<NodeV>::empty());
        assert(node_view(root) == root_node());
    }
    let mut seen: Vec<(DeclKind, String)> = Vec::new();
    proof {
        assert(seen@.map_values(|p: (DeclKind, String)| (p.0, p.1@)) =~= Seq::<(
            DeclKind,
            Seq<char>,
        )>::empty());
    }
    let mut i: usize = 0;
    while i < decls.len()
        invariant
            i <= decls@.len(),
            build_from(
                node_view(root),
                seen@.map_values(|p: (DeclKind, String)| (p.0, p.1@)),
                decls@,
                i as int,
            ) == spec_build(decls@),
        decreases decls@.len() - i,
    {
        let ghost sv = seen@.map_values(|p: (DeclKind, String)| (p.0, p.1@));
        let d = &decls[i];
        match split_path(&d.qualified_path) {
            Err(e) => {
                return Err(e);
            },
            Ok(segs) => {
                if seen_contains_exec(&seen, d.kind, &d.qualified_path) {
                    return Err(BuildError::DuplicateDeclaration(d.qualified_path.clone()));
                }
                assert(segs@.map_values(|x: String| x@) =~= path_segments(d.qualified_path@));
                insert_decl(&mut root, &segs, 0, d);
                seen.push((d.kind, d.qualified_path.clone()));
                proof {
                    assert(seen@.map_values(|p: (DeclKind, String)| (p.0, p.1@)) =~= sv.push(
                        (d.kind, d.qualified_path@),
                    ));
                }
                i += 1;
            },
        }
    }
    Ok(SurfaceTree { root })
}

} // verus!
